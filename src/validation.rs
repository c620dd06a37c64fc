//! Checks on identifiers and file names that come from callers.
use vstd::prelude::*;
use vstd::string::*;

use crate::entry_path::{dot, dot_dot, kept, pieces};
use crate::error::{AppError, ErrorKind};
use crate::layout::child;

verus! {

pub open spec fn is_hex_char(c: char) -> bool {
    ('0' <= c && c <= '9') || ('a' <= c && c <= 'f') || ('A' <= c && c <= 'F')
}

/// 36 characters: hex digits with hyphens at 8, 13, 18 and 23.
pub open spec fn is_hyphenated_uuid(s: Seq<char>) -> bool {
    s.len() == 36 && forall|k: int|
        0 <= k < 36 ==> if k == 8 || k == 13 || k == 18 || k == 23 {
            s[k] == '-'
        } else {
            is_hex_char(s[k])
        }
}

/// The texts that are UUIDs: 32 hex digits; the hyphenated form; that form
/// in braces; or that form after `urn:uuid:` in any ASCII case.
pub open spec fn is_uuid_text(s: Seq<char>) -> bool {
    (s.len() == 32 && forall|k: int| 0 <= k < 32 ==> is_hex_char(s[k])) || is_hyphenated_uuid(s)
        || (s.len() == 38 && s[0] == '{' && s[37] == '}' && is_hyphenated_uuid(
        s.subrange(1, 37),
    )) || (s.len() == 45 && (forall|k: int|
        0 <= k < 9 ==> char_matches(s[k], "urn:uuid:"@[k], true)) && is_hyphenated_uuid(
        s.skip(9),
    ))
}

/// Relies on uuid::Uuid::parse_str: it accepts exactly the simple,
/// hyphenated, braced and URN forms, hex digits in either case.
#[verifier::external_body]
fn parses_as_uuid(s: &str) -> (r: bool)
    ensures
        r == is_uuid_text(s@),
{
    uuid::Uuid::parse_str(s).is_ok()
}

/// Accept an instance id only when it is a UUID.
pub fn validate_instance_id(instance_id: &str) -> (r: Result<(), AppError>)
    ensures
        r is Ok <==> is_uuid_text(instance_id@),
        r matches Err(e) ==> e.spec_kind() == ErrorKind::Other && e.spec_payload()
            == AppError::detail_payload("Invalid instance id"@),
{
    if !parses_as_uuid(instance_id) {
        return Err(AppError::other("Invalid instance id"));
    }
    Ok(())
}

pub open spec fn is_tag_char(c: char) -> bool {
    ('a' <= c && c <= 'z') || ('A' <= c && c <= 'Z') || ('0' <= c && c <= '9') || c == '.' || c
        == '_' || c == '-' || c == '+'
}

/// A version tag is non-empty and made of ASCII letters, digits and `._-+`.
pub open spec fn is_safe_tag(s: Seq<char>) -> bool {
    s.len() > 0 && forall|k: int| 0 <= k < s.len() ==> is_tag_char(s[k])
}

/// Accept a version tag that is safe to use as a file name.
pub fn validate_version_tag(version: &str) -> (r: Result<(), AppError>)
    ensures
        r is Ok <==> is_safe_tag(version@),
        r matches Err(e) ==> e.spec_kind() == ErrorKind::VersionNotFound && e.spec_payload()
            == seq![("version"@, version@)],
{
    let n = version.unicode_len();
    let mut ok = n > 0;
    let mut i: usize = 0;
    while i < n && ok
        invariant
            n == version@.len(),
            i <= n,
            ok ==> n > 0 && forall|k: int| 0 <= k < i ==> is_tag_char(version@[k]),
            !ok ==> !is_safe_tag(version@),
        decreases n - i,
    {
        let c = version.get_char(i);
        if !(('a' <= c && c <= 'z') || ('A' <= c && c <= 'Z') || ('0' <= c && c <= '9') || c == '.'
            || c == '_' || c == '-' || c == '+') {
            ok = false;
        }
        i = i + 1;
    }
    if !ok {
        return Err(AppError::version_not_found(version));
    }
    Ok(())
}

/// `c` is `t`, or the ASCII capital of `t` when case is ignored.
pub open spec fn char_matches(c: char, t: char, fold: bool) -> bool {
    c == t || (fold && 'A' <= c && c <= 'Z' && (c as u32) + 32 == (t as u32))
}

pub open spec fn tar_gz_suffix() -> Seq<char> {
    ".tar.gz"@
}

/// Whether `s` ends with `.tar.gz`, letters compared without case when `fold` holds.
pub open spec fn has_tar_gz_suffix(s: Seq<char>, fold: bool) -> bool {
    s.len() >= 7 && forall|k: int|
        0 <= k < 7 ==> char_matches(s[s.len() - 7 + k], tar_gz_suffix()[k], fold)
}

fn ends_with_tar_gz(name: &str, fold: bool) -> (r: bool)
    ensures
        r == has_tar_gz_suffix(name@, fold),
{
    let n = name.unicode_len();
    if n < 7 {
        return false;
    }
    let suffix = ".tar.gz";
    proof {
        reveal_strlit(".tar.gz");
    }
    let mut k: usize = 0;
    while k < 7
        invariant
            n == name@.len(),
            n >= 7,
            suffix@ == tar_gz_suffix(),
            suffix@.len() == 7,
            k <= 7,
            forall|j: int| 0 <= j < k ==> char_matches(name@[n - 7 + j], tar_gz_suffix()[j], fold),
        decreases 7 - k,
    {
        let c = name.get_char(n - 7 + k);
        let t = suffix.get_char(k);
        if !(c == t || (fold && 'A' <= c && c <= 'Z' && (c as u32) + 32 == (t as u32))) {
            return false;
        }
        k = k + 1;
    }
    true
}

/// Whether a file name is that of a tar.gz backup, ignoring ASCII case.
pub fn is_backup_filename(file_name: &str) -> (r: bool)
    ensures
        r == has_tar_gz_suffix(file_name@, true),
{
    ends_with_tar_gz(file_name, true)
}

/// Whether a file name ends with `.tar.gz` exactly.
pub fn is_tar_gz(file_name: &str) -> (r: bool)
    ensures
        r == has_tar_gz_suffix(file_name@, false),
{
    ends_with_tar_gz(file_name, false)
}

/// The last named segment of a path, unless that is `..`.
pub open spec fn file_name_of(s: Seq<char>) -> Option<Seq<char>> {
    let k = kept(pieces(s));
    if k.len() > 0 && k.last() != dot_dot() {
        Some(k.last())
    } else {
        None
    }
}

/// Where a backup named by `backup_path` would be: its file name in the
/// backups directory, when that is a tar.gz name.
pub open spec fn backup_candidate_of(backups_dir: Seq<Seq<char>>, backup_path: Seq<char>) -> Result<
    Seq<Seq<char>>,
    Seq<char>,
> {
    match file_name_of(backup_path) {
        None => Err("Invalid backup path"@),
        Some(name) => if has_tar_gz_suffix(name, true) {
            Ok(backups_dir.push(name))
        } else {
            Err("Invalid backup filename"@)
        },
    }
}

/// The path in `backups_dir` that a caller-supplied backup path stands for.
/// Only its file name is used, so no caller can name a file elsewhere.
pub fn backup_file_candidate(backups_dir: &Vec<String>, backup_path: &str) -> (r: Result<
    Vec<String>,
    AppError,
>)
    ensures
        match backup_candidate_of(backups_dir.deep_view(), backup_path@) {
            Ok(p) => (r matches Ok(v) && v.deep_view() == p),
            Err(m) => (r matches Err(e) && e.spec_kind() == ErrorKind::Backup && e.spec_payload()
                == AppError::detail_payload(m)),
        },
{
    last_named_candidate(backups_dir, backup_path)
}

fn last_named_candidate(backups_dir: &Vec<String>, backup_path: &str) -> (r: Result<
    Vec<String>,
    AppError,
>)
    ensures
        match backup_candidate_of(backups_dir.deep_view(), backup_path@) {
            Ok(p) => (r matches Ok(v) && v.deep_view() == p),
            Err(m) => (r matches Err(e) && e.spec_kind() == ErrorKind::Backup && e.spec_payload()
                == AppError::detail_payload(m)),
        },
{
    let all = crate::session::split_pieces(backup_path);
    let mut i: usize = all.len();
    let ghost ps = pieces(backup_path@);
    assert(ps.take(all.len() as int) =~= ps);
    while i > 0
        invariant
            i <= all.len(),
            ps == all.deep_view(),
            ps == pieces(backup_path@),
            kept(ps) == kept(ps.take(i as int)),
        decreases i,
    {
        let p = &all[i - 1];
        proof {
            assert(ps.take(i as int).drop_last() =~= ps.take(i - 1));
            assert(ps.take(i as int).last() == p@);
        }
        let len = p.as_str().unicode_len();
        let is_dot = len == 1 && p.as_str().get_char(0) == '.';
        proof {
            if len == 1 {
                assert(is_dot == (p@ =~= seq!['.']));
            }
        }
        proof {
            if len != 1 {
                assert(p@ != dot());
            }
        }
        if len != 0 && !is_dot {
            assert(kept(ps.take(i as int)) == kept(ps.take(i - 1)).push(p@));
            assert(kept(ps).last() == p@);
            assert(kept(ps).len() > 0);
            let is_dd = len == 2 && p.as_str().get_char(0) == '.' && p.as_str().get_char(1) == '.';
            proof {
                if len == 2 {
                    assert(is_dd == (p@ =~= dot_dot()));
                }
                assert(len != 2 ==> p@ != dot_dot());
            }
            if is_dd {
                assert(file_name_of(backup_path@) is None);
                return Err(AppError::backup("Invalid backup path"));
            }
            assert(file_name_of(backup_path@) == Some(p@));
            if !is_backup_filename(p.as_str()) {
                return Err(AppError::backup("Invalid backup filename"));
            }
            return Ok(child(backups_dir, p.as_str()));
        }
        i = i - 1;
    }
    assert(ps.take(0) =~= Seq::<Seq<char>>::empty());
    Err(AppError::backup("Invalid backup path"))
}

/// Where the archive of a version is kept, once its tag is known to be safe.
pub fn version_zip_candidate(versions_dir: &Vec<String>, version: &str) -> (r: Result<
    Vec<String>,
    AppError,
>)
    ensures
        is_safe_tag(version@) ==> (r matches Ok(v) && v.deep_view() == versions_dir.deep_view().push(
            version@ + ".zip"@,
        )),
        !is_safe_tag(version@) ==> (r matches Err(e) && e.spec_kind() == ErrorKind::VersionNotFound
            && e.spec_payload() == seq![("version"@, version@)]),
{
    match validate_version_tag(version) {
        Err(e) => Err(e),
        Ok(()) => {
            let name = String::from_str(version).concat(".zip");
            Ok(child(versions_dir, name.as_str()))
        },
    }
}

} // verus!
