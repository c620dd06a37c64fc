//! Choosing and placing Python runtimes.
use vstd::prelude::*;
use vstd::string::*;

use crate::component::{str_eq, ComponentId};
use crate::error::{AppError, ErrorKind};
use crate::github::GitHubAsset;
use crate::layout::{child, get_component_dir};

verus! {

pub open spec fn has_prefix(s: Seq<char>, p: Seq<char>) -> bool {
    p.len() <= s.len() && s.take(p.len() as int) == p
}

pub open spec fn has_suffix(s: Seq<char>, p: Seq<char>) -> bool {
    p.len() <= s.len() && s.skip(s.len() - p.len()) == p
}

/// The asset name of a stripped install-only build of `major` for `arch`:
/// `cpython-<major>...<arch>-install_only_stripped.tar.gz`.
pub open spec fn asset_matches(name: Seq<char>, major: Seq<char>, arch: Seq<char>) -> bool {
    has_prefix(name, "cpython-"@ + major) && has_suffix(
        name,
        arch + "-install_only_stripped.tar.gz"@,
    )
}

/// `v` is the text of `s` up to its first `+` (all of `s` when it has none).
pub open spec fn is_before_plus(s: Seq<char>, v: Seq<char>) -> bool {
    exists|k: int|
        #![trigger s.take(k)]
        0 <= k <= s.len() && v == s.take(k) && (forall|j: int| 0 <= j < k ==> s[j] != '+') && (k
            == s.len() || s[k] == '+')
}

fn starts_with(s: &str, p: &str) -> (r: bool)
    ensures
        r == has_prefix(s@, p@),
{
    let n = s.unicode_len();
    let m = p.unicode_len();
    if m > n {
        return false;
    }
    let mut i: usize = 0;
    while i < m
        invariant
            n == s@.len(),
            m == p@.len(),
            m <= n,
            i <= m,
            forall|j: int| 0 <= j < i ==> s@[j] == p@[j],
        decreases m - i,
    {
        if s.get_char(i) != p.get_char(i) {
            assert(s@.take(m as int)[i as int] != p@[i as int]);
            return false;
        }
        i = i + 1;
    }
    assert(s@.take(m as int) =~= p@);
    true
}

fn ends_with(s: &str, p: &str) -> (r: bool)
    ensures
        r == has_suffix(s@, p@),
{
    let n = s.unicode_len();
    let m = p.unicode_len();
    if m > n {
        return false;
    }
    let off = n - m;
    let mut i: usize = 0;
    while i < m
        invariant
            n == s@.len(),
            m == p@.len(),
            off == n - m,
            i <= m,
            forall|j: int| 0 <= j < i ==> s@[off + j] == p@[j],
        decreases m - i,
    {
        if s.get_char(off + i) != p.get_char(i) {
            assert(s@.skip(off as int)[i as int] != p@[i as int]);
            return false;
        }
        i = i + 1;
    }
    assert(s@.skip(off as int) =~= p@);
    true
}

/// The text of `s[start..]` up to its first `+`.
fn before_plus(s: &str, start: usize) -> (r: String)
    requires
        start <= s@.len(),
    ensures
        is_before_plus(s@.skip(start as int), r@),
{
    let n = s.unicode_len();
    let ghost t = s@.skip(start as int);
    let mut i = start;
    while i < n
        invariant
            n == s@.len(),
            start <= i <= n,
            t == s@.skip(start as int),
            forall|j: int| 0 <= j < i - start ==> t[j] != '+',
        ensures
            start <= i <= n,
            t == s@.skip(start as int),
            forall|j: int| 0 <= j < i - start ==> t[j] != '+',
            i == n || s@[i as int] == '+',
        decreases n - i,
    {
        if s.get_char(i) == '+' {
            break;
        }
        i = i + 1;
    }
    assert(i == n || s@[i as int] == '+');
    let sub = s.substring_char(start, i);
    let r = sub.to_owned();
    assert(sub@ == s@.subrange(start as int, i as int));
    assert(r@ == sub@);
    assert(t.take(i - start) =~= s@.subrange(start as int, i as int));
    assert(is_before_plus(t, r@)) by {
        let k = i - start;
        assert(t.len() == n - start);
        assert(i < n ==> t[k] == s@[i as int]);
        assert(0 <= k <= t.len() && r@ == t.take(k) && (forall|j: int| 0 <= j < k ==> t[j] != '+')
            && (k == t.len() || t[k] == '+'));
    }
    r
}

/// Find the download URL and full version of the Python build for `major`
/// on the platform `arch_target`: the first asset whose name matches.
pub fn find_python_asset_for_version(
    assets: &Vec<GitHubAsset>,
    major_version: &str,
    arch_target: &str,
) -> (r: Result<(String, String), String>)
    ensures
        match r {
            Ok((url, version)) => exists|i: int|
                0 <= i < assets.len() && asset_matches(assets[i].name@, major_version@, arch_target@)
                    && (forall|j: int|
                    0 <= j < i ==> !asset_matches(assets[j].name@, major_version@, arch_target@))
                    && url@ == assets[i].browser_download_url@ && is_before_plus(
                    assets[i].name@.skip(8),
                    version@,
                ),
            Err(message) => message@ == "No Python "@ + major_version@
                + " asset found for platform "@ + arch_target@ && forall|i: int|
                0 <= i < assets.len() ==> !asset_matches(
                    assets[i].name@,
                    major_version@,
                    arch_target@,
                ),
        },
{
    let prefix = String::from_str("cpython-").concat(major_version);
    let suffix = String::from_str(arch_target).concat("-install_only_stripped.tar.gz");
    let mut i: usize = 0;
    while i < assets.len()
        invariant
            i <= assets.len(),
            prefix@ == "cpython-"@ + major_version@,
            suffix@ == arch_target@ + "-install_only_stripped.tar.gz"@,
            forall|j: int|
                0 <= j < i ==> !asset_matches(assets[j].name@, major_version@, arch_target@),
        decreases assets.len() - i,
    {
        let name = assets[i].name.as_str();
        if starts_with(name, prefix.as_str()) && ends_with(name, suffix.as_str()) {
            proof {
                reveal_strlit("cpython-");
                assert("cpython-"@.len() == 8);
            }
            let version = before_plus(name, 8);
            let url = assets[i].browser_download_url.clone();
            return Ok((url, version));
        }
        i = i + 1;
    }
    let message = String::from_str("No Python ").concat(major_version).concat(
        " asset found for platform ",
    ).concat(arch_target);
    Err(message)
}

/// The component that provides a Python major version, if any does.
pub open spec fn component_of_major(major: Seq<char>) -> Option<ComponentId> {
    if major == "3.12"@ {
        Some(ComponentId::Python312)
    } else if major == "3.10"@ {
        Some(ComponentId::Python310)
    } else {
        None
    }
}

/// The component that provides a Python major version, if any does.
pub fn component_for_major(major_version: &str) -> (r: Option<ComponentId>)
    ensures
        r == component_of_major(major_version@),
{
    if str_eq(major_version, "3.12") {
        Some(ComponentId::Python312)
    } else if str_eq(major_version, "3.10") {
        Some(ComponentId::Python310)
    } else {
        None
    }
}

/// Where the runtime of a Python major version is installed.
pub fn resolve_python_runtime_target(data_dir: &Vec<String>, major_version: &str) -> (r: Result<
    Vec<String>,
    AppError,
>)
    ensures
        match component_of_major(major_version@) {
            Some(id) => (r matches Ok(p) && p.deep_view() == data_dir.deep_view().push(
                "components"@,
            ).push(id.spec_dir_name())),
            None => (r matches Err(e) && e.spec_kind() == ErrorKind::Python && e.spec_payload()
                == AppError::detail_payload("Unsupported Python major version"@)),
        },
{
    match component_for_major(major_version) {
        Some(id) => Ok(get_component_dir(data_dir, id.dir_name())),
        None => Err(AppError::python("Unsupported Python major version")),
    }
}

/// What to do with a legacy runtime directory.
#[derive(Debug, Clone, Copy, PartialEq, Eq, Structural)]
pub enum MigrationAction {
    /// Nothing to migrate.
    Nothing,
    /// The new location exists already: remove the legacy directory.
    RemoveLegacy,
    /// Move the legacy directory to its new location.
    Rename,
}

/// The migration step for one legacy directory.
pub fn migration_action(legacy_exists: bool, target_exists: bool) -> (r: MigrationAction)
    ensures
        !legacy_exists ==> r == MigrationAction::Nothing,
        legacy_exists && target_exists ==> r == MigrationAction::RemoveLegacy,
        legacy_exists && !target_exists ==> r == MigrationAction::Rename,
{
    if !legacy_exists {
        MigrationAction::Nothing
    } else if target_exists {
        MigrationAction::RemoveLegacy
    } else {
        MigrationAction::Rename
    }
}

/// The legacy runtime directories and where each moves: `python` to the
/// Python 3.12 component, `compat_python` to the Python 3.10 component.
pub fn legacy_python_moves(data_dir: &Vec<String>) -> (r: Vec<(Vec<String>, Vec<String>)>)
    ensures
        r.len() == 2,
        r[0].0.deep_view() == data_dir.deep_view().push("python"@),
        r[0].1.deep_view() == data_dir.deep_view().push("components"@).push("python312"@),
        r[1].0.deep_view() == data_dir.deep_view().push("compat_python"@),
        r[1].1.deep_view() == data_dir.deep_view().push("components"@).push("python310"@),
{
    let mut moves: Vec<(Vec<String>, Vec<String>)> = Vec::new();
    moves.push((child(data_dir, "python"), get_component_dir(data_dir, "python312")));
    moves.push((child(data_dir, "compat_python"), get_component_dir(data_dir, "python310")));
    moves
}

/// A version known to be installed.
#[derive(Debug)]
pub struct InstalledVersion {
    pub version: String,
    pub zip_path: String,
}

/// Succeed when `version` is among the installed versions.
pub fn ensure_version_installed(installed: &Vec<InstalledVersion>, version: &str) -> (r: Result<
    (),
    AppError,
>)
    ensures
        r is Ok <==> exists|i: int| 0 <= i < installed.len() && installed[i].version@ == version@,
        r matches Err(e) ==> e.spec_kind() == ErrorKind::VersionNotFound && e.spec_payload()
            == seq![("version"@, version@)],
{
    let mut i: usize = 0;
    while i < installed.len()
        invariant
            i <= installed.len(),
            forall|j: int| 0 <= j < i ==> installed[j].version@ != version@,
        decreases installed.len() - i,
    {
        if str_eq(installed[i].version.as_str(), version) {
            return Ok(());
        }
        i = i + 1;
    }
    Err(AppError::version_not_found(version))
}

} // verus!
