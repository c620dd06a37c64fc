//! Backups: their file names and where their entries are restored to.
use vstd::prelude::*;
use vstd::string::*;

use crate::entry_path::{parse_entry_rel_path, rel_path_of, segs_opt};
use crate::top_dir::append_segments;

verus! {

/// Where a backup entry goes: `backup.toml` and legacy `venv/` entries are
/// skipped, `data/` entries go to the core directory, the rest to the
/// instance directory.
pub open spec fn route_of(
    rel: Seq<Seq<char>>,
    instance_dir: Seq<Seq<char>>,
    core_dir: Seq<Seq<char>>,
) -> Option<Seq<Seq<char>>> {
    if rel == seq!["backup.toml"@] {
        None
    } else if rel.len() > 0 && rel[0] == "venv"@ {
        None
    } else if rel.len() > 0 && rel[0] == "data"@ {
        Some(core_dir + rel)
    } else {
        Some(instance_dir + rel)
    }
}

fn first_is(rel: &Vec<String>, name: &str) -> (r: bool)
    ensures
        r == (rel.len() > 0 && rel.deep_view()[0] == name@),
{
    if rel.len() == 0 {
        return false;
    }
    assert(rel.deep_view()[0] == rel[0]@);
    crate::component::str_eq(rel[0].as_str(), name)
}

/// Route a relative backup entry path to its destination.
pub fn route_backup_entry(relative: &Vec<String>, instance_dir: &Vec<String>, core_dir: &Vec<
    String,
>) -> (r: Option<Vec<String>>)
    ensures
        segs_opt(r) == route_of(relative.deep_view(), instance_dir.deep_view(), core_dir.deep_view()),
{
    let is_meta = relative.len() == 1 && first_is(relative, "backup.toml");
    proof {
        if relative.len() == 1 {
            assert(is_meta == (relative.deep_view() =~= seq!["backup.toml"@]));
        } else {
            assert(relative.deep_view().len() != seq!["backup.toml"@].len());
        }
    }
    if is_meta {
        return None;
    }
    if first_is(relative, "venv") {
        return None;
    }
    if first_is(relative, "data") {
        Some(append_segments(core_dir, relative))
    } else {
        Some(append_segments(instance_dir, relative))
    }
}

/// The destination of a raw entry when a whole backup is restored.
pub open spec fn backup_target(
    raw: Seq<char>,
    instance_dir: Seq<Seq<char>>,
    core_dir: Seq<Seq<char>>,
) -> Option<Seq<Seq<char>>> {
    match rel_path_of(raw) {
        None => None,
        Some(rel) => route_of(rel, instance_dir, core_dir),
    }
}

/// The destination mapping used when a whole backup is restored.
pub fn backup_destination(raw_path: &str, instance_dir: &Vec<String>, core_dir: &Vec<String>) -> (r:
    Option<Vec<String>>)
    ensures
        segs_opt(r) == backup_target(raw_path@, instance_dir.deep_view(), core_dir.deep_view()),
{
    match parse_entry_rel_path(raw_path) {
        None => None,
        Some(rel) => route_backup_entry(&rel, instance_dir, core_dir),
    }
}

/// The destination of a raw entry when only the data of a backup is restored.
pub open spec fn data_target(raw: Seq<char>, core_dir: Seq<Seq<char>>) -> Option<Seq<Seq<char>>> {
    match rel_path_of(raw) {
        None => None,
        Some(rel) => if rel.len() > 0 && rel[0] == "data"@ {
            Some(core_dir + rel)
        } else {
            None
        },
    }
}

/// The destination mapping used when only the data of a backup is restored.
pub fn data_destination(raw_path: &str, core_dir: &Vec<String>) -> (r: Option<Vec<String>>)
    ensures
        segs_opt(r) == data_target(raw_path@, core_dir.deep_view()),
{
    match parse_entry_rel_path(raw_path) {
        None => None,
        Some(rel) => {
            if first_is(&rel, "data") {
                Some(append_segments(core_dir, &rel))
            } else {
                None
            }
        },
    }
}

/// The file name of a new backup: `<id>-<timestamp>.zip`, with `-auto`
/// before the extension for automatic backups.
pub fn backup_file_name(instance_id: &str, timestamp: &str, auto_generated: bool) -> (r: String)
    ensures
        auto_generated ==> r@ == instance_id@ + "-"@ + timestamp@ + "-auto.zip"@,
        !auto_generated ==> r@ == instance_id@ + "-"@ + timestamp@ + ".zip"@,
{
    let base = String::from_str(instance_id).concat("-").concat(timestamp);
    if auto_generated {
        base.concat("-auto.zip")
    } else {
        base.concat(".zip")
    }
}

} // verus!
