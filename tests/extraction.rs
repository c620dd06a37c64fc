use safe_archive::archive::{build_output_path, normalize_archive_components, resolve_output_path};
use safe_archive::entry_path::{has_windows_drive_prefix, normalize_entry_path, parse_entry_rel_path};
use safe_archive::error::ArchiveError;
use safe_archive::pack::archive_entry_name;
use safe_archive::resolve::{check_within, lexical_normalize, path_starts_with, PrefixWalk, Probe, WalkStep};
use safe_archive::session::{
    resolve_relative_symlink_target, validate_rel_link_target, EntryKind, ExtractionSession,
};
use safe_archive::top_dir::{detect_common_top_dir, flatten_destination, strip_common_top_dir};

fn segs(parts: &[&str]) -> Vec<String> {
    parts.iter().map(|p| p.to_string()).collect()
}

fn raws(parts: &[&str]) -> Vec<String> {
    segs(parts)
}

#[test]
fn normalize_drops_empty_and_dot_segments() {
    assert_eq!(normalize_archive_components("a/./b//c"), Some(segs(&["a", "b", "c"])));
    assert_eq!(normalize_archive_components("a\\b"), Some(segs(&["a", "b"])));
    assert_eq!(normalize_archive_components(""), Some(segs(&[])));
    assert_eq!(normalize_archive_components("x/"), Some(segs(&["x"])));
}

#[test]
fn normalize_rejects_parent_segments() {
    assert_eq!(normalize_archive_components("../x"), None);
    assert_eq!(normalize_archive_components("a/b/.."), None);
    assert_eq!(normalize_archive_components("a\\..\\b"), None);
}

#[test]
fn normalize_rejects_rooted_and_drive_paths() {
    assert_eq!(normalize_archive_components("/etc/passwd"), None);
    assert_eq!(normalize_archive_components("/x/"), None);
    assert_eq!(normalize_archive_components("\\x"), None);
    assert_eq!(normalize_archive_components("C:/x"), None);
    assert_eq!(normalize_archive_components("c:"), None);
    assert_eq!(resolve_output_path("/etc/passwd", &segs(&["d"]), None), None);
    assert_eq!(build_output_path(&segs(&["d"]), &segs(&["C:x"])), None);
}

#[test]
fn parse_rejects_unsafe_paths() {
    assert_eq!(parse_entry_rel_path("/etc/passwd"), None);
    assert_eq!(parse_entry_rel_path("\\etc\\passwd"), None);
    assert_eq!(parse_entry_rel_path("C:\\Windows\\x"), None);
    assert_eq!(parse_entry_rel_path("c:x"), None);
    assert_eq!(parse_entry_rel_path("a/../b"), None);
    assert_eq!(parse_entry_rel_path(".."), None);
    assert_eq!(parse_entry_rel_path(""), None);
    assert_eq!(parse_entry_rel_path("./"), None);
}

#[test]
fn parse_accepts_relative_paths() {
    assert_eq!(
        parse_entry_rel_path("project-v1/a/b.txt"),
        Some(segs(&["project-v1", "a", "b.txt"]))
    );
    assert_eq!(parse_entry_rel_path("./a//b/"), Some(segs(&["a", "b"])));
    assert_eq!(parse_entry_rel_path("dir\\file"), Some(segs(&["dir", "file"])));
    assert_eq!(parse_entry_rel_path("1:x"), Some(segs(&["1:x"])));
}

#[test]
fn backslashes_become_slashes() {
    assert_eq!(normalize_entry_path("a\\b\\c"), "a/b/c");
    assert_eq!(normalize_entry_path("a/b"), "a/b");
}

#[test]
fn drive_prefix_detection() {
    assert!(has_windows_drive_prefix("C:\\x"));
    assert!(has_windows_drive_prefix("z:"));
    assert!(!has_windows_drive_prefix("1:"));
    assert!(!has_windows_drive_prefix("C"));
    assert!(!has_windows_drive_prefix("ab:"));
}

#[test]
fn shared_top_dir_is_stripped() {
    let entries = raws(&["project-v1/", "project-v1/a/", "project-v1/a/b.txt"]);
    let top = detect_common_top_dir(&entries);
    assert_eq!(top.as_deref(), Some("project-v1"));
    let dest = segs(&["tmp", "dest"]);
    assert_eq!(
        flatten_destination("project-v1/a/b.txt", &dest, top.as_ref()),
        Some(segs(&["tmp", "dest", "a", "b.txt"]))
    );
    assert_eq!(flatten_destination("project-v1/", &dest, top.as_ref()), None);
}

#[test]
fn lone_top_entry_is_not_stripped() {
    let entries = raws(&["project-v1"]);
    let top = detect_common_top_dir(&entries);
    assert_eq!(top, None);
    let dest = segs(&["tmp", "dest"]);
    assert_eq!(
        flatten_destination("project-v1", &dest, top.as_ref()),
        Some(segs(&["tmp", "dest", "project-v1"]))
    );
}

#[test]
fn differing_top_dirs_give_no_top() {
    assert_eq!(detect_common_top_dir(&raws(&["a/x", "b/y"])), None);
    assert_eq!(detect_common_top_dir(&raws(&[])), None);
    assert_eq!(detect_common_top_dir(&raws(&["../evil", "a/x"])).as_deref(), Some("a"));
}

#[test]
fn component_lists_detect_top_dir() {
    let paths = vec![segs(&["top", "a"]), segs(&["top"])];
    assert_eq!(safe_archive::archive::detect_common_top_dir(&paths).as_deref(), Some("top"));
    let flat = vec![segs(&["top"]), segs(&["top"])];
    assert_eq!(safe_archive::archive::detect_common_top_dir(&flat), None);
    let mixed = vec![segs(&["top", "a"]), segs(&["other", "b"])];
    assert_eq!(safe_archive::archive::detect_common_top_dir(&mixed), None);
    let with_empty = vec![segs(&["top", "a"]), segs(&[])];
    assert_eq!(safe_archive::archive::detect_common_top_dir(&with_empty), None);
}

#[test]
fn strip_top_dir_cases() {
    let top = "top".to_string();
    assert_eq!(strip_common_top_dir(&segs(&["top", "a"]), Some(&top)), Some(segs(&["a"])));
    assert_eq!(strip_common_top_dir(&segs(&["top"]), Some(&top)), None);
    assert_eq!(strip_common_top_dir(&segs(&["other", "a"]), Some(&top)), None);
    assert_eq!(strip_common_top_dir(&segs(&["x"]), None), Some(segs(&["x"])));
}

#[test]
fn build_output_path_cases() {
    let dest = segs(&["d"]);
    assert_eq!(build_output_path(&dest, &segs(&["a", "b"])), Some(segs(&["d", "a", "b"])));
    assert_eq!(build_output_path(&dest, &segs(&["", ".", "x"])), Some(segs(&["d", "x"])));
    assert_eq!(build_output_path(&dest, &segs(&["a", ".."])), None);
    assert_eq!(build_output_path(&dest, &segs(&["a/b", "c"])), Some(segs(&["d", "a", "b", "c"])));
    assert_eq!(build_output_path(&dest, &segs(&["a/../b"])), None);
    assert_eq!(build_output_path(&dest, &segs(&["/abs"])), None);
    assert_eq!(build_output_path(&dest, &segs(&[])), Some(segs(&["d"])));
}

#[test]
fn resolve_output_path_strips_matching_top() {
    let dest = segs(&["d"]);
    let top = "pkg".to_string();
    assert_eq!(resolve_output_path("pkg/src/lib.rs", &dest, Some(&top)), Some(segs(&["d", "src", "lib.rs"])));
    assert_eq!(resolve_output_path("pkg", &dest, Some(&top)), None);
    assert_eq!(resolve_output_path("other/x", &dest, Some(&top)), Some(segs(&["d", "other", "x"])));
    assert_eq!(resolve_output_path("../x", &dest, None), None);
}

#[test]
fn lexical_normalization() {
    assert_eq!(lexical_normalize(&segs(&["r", "a", "..", "b", ".", "", "c"])), segs(&["r", "b", "c"]));
    assert_eq!(lexical_normalize(&segs(&["..", "..", "x"])), segs(&["x"]));
}

#[test]
fn containment_checks() {
    let root = segs(&["srv", "dest"]);
    assert!(path_starts_with(&segs(&["srv", "dest", "a"]), &root));
    assert!(path_starts_with(&segs(&["srv", "dest"]), &root));
    assert!(!path_starts_with(&segs(&["srv", "destination"]), &root));
    assert!(!path_starts_with(&segs(&["srv"]), &root));
    assert_eq!(check_within(&root, segs(&["srv", "dest", "x"])), Ok(segs(&["srv", "dest", "x"])));
    assert_eq!(check_within(&root, segs(&["etc", "passwd"])), Err(ArchiveError::EscapesDestination));
}

#[test]
fn prefix_walk_reappends_missing_tail() {
    let mut walk = PrefixWalk::start(&segs(&["r", "a", "..", "b", "c"]));
    assert_eq!(walk.current, segs(&["r", "b", "c"]));
    assert!(matches!(walk.step(Probe::NotFound), WalkStep::Retry));
    assert_eq!(walk.current, segs(&["r", "b"]));
    match walk.step(Probe::Resolved(segs(&["real", "b"]))) {
        WalkStep::Done(p) => assert_eq!(p, segs(&["real", "b", "c"])),
        _ => panic!("walk should be done"),
    }
}

#[test]
fn prefix_walk_fails_at_root_and_on_errors() {
    let mut walk = PrefixWalk::start(&segs(&["x"]));
    assert!(matches!(walk.step(Probe::NotFound), WalkStep::Retry));
    assert!(matches!(walk.step(Probe::NotFound), WalkStep::Fail(ArchiveError::ReachedRoot)));
    let mut other = PrefixWalk::start(&segs(&["x"]));
    assert!(matches!(other.step(Probe::Failed), WalkStep::Fail(ArchiveError::Filesystem)));
}

#[test]
fn unsafe_entry_path_aborts_the_extraction() {
    let root = segs(&["srv", "dest"]);
    let mut session = ExtractionSession::new(root.clone());
    let first = session.begin_entry("a.txt").unwrap();
    assert_eq!(first.raw_path(), "a.txt");
    assert_eq!(first.relative(), &segs(&["a.txt"]));
    assert_eq!(session.begin_entry("../evil").err(), Some(ArchiveError::UnsafeEntryPath));
    assert_eq!(session.begin_entry("b.txt").err(), Some(ArchiveError::Aborted));
    assert!(session.link_target_entry("b.txt").is_none());
    assert_eq!(session.finish_file(segs(&["srv", "dest", "b.txt"]), 1, Some(1)), Err(ArchiveError::Aborted));
    assert!(session.extracted.is_empty());
    assert!(session.finish().is_err());
}

#[test]
fn absolute_and_drive_paths_abort() {
    for raw in ["/etc/passwd", "C:\\evil.txt"] {
        let mut session = ExtractionSession::new(segs(&["d"]));
        assert_eq!(session.begin_entry(raw).err(), Some(ArchiveError::UnsafeEntryPath));
        assert!(session.failed);
    }
}

#[test]
fn skipped_entries_are_not_errors() {
    let mut session = ExtractionSession::new(segs(&["d"]));
    let entry = session.begin_entry("backup.toml").unwrap();
    let dest = segs(&["i"]);
    let core = segs(&["i", "core"]);
    assert_eq!(safe_archive::backup::backup_destination(entry.raw_path(), &dest, &core), None);
    assert!(!session.failed);
}

#[test]
fn short_content_is_a_size_mismatch() {
    let mut session = ExtractionSession::new(segs(&["d"]));
    assert_eq!(
        session.finish_file(segs(&["d", "f"]), 80, Some(100)),
        Err(ArchiveError::SizeMismatch { expected: 100, written: 80 })
    );
    assert!(session.extracted.is_empty());
    assert!(session.finish().is_err());
}

#[test]
fn matching_size_records_the_file() {
    let mut session = ExtractionSession::new(segs(&["d"]));
    assert_eq!(session.finish_file(segs(&["d", "f"]), 100, Some(100)), Ok(()));
    assert_eq!(session.finish_file(segs(&["d", "dir-like"]), 7, None), Ok(()));
    assert_eq!(session.extracted, vec![segs(&["d", "f"]), segs(&["d", "dir-like"])]);
    assert_eq!(session.finish().map(|v| v.len()), Ok(0));
}

#[test]
fn hard_link_before_target_fails() {
    let mut session = ExtractionSession::new(segs(&["d"]));
    let candidates = vec![segs(&["d", "target"])];
    assert_eq!(session.resolve_hard_link(&candidates), Err(ArchiveError::BrokenHardLink));
    // The target arriving later does not repair the extraction.
    assert_eq!(session.finish_file(segs(&["d", "target"]), 0, Some(0)), Err(ArchiveError::Aborted));
    assert!(session.finish().is_err());
}

#[test]
fn hard_link_after_target_resolves_to_first_written_candidate() {
    let mut session = ExtractionSession::new(segs(&["d"]));
    assert_eq!(session.finish_file(segs(&["d", "b"]), 3, Some(3)), Ok(()));
    assert_eq!(session.finish_file(segs(&["d", "a"]), 3, Some(3)), Ok(()));
    let candidates = vec![segs(&["d", "missing"]), segs(&["d", "a"]), segs(&["d", "b"])];
    assert_eq!(session.resolve_hard_link(&candidates), Ok(segs(&["d", "a"])));
    assert_eq!(session.finish_hard_link(segs(&["d", "link"])), Ok(()));
    assert_eq!(session.extracted.len(), 3);
}

#[test]
fn symlink_climbing_out_of_root_fails() {
    let root = segs(&["srv", "dest"]);
    let mut session = ExtractionSession::new(root.clone());
    let out = segs(&["srv", "dest", "link"]);
    let candidate = resolve_relative_symlink_target(&out, "../../etc/passwd").unwrap();
    assert_eq!(candidate, segs(&["srv", "dest", "..", "..", "etc", "passwd"]));
    let walk = PrefixWalk::start(&candidate);
    assert_eq!(walk.current, segs(&["etc", "passwd"]));
    assert_eq!(
        session.queue_symlink(out, "../../etc/passwd".to_string(), walk.current.clone()),
        Err(ArchiveError::EscapesDestination)
    );
    assert!(session.finish().is_err());
}

#[test]
fn symlink_inside_root_is_queued() {
    let root = segs(&["srv", "dest"]);
    let mut session = ExtractionSession::new(root);
    let out = segs(&["srv", "dest", "sub", "link"]);
    let candidate = resolve_relative_symlink_target(&out, "../file").unwrap();
    let walk = PrefixWalk::start(&candidate);
    assert_eq!(walk.current, segs(&["srv", "dest", "file"]));
    assert_eq!(session.queue_symlink(out, "../file".to_string(), walk.current.clone()), Ok(()));
    let pending = session.finish().unwrap();
    assert_eq!(pending.len(), 1);
    assert_eq!(pending[0].target, "../file");
}

#[test]
fn link_targets_are_validated() {
    assert_eq!(validate_rel_link_target(""), Err(ArchiveError::EmptyLinkTarget));
    assert_eq!(validate_rel_link_target("/etc/passwd"), Err(ArchiveError::AbsoluteLinkTarget));
    assert_eq!(validate_rel_link_target("C:\\x"), Err(ArchiveError::PrefixedLinkTarget));
    assert_eq!(validate_rel_link_target("a/b"), Ok(()));
    let mut session = ExtractionSession::new(segs(&["d"]));
    assert_eq!(
        session.queue_symlink(segs(&["d", "l"]), "/abs".to_string(), segs(&["d", "x"])),
        Err(ArchiveError::AbsoluteLinkTarget)
    );
}

#[test]
fn link_without_parent_is_refused() {
    assert_eq!(resolve_relative_symlink_target(&segs(&[]), "x"), Err(ArchiveError::NoParent));
}

#[test]
fn tar_type_bytes_map_to_kinds() {
    let mut session = ExtractionSession::new(segs(&["d"]));
    let kind = |session: &mut ExtractionSession, b: u8| session.begin_tar_entry("x", b).map(|(_, k)| k);
    assert_eq!(kind(&mut session, b'0'), Ok(EntryKind::File));
    assert_eq!(kind(&mut session, 0), Ok(EntryKind::File));
    assert_eq!(kind(&mut session, b'5'), Ok(EntryKind::Directory));
    assert_eq!(kind(&mut session, b'2'), Ok(EntryKind::Symlink));
    assert_eq!(kind(&mut session, b'1'), Ok(EntryKind::HardLink));
    assert_eq!(kind(&mut session, b'3'), Err(ArchiveError::UnsupportedEntryType));
    assert_eq!(kind(&mut session, b'0'), Err(ArchiveError::Aborted));
}

#[test]
fn unsafe_tar_path_fails_before_its_type() {
    let mut session = ExtractionSession::new(segs(&["d"]));
    assert_eq!(session.begin_tar_entry("../x", b'3').err(), Some(ArchiveError::UnsafeEntryPath));
}

#[test]
fn fifo_entry_is_fatal_even_if_it_would_be_skipped() {
    let mut session = ExtractionSession::new(segs(&["d"]));
    assert_eq!(session.begin_tar_entry("backup.toml", b'6').err(), Some(ArchiveError::UnsupportedEntryType));
    assert!(session.finish().is_err());
}

#[test]
fn escaping_output_aborts() {
    let mut session = ExtractionSession::new(segs(&["srv", "dest"]));
    assert_eq!(session.admit_output(segs(&["srv", "dest", "a"])), Ok(segs(&["srv", "dest", "a"])));
    assert_eq!(session.admit_output(segs(&["srv", "other"])), Err(ArchiveError::EscapesDestination));
    assert_eq!(session.admit_output(segs(&["srv", "dest", "b"])), Err(ArchiveError::Aborted));
}

#[test]
fn packed_tree_flattens_back_to_its_relative_paths() {
    let rels = vec![segs(&["a"]), segs(&["a", "b.txt"]), segs(&["c.txt"])];
    let names: Vec<String> = rels.iter().map(|r| archive_entry_name("data", r)).collect();
    assert_eq!(names, raws(&["data/a", "data/a/b.txt", "data/c.txt"]));
    let top = detect_common_top_dir(&names);
    assert_eq!(top.as_deref(), Some("data"));
    let dest = segs(&["fresh"]);
    for (name, rel) in names.iter().zip(rels.iter()) {
        let mut expected = dest.clone();
        expected.extend(rel.iter().cloned());
        assert_eq!(flatten_destination(name, &dest, top.as_ref()), Some(expected));
    }
}

fn plan(entries: &[(&str, u64)], dest: &Vec<String>) -> (Vec<Vec<String>>, bool) {
    let names: Vec<String> = entries.iter().map(|(n, _)| n.to_string()).collect();
    let top = detect_common_top_dir(&names);
    let mut session = ExtractionSession::new(dest.clone());
    for (name, size) in entries {
        let checked = session.begin_entry(name).unwrap();
        if let Some(out) = flatten_destination(checked.raw_path(), dest, top.as_ref()) {
            let out = session.admit_output(out).unwrap();
            session.finish_file(out, *size, Some(*size)).unwrap();
        }
    }
    let ok = session.finish().is_ok();
    (session.extracted, ok)
}

#[test]
fn repeated_extraction_plans_the_same_writes() {
    let dest = segs(&["d"]);
    let entries = [("pkg/a.txt", 3u64), ("pkg/sub/b.txt", 5u64)];
    let first = plan(&entries, &dest);
    let second = plan(&entries, &dest);
    assert_eq!(first, second);
    assert_eq!(first.0, vec![segs(&["d", "a.txt"]), segs(&["d", "sub", "b.txt"])]);
    assert!(first.1);
}

#[test]
fn second_run_resolves_to_the_same_paths() {
    let path = segs(&["srv", "dest", "sub", "f.txt"]);
    // First run: nothing below the root exists yet.
    let mut first = PrefixWalk::start(&path);
    assert!(matches!(first.step(Probe::NotFound), WalkStep::Retry));
    assert!(matches!(first.step(Probe::NotFound), WalkStep::Retry));
    let a = match first.step(Probe::Resolved(segs(&["srv", "dest"]))) {
        WalkStep::Done(p) => p,
        _ => panic!("walk should be done"),
    };
    // Second run: the directory exists already.
    let mut second = PrefixWalk::start(&path);
    assert!(matches!(second.step(Probe::NotFound), WalkStep::Retry));
    let b = match second.step(Probe::Resolved(segs(&["srv", "dest", "sub"]))) {
        WalkStep::Done(p) => p,
        _ => panic!("walk should be done"),
    };
    assert_eq!(a, b);
    assert_eq!(a, path);
}

#[test]
fn hard_link_candidates_in_order() {
    let mut session = ExtractionSession::new(segs(&["d"]));
    let out = segs(&["d", "sub", "link"]);
    let mapped = Some(segs(&["d", "target"]));
    assert_eq!(
        session.hard_link_candidate_paths(&out, "../target", mapped),
        Ok(vec![segs(&["d", "target"]), segs(&["d", "sub", "..", "target"])])
    );
    assert_eq!(
        session.hard_link_candidate_paths(&out, "t", None),
        Ok(vec![segs(&["d", "sub", "t"])])
    );
    assert_eq!(
        session.hard_link_candidate_paths(&out, "/etc/passwd", None),
        Err(ArchiveError::AbsoluteLinkTarget)
    );
    assert!(session.failed);
}

#[test]
fn hard_link_candidate_outside_root_is_refused() {
    let mut session = ExtractionSession::new(segs(&["d"]));
    assert_eq!(session.finish_file(segs(&["d", "a"]), 1, Some(1)), Ok(()));
    let candidates = vec![segs(&["etc", "passwd"]), segs(&["d", "a"])];
    assert_eq!(session.resolve_hard_link(&candidates), Err(ArchiveError::EscapesDestination));
    assert!(session.failed);
}
