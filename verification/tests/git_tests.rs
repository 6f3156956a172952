use gcm::git::{
    append_diff_line, has_staged_changes, readme_excerpt, recent_commits, status_label,
    DeltaKind, FileChange, IndexStatus, ProjectContext, RawPath, StagedChanges,
    README_LINE_LIMIT, RECENT_COMMIT_LIMIT,
};

fn status(new: bool, modified: bool, deleted: bool, renamed: bool, typechange: bool) -> IndexStatus {
    IndexStatus {
        index_new: new,
        index_modified: modified,
        index_deleted: deleted,
        index_renamed: renamed,
        index_typechange: typechange,
    }
}

#[test]
fn staged_changes_detected() {
    assert!(!has_staged_changes(&vec![]));
    assert!(!has_staged_changes(&vec![status(false, false, false, false, false)]));
    for k in 0..5 {
        let e = status(k == 0, k == 1, k == 2, k == 3, k == 4);
        assert!(has_staged_changes(&vec![status(false, false, false, false, false), e]));
    }
}

#[test]
fn status_labels() {
    assert_eq!(status_label(DeltaKind::Added), "added");
    assert_eq!(status_label(DeltaKind::Deleted), "deleted");
    assert_eq!(status_label(DeltaKind::Modified), "modified");
    assert_eq!(status_label(DeltaKind::Renamed), "renamed");
    assert_eq!(status_label(DeltaKind::Other), "changed");
}

#[test]
fn file_change_paths() {
    let c = FileChange::from_delta(
        RawPath::Unicode("src/new.rs".to_string()),
        RawPath::Unicode("src/old.rs".to_string()),
        DeltaKind::Renamed,
    );
    assert_eq!(c.path, "src/new.rs");
    assert_eq!(c.status, "renamed");

    let d = FileChange::from_delta(
        RawPath::Missing,
        RawPath::Unicode("gone.txt".to_string()),
        DeltaKind::Deleted,
    );
    assert_eq!(d.path, "gone.txt");
    assert_eq!(d.status, "deleted");

    // the new path is present but not Unicode: the old path is not tried
    let e = FileChange::from_delta(
        RawPath::NotUnicode,
        RawPath::Unicode("old.txt".to_string()),
        DeltaKind::Modified,
    );
    assert_eq!(e.path, "unknown");

    let f = FileChange::from_delta(RawPath::Missing, RawPath::Missing, DeltaKind::Other);
    assert_eq!(f.path, "unknown");
    assert_eq!(f.status, "changed");
}

#[test]
fn diff_lines_append_text_and_skip_invalid_utf8() {
    let mut text = String::from("diff --git a/x b/x\n");
    append_diff_line(&mut text, b"+hello\n");
    assert_eq!(text, "diff --git a/x b/x\n+hello\n");
    append_diff_line(&mut text, &[0xff, 0xfe, b'\n']);
    assert_eq!(text, "diff --git a/x b/x\n+hello\n");
    append_diff_line(&mut text, "-héllo\n".as_bytes());
    assert_eq!(text, "diff --git a/x b/x\n+hello\n-héllo\n");
}

#[test]
fn staged_changes_value() {
    let s = StagedChanges {
        diff_text: "x".to_string(),
        files_changed: vec![],
        insertions: 3,
        deletions: 1,
    };
    assert_eq!(s.insertions, 3);
    assert_eq!(s.deletions, 1);
}

#[test]
fn recent_commits_first_ten_readable() {
    let entries: Vec<Option<String>> = (0..15)
        .map(|i| if i % 4 == 3 { None } else { Some(format!("c{}", i)) })
        .collect();
    let r = recent_commits(&entries);
    assert_eq!(r, vec!["c0", "c1", "c2", "c4", "c5", "c6", "c8", "c9"]);
    assert_eq!(RECENT_COMMIT_LIMIT, 10);
    let all: Vec<Option<String>> = (0..4).map(|i| Some(format!("m{}", i))).collect();
    assert_eq!(recent_commits(&all), vec!["m0", "m1", "m2", "m3"]);
}

#[test]
fn readme_excerpt_is_first_fifty_lines() {
    let readme: String = (1..=80).map(|i| format!("# line {}", i)).collect::<Vec<_>>().join("\n");
    let e = readme_excerpt(&readme);
    assert_eq!(README_LINE_LIMIT, 50);
    assert_eq!(e, readme.lines().take(50).collect::<Vec<_>>().join("\n"));
    assert!(readme.starts_with(&e));
    assert_eq!(readme_excerpt("short\nreadme"), "short\nreadme");
    assert_eq!(readme_excerpt("a\r\nb\r\n"), "a\nb");
}

#[test]
fn project_context_from_sources() {
    let ctx = ProjectContext::from_sources(
        Some("gcm".to_string()),
        Some("# gcm\n\nGenerate messages.\n".to_string()),
        None,
        Some("[package]".to_string()),
        &vec![Some("feat: a".to_string()), None, Some("fix: b".to_string())],
    );
    assert_eq!(ctx.project_name.as_deref(), Some("gcm"));
    assert_eq!(ctx.readme_content.as_deref(), Some("# gcm\n\nGenerate messages."));
    assert_eq!(ctx.package_json, None);
    assert_eq!(ctx.cargo_toml.as_deref(), Some("[package]"));
    assert_eq!(ctx.recent_commits, vec!["feat: a", "fix: b"]);
}
