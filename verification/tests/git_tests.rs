use commiter::git::{
    assemble_repo_info, detect_current_version, diff_cutoff, latest_tag_version, patch_text, signature_identity,
    DiffSummary, FileChange,
};
use commiter::semver;

#[test]
fn test_semver_parse() {
    let v = semver::Version::parse("1.2.3").unwrap();
    assert_eq!(v.major, 1);
    assert_eq!(v.minor, 2);
    assert_eq!(v.patch, 3);
}

#[test]
fn test_semver_ordering() {
    let v1 = semver::Version::parse("1.0.0").unwrap();
    let v2 = semver::Version::parse("2.0.0").unwrap();
    let v3 = semver::Version::parse("1.1.0").unwrap();
    let v4 = semver::Version::parse("1.0.1").unwrap();
    assert!(v1 < v2);
    assert!(v1 < v3);
    assert!(v1 < v4);
    assert!(v3 < v2);
    assert!(v4 < v3);
}

#[test]
fn test_semver_invalid() {
    assert!(semver::Version::parse("1.2").is_none());
    assert!(semver::Version::parse("abc").is_none());
    assert!(semver::Version::parse("1.2.3.4").is_none());
}

// ----- further cases -----

#[test]
fn semver_parse_edge_cases() {
    assert_eq!(semver::Version::parse("+1.2.3").map(|v| v.major), Some(1));
    assert!(semver::Version::parse("1..3").is_none());
    assert!(semver::Version::parse("-1.2.3").is_none());
    assert!(semver::Version::parse("1.2.18446744073709551616").is_none());
    assert_eq!(
        semver::Version::parse("0.0.18446744073709551615").map(|v| v.patch),
        Some(u64::MAX)
    );
}

#[test]
fn semver_display_and_back() {
    let v = semver::Version { major: 10, minor: 0, patch: 7 };
    assert_eq!(v.to_string(), "v10.0.7");
    assert_eq!(semver::Version::parse("10.0.7"), Some(v));
    assert!(v < semver::Version { major: 10, minor: 1, patch: 0 });
    assert!(!(v < v));
    assert_eq!(v.partial_cmp(&v), Some(std::cmp::Ordering::Equal));
    assert_eq!(
        semver::Version { major: 2, minor: 0, patch: 0 }.partial_cmp(&v),
        Some(std::cmp::Ordering::Less)
    );
}

#[test]
fn latest_tag_wins() {
    let tags: Vec<String> = vec!["v1.2.0".into(), "release".into(), "v1.10.0".into(), "1.9.9".into()];
    assert_eq!(latest_tag_version(&tags), Some(semver::Version { major: 1, minor: 10, patch: 0 }));
    assert_eq!(detect_current_version(Some(&tags), None), Some("v1.10.0".to_string()));
}

#[test]
fn manifest_version_fallback() {
    let tags: Vec<String> = vec!["nightly".into()];
    let manifest = "[package]\nname = \"x\"\n  version = \"0.3.1\"\nversion = \"9.9.9\"\n";
    assert_eq!(detect_current_version(Some(&tags), Some(manifest)), Some("v0.3.1".to_string()));
    assert_eq!(detect_current_version(None, Some("version = '2.0'")), Some("v2.0".to_string()));
    assert_eq!(detect_current_version(None, Some("version = \"\"\nversion = \"1\"")), Some("v1".to_string()));
    assert_eq!(detect_current_version(None, Some("name = \"y\"")), None);
    assert_eq!(detect_current_version(None, None), None);
}

#[test]
fn diff_cutoff_setting() {
    assert_eq!(diff_cutoff(None), 8192);
    assert_eq!(diff_cutoff(Some("100")), 100);
    assert_eq!(diff_cutoff(Some("+7")), 7);
    assert_eq!(diff_cutoff(Some("ten")), 8192);
    assert_eq!(diff_cutoff(Some("")), 8192);
}

fn change(path: &str, status: &str) -> FileChange {
    FileChange { path: path.into(), status: status.into() }
}

#[test]
fn assemble_merges_and_combines() {
    let staged = DiffSummary {
        text: "S".into(),
        changes: vec![change("a.rs", "M"), change("b.rs", "A")],
    };
    let unstaged = DiffSummary {
        text: "U".into(),
        changes: vec![change("b.rs", "M"), change("c.rs", "D"), change("c.rs", "M")],
    };
    let info = assemble_repo_info("/r".into(), "main".into(), &staged, &unstaged, 8192);
    assert_eq!(info.changed_files, vec!["a.rs", "b.rs", "c.rs"]);
    assert_eq!(info.changed_statuses, vec!["M", "A", "D"]);
    assert_eq!(
        info.combined_diff,
        "===== STAGED CHANGES (2 files) =====\nS\n===== UNSTAGED CHANGES (3 files) =====\nU"
    );
    assert!(!info.truncated);
    assert!(info.has_changes);
    assert_eq!(info.staged_count, 2);
    assert_eq!(info.unstaged_count, 3);
    assert_eq!(info.repo_path, "/r");
    assert_eq!(info.branch, "main");
}

#[test]
fn assemble_truncates_within_byte_budget() {
    let staged = DiffSummary { text: "é".repeat(20), changes: vec![change("x", "M")] };
    let unstaged = DiffSummary { text: String::new(), changes: vec![] };
    let info = assemble_repo_info(".".into(), "b".into(), &staged, &unstaged, 40);
    assert!(info.truncated);
    // the 37-byte header and one 2-byte 'é' fit in 40 bytes; the next 'é' does not
    let full = format!("===== STAGED CHANGES (1 files) =====\n{}\n", "é".repeat(20));
    assert_eq!(info.combined_diff, format!("{}\n... [diff truncated due to size]", &full[..39]));
    let ascii = DiffSummary { text: "x".repeat(100), changes: vec![] };
    let info = assemble_repo_info(".".into(), "b".into(), &ascii, &unstaged, 50);
    assert_eq!(info.combined_diff.len(), 50 + "\n... [diff truncated due to size]".len());
}

#[test]
fn assemble_nothing_changed() {
    let empty = DiffSummary { text: String::new(), changes: vec![] };
    let info = assemble_repo_info(".".into(), "b".into(), &empty, &empty, 10);
    assert_eq!(info.combined_diff, "");
    assert!(!info.has_changes);
    assert!(!info.truncated);
    assert!(info.changed_files.is_empty());
}

#[test]
fn patch_text_drops_lines_that_are_not_utf8() {
    let lines = vec![b"+ok\n".to_vec(), b"+bad \xff\n".to_vec(), "+é\n".as_bytes().to_vec(), Vec::new()];
    assert_eq!(patch_text(&lines), "+ok\n+é\n");
    assert_eq!(patch_text(&Vec::new()), "");
}

#[test]
fn signature_identity_defaults() {
    assert_eq!(signature_identity(None, None), ("Commiter".to_string(), "commiter@local".to_string()));
    assert_eq!(
        signature_identity(Some("Ann".into()), Some("ann@x".into())),
        ("Ann".to_string(), "ann@x".to_string())
    );
    assert_eq!(signature_identity(Some("Ann".into()), None), ("Ann".to_string(), "commiter@local".to_string()));
}
