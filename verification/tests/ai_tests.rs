use commiter::ai::{
    build_prompt, char_boundary, finish_generation, model_name, parse_versioned_response, truncate_subject,
    GenerationError,
};

#[test]
fn test_parse_versioned_response() {
    let raw = "feat: add user login\n\nImplemented login flow with OAuth2\n\nNext version: v1.1.0";
    let (msg, ver) = parse_versioned_response(raw);
    assert_eq!(msg, "feat: add user login\n\nImplemented login flow with OAuth2");
    assert_eq!(ver, Some("v1.1.0".to_string()));
}

#[test]
fn test_parse_versioned_response_no_version() {
    let raw = "fix: resolve crash on startup\n\nFixed null pointer in User::new()";
    let (msg, ver) = parse_versioned_response(raw);
    assert_eq!(msg, "fix: resolve crash on startup\n\nFixed null pointer in User::new()");
    assert_eq!(ver, None);
}

#[test]
fn test_parse_versioned_response_extra_lines() {
    let raw = "chore: update dependencies\n\nBumped reqwest to 0.12\n\nNext version: v1.0.1\n";
    let (msg, ver) = parse_versioned_response(raw);
    assert_eq!(msg, "chore: update dependencies\n\nBumped reqwest to 0.12");
    assert_eq!(ver, Some("v1.0.1".to_string()));
}

#[test]
fn parse_response_version_without_v_prefix() {
    let (msg, ver) = parse_versioned_response("feat: x\nNext version: 2.0.0");
    assert_eq!(msg, "feat: x");
    assert_eq!(ver, Some("v2.0.0".to_string()));
}

#[test]
fn parse_response_malformed_version_line_is_dropped() {
    let (msg, ver) = parse_versioned_response("feat: x\n  Next version: soon\nbody");
    assert_eq!(msg, "feat: x\nbody");
    assert_eq!(ver, None);
}

#[test]
fn parse_response_last_valid_version_wins() {
    let (_, ver) = parse_versioned_response("a\nNext version: v1.0.0\nNext version: v1.2\nNext version: 3.0.1\r\n");
    assert_eq!(ver, Some("v3.0.1".to_string()));
}

#[test]
fn parse_response_crlf_lines() {
    let (msg, ver) = parse_versioned_response("subject\r\nbody\r\nNext version: v0.1.0\r\n");
    assert_eq!(msg, "subject\nbody");
    assert_eq!(ver, Some("v0.1.0".to_string()));
}

#[test]
fn char_boundary_short_text_is_its_length() {
    assert_eq!(char_boundary("hello", 90), 5);
    assert_eq!(char_boundary("", 0), 0);
}

#[test]
fn char_boundary_steps_back_inside_multibyte_char() {
    // "aé" is 3 bytes: 'a' at 0, 'é' at 1..3
    assert_eq!(char_boundary("aéb", 2), 1);
    assert_eq!(char_boundary("aéb", 3), 3);
}

#[test]
fn truncate_subject_short_unchanged() {
    let mut m = "feat: short\nbody".to_string();
    truncate_subject(&mut m);
    assert_eq!(m, "feat: short\nbody");
}

#[test]
fn truncate_subject_cuts_at_last_space() {
    let subject = "word ".repeat(25); // 125 characters
    let mut m = format!("{}\nbody", subject);
    truncate_subject(&mut m);
    // the first 90 characters are "word " * 18; their last space is at 89
    let expected = format!("{}\nbody", &subject[..89]);
    assert_eq!(m, expected);
    assert!(m.find('\n').unwrap() <= 90);
}

#[test]
fn truncate_subject_without_newline_and_spaces() {
    let mut m = "x".repeat(100);
    truncate_subject(&mut m);
    assert_eq!(m, "x".repeat(90));
}

#[test]
fn truncate_subject_counts_characters() {
    // 89 ASCII characters, then a 2-byte character as the 90th character
    let mut m = format!("{}é{}", "y".repeat(89), "z".repeat(10));
    truncate_subject(&mut m);
    assert_eq!(m, format!("{}é", "y".repeat(89)));
}

#[test]
fn truncate_subject_keeps_short_multibyte_subject() {
    // 50 characters, 100 bytes: within the limit
    let mut m = "é".repeat(50);
    truncate_subject(&mut m);
    assert_eq!(m, "é".repeat(50));
    let mut m = format!("{}
body", "é".repeat(50));
    truncate_subject(&mut m);
    assert_eq!(m, format!("{}
body", "é".repeat(50)));
}

#[test]
fn truncate_subject_cuts_multibyte_subject_at_ninety_characters() {
    let mut m = format!("{}
body", "é".repeat(100));
    truncate_subject(&mut m);
    assert_eq!(m, format!("{}
body", "é".repeat(90)));
}

#[test]
fn truncate_subject_twice_is_once() {
    let mut m = format!("{} tail\nrest", "a ".repeat(60));
    truncate_subject(&mut m);
    let once = m.clone();
    truncate_subject(&mut m);
    assert_eq!(m, once);
}

#[test]
fn build_prompt_plain() {
    let p = build_prompt("DIFF", false, None);
    assert!(p.starts_with("Given these diffs (staged then unstaged)"));
    assert!(p.ends_with("No quotes.\n\nDiffs:\nDIFF"));
}

#[test]
fn build_prompt_truncated_with_version() {
    let p = build_prompt("D", true, Some("v1.2.3"));
    assert!(p.contains("\n\nCurrent version: v1.2.3\nAnalyze the changes and determine the next semantic version:\n"));
    assert!(p.contains("Next version: <version>\n\n\n\nDiffs (truncated):\nD\n\nNote: diff was truncated. Output only the commit message and suggested version anyway."));
}

#[test]
fn build_prompt_truncated_without_version() {
    let p = build_prompt("D", true, None);
    assert!(p.ends_with("Diffs (truncated):\nD\n\nNote: diff was truncated. Output only the commit message anyway."));
}

#[test]
fn finish_generation_failure_reports_stderr() {
    let r = finish_generation(false, b"ignored", b"  boom \n", None);
    match r {
        Err(e) => {
            assert!(matches!(e, GenerationError::Failed(ref s) if s == "boom"));
            assert_eq!(e.message(), "opencode returned an error: boom");
        }
        Ok(_) => panic!("expected an error"),
    }
}

#[test]
fn finish_generation_empty_answer() {
    let r = finish_generation(true, b" \n\t ", b"", None);
    match r {
        Err(e) => {
            assert!(matches!(e, GenerationError::Empty));
            assert_eq!(e.message(), "opencode returned an empty response");
        }
        Ok(_) => panic!("expected an error"),
    }
}

#[test]
fn finish_generation_versioned_answer() {
    let r = finish_generation(true, b"\nfeat: y\n\nbody\nNext version: v2.1.0\n", b"", Some("v2.0.0")).unwrap();
    assert_eq!(r.message, "feat: y\n\nbody");
    assert_eq!(r.suggested_version, Some("v2.1.0".to_string()));
}

#[test]
fn finish_generation_unversioned_keeps_version_line() {
    let r = finish_generation(true, b"feat: y\nNext version: v2.1.0", b"", None).unwrap();
    assert_eq!(r.message, "feat: y\nNext version: v2.1.0");
    assert_eq!(r.suggested_version, None);
}

#[test]
fn finish_generation_cuts_long_subject() {
    let answer = format!("{}\nbody", "x".repeat(120));
    let r = finish_generation(true, answer.as_bytes(), b"", None).unwrap();
    assert_eq!(r.message, format!("{}\nbody", "x".repeat(90)));
}

#[test]
fn finish_generation_replaces_invalid_utf8() {
    let r = finish_generation(true, b"ok \xff", b"", None).unwrap();
    assert_eq!(r.message, "ok \u{FFFD}");
}

#[test]
fn model_default_and_override() {
    assert_eq!(model_name(None), "opencode/deepseek-v4-flash-free");
    assert_eq!(model_name(Some("x/y".into())), "x/y");
}

#[test]
fn finish_generation_trims_unicode_white_space() {
    let answer = "\u{3000}\u{A0} feat: z \u{2028}\u{85}";
    let r = finish_generation(true, answer.as_bytes(), b"", None).unwrap();
    assert_eq!(r.message, "feat: z");
}
