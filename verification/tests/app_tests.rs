use commiter::app::{App, AppEvent, AppState};
use commiter::git::RepoInfo;
use std::time::Instant;

fn make_app() -> App {
    App {
        state: AppState::Idle,
        repo_info: None,
        init_error: None,
        commit_message: String::new(),
        suggested_version: None,
        pregen_message: None,
        pregen_suggested_version: None,
        status_line: String::new(),
        commit_hash: None,
        spinner_start: Instant::now(),
        show_file_list: true,
        editing: false,
        cursor_pos: 0,
    }
}

fn repo(has_changes: bool) -> RepoInfo {
    RepoInfo {
        repo_path: ".".into(),
        branch: "main".into(),
        staged_count: 1,
        unstaged_count: 0,
        changed_files: vec!["foo.rs".into()],
        changed_statuses: vec!["M".into()],
        combined_diff: "diff --git a/foo.rs b/foo.rs".into(),
        truncated: false,
        has_changes,
    }
}

#[test]
fn test_can_generate_idle_no_changes() {
    let app = make_app();
    assert!(!app.can_generate());
}

#[test]
fn test_can_generate_idle_with_changes() {
    let mut app = make_app();
    app.repo_info = Some(RepoInfo {
        repo_path: ".".into(),
        branch: "main".into(),
        staged_count: 1,
        unstaged_count: 0,
        changed_files: vec!["foo.rs".into()],
        changed_statuses: vec!["M".into()],
        combined_diff: "diff --git a/foo.rs b/foo.rs".into(),
        truncated: false,
        has_changes: true,
    });
    assert!(app.can_generate());
}

#[test]
fn test_can_generate_wrong_state() {
    let mut app = make_app();
    app.state = AppState::Ready;
    assert!(!app.can_generate());
}

#[test]
fn test_can_commit_ready_with_message() {
    let mut app = make_app();
    app.state = AppState::Ready;
    app.commit_message = "feat: add feature".into();
    assert!(app.can_commit());
}

#[test]
fn test_can_commit_already_committed() {
    let mut app = make_app();
    app.state = AppState::Ready;
    app.commit_message = "feat: add feature".into();
    app.commit_hash = Some("abc1234".into());
    assert!(!app.can_commit());
}

#[test]
fn test_can_commit_empty_message() {
    let mut app = make_app();
    app.state = AppState::Ready;
    assert!(!app.can_commit());
}

#[test]
fn test_can_copy_pregen() {
    let mut app = make_app();
    app.state = AppState::PreGenerated;
    app.pregen_message = Some("feat: add".into());
    assert!(app.can_copy_pregen());
}

#[test]
fn test_can_copy_pregen_no_message() {
    let mut app = make_app();
    app.state = AppState::PreGenerated;
    assert!(!app.can_copy_pregen());
}

#[test]
fn test_handle_event_generated() {
    let mut app = make_app();
    app.handle_event(AppEvent::Generated("feat: x".into()));
    assert_eq!(app.commit_message, "feat: x");
    assert_eq!(app.state, AppState::Ready);
}

#[test]
fn test_handle_event_committed() {
    let mut app = make_app();
    app.handle_event(AppEvent::Committed("deadbeef1234567".into()));
    assert_eq!(app.commit_hash, Some("deadbeef1234567".into()));
    assert_eq!(app.state, AppState::Ready);
}

#[test]
fn test_handle_event_error() {
    let mut app = make_app();
    app.handle_event(AppEvent::Error("something went wrong".into()));
    assert_eq!(app.state, AppState::Idle);
    assert!(app.status_line.contains("something went wrong"));
}

#[test]
fn test_insert_char() {
    let mut app = make_app();
    app.commit_message = "helo".into();
    app.cursor_pos = 3;
    app.insert_char('l');
    assert_eq!(app.commit_message, "hello");
    assert_eq!(app.cursor_pos, 4);
}

#[test]
fn test_insert_char_at_end() {
    let mut app = make_app();
    app.commit_message = "hello".into();
    app.cursor_pos = 5;
    app.insert_char('!');
    assert_eq!(app.commit_message, "hello!");
    assert_eq!(app.cursor_pos, 6);
}

#[test]
fn test_delete_backward() {
    let mut app = make_app();
    app.commit_message = "hello".into();
    app.cursor_pos = 5;
    app.delete_backward();
    assert_eq!(app.commit_message, "hell");
    assert_eq!(app.cursor_pos, 4);
}

#[test]
fn test_delete_backward_at_start() {
    let mut app = make_app();
    app.commit_message = "hello".into();
    app.cursor_pos = 0;
    app.delete_backward();
    assert_eq!(app.commit_message, "hello");
    assert_eq!(app.cursor_pos, 0);
}

#[test]
fn test_delete_forward() {
    let mut app = make_app();
    app.commit_message = "hello".into();
    app.cursor_pos = 0;
    app.delete_forward();
    assert_eq!(app.commit_message, "ello");
    assert_eq!(app.cursor_pos, 0);
}

#[test]
fn test_delete_forward_at_end() {
    let mut app = make_app();
    app.commit_message = "hello".into();
    app.cursor_pos = 5;
    app.delete_forward();
    assert_eq!(app.commit_message, "hello");
    assert_eq!(app.cursor_pos, 5);
}

#[test]
fn test_cursor_left_right() {
    let mut app = make_app();
    app.commit_message = "hello".into();
    app.cursor_pos = 5;
    app.cursor_left();
    assert_eq!(app.cursor_pos, 4);
    app.cursor_left();
    assert_eq!(app.cursor_pos, 3);
    app.cursor_right();
    assert_eq!(app.cursor_pos, 4);
}

#[test]
fn test_cursor_home_end() {
    let mut app = make_app();
    app.commit_message = "hello world".into();
    app.cursor_pos = 5;
    app.cursor_home();
    assert_eq!(app.cursor_pos, 0);
    app.cursor_end();
    assert_eq!(app.cursor_pos, 11);
}

#[test]
fn test_insert_char_utf8() {
    let mut app = make_app();
    app.commit_message = "héllo".into();
    app.cursor_pos = 3; // after 'é' (2-byte char at bytes 1-2)
    app.insert_char('!');
    assert_eq!(app.commit_message, "hé!llo");
    assert_eq!(app.cursor_pos, 4);
}

#[test]
fn test_delete_backward_utf8() {
    let mut app = make_app();
    app.commit_message = "héllo".into();
    app.cursor_pos = 6; // end of string
    app.delete_backward();
    // 'o' removed
    app.delete_backward();
    // 'l' removed
    app.delete_backward();
    // 'l' removed
    app.delete_backward();
    // 'é' removed (2 bytes)
    assert_eq!(app.commit_message, "h");
    assert_eq!(app.cursor_pos, 1);
}

#[test]
fn test_cursor_bounds() {
    let mut app = make_app();
    app.commit_message = "hi".into();
    app.cursor_pos = 0;
    app.cursor_left();
    assert_eq!(app.cursor_pos, 0);
    app.cursor_pos = 2;
    app.cursor_right();
    assert_eq!(app.cursor_pos, 2);
}

#[test]
fn test_start_editing() {
    let mut app = make_app();
    app.commit_message = "feat: add".into();
    app.start_editing();
    assert!(app.editing);
    assert_eq!(app.cursor_pos, 9);
}

#[test]
fn test_stop_editing() {
    let mut app = make_app();
    app.commit_message = "feat: add".into();
    app.editing = true;
    app.stop_editing();
    assert!(!app.editing);
}

// ----- further cases -----

#[test]
fn new_with_changes_and_version() {
    let app = App::new(Ok(repo(true)), Some("v1.2.3".into()));
    assert_eq!(app.state, AppState::Idle);
    assert_eq!(app.status_line, "Current version: v1.2.3 | Press Enter to generate a message");
    assert!(app.init_error.is_none());
    assert!(app.can_generate());
}

#[test]
fn new_without_changes_or_version() {
    let app = App::new(Ok(repo(false)), None);
    assert_eq!(app.status_line, "No changes detected. Make some changes to generate a message.");
    let app = App::new(Ok(repo(false)), Some("v0.1.0".into()));
    assert_eq!(
        app.status_line,
        "No changes detected. Make some changes to generate a message. | Current version: v0.1.0"
    );
    let app = App::new(Ok(repo(true)), None);
    assert_eq!(app.status_line, "Press Enter to generate a commit message");
}

#[test]
fn new_outside_repository() {
    let app = App::new(Err("Not a git repository".into()), None);
    assert_eq!(app.init_error, Some("Not a git repository — press 'q' to quit".to_string()));
    assert!(app.repo_info.is_none());
    assert_eq!(app.status_line, "");
    assert!(!app.can_generate());
}

#[test]
fn handle_event_short_hash_and_versions() {
    let mut app = make_app();
    app.handle_event(AppEvent::Committed("0123456789abcdef".into()));
    assert_eq!(app.status_line, "✓ Committed: 0123456");
    app.handle_event(AppEvent::Committed("abc".into()));
    assert_eq!(app.status_line, "✓ Committed: abc");
    app.handle_event(AppEvent::GeneratedWithVersion {
        message: "m".into(),
        suggested_version: Some("v2.0.0".into()),
    });
    assert_eq!(app.suggested_version, Some("v2.0.0".into()));
    assert_eq!(app.status_line, "✓ Copied to clipboard");
    app.handle_event(AppEvent::PreGenerated { message: "p".into(), suggested_version: None });
    assert_eq!(app.state, AppState::PreGenerated);
    assert_eq!(app.pregen_message, Some("p".into()));
    assert_eq!(app.status_line, "✓ Ready — Press Enter");
    app.handle_event(AppEvent::Error("bad".into()));
    assert_eq!(app.status_line, "✗ bad");
}

#[test]
fn backspace_undoes_insert_of_multibyte_char() {
    let mut app = make_app();
    app.commit_message = "añb".into();
    app.cursor_pos = 3; // after 'ñ'
    app.insert_char('€');
    assert_eq!(app.commit_message, "añ€b");
    assert_eq!(app.cursor_pos, 6);
    app.delete_backward();
    assert_eq!(app.commit_message, "añb");
    assert_eq!(app.cursor_pos, 3);
}

#[test]
fn left_then_right_returns_over_multibyte() {
    let mut app = make_app();
    app.commit_message = "x😀y".into();
    app.cursor_pos = 5;
    app.cursor_left();
    assert_eq!(app.cursor_pos, 1);
    app.cursor_right();
    assert_eq!(app.cursor_pos, 5);
    app.delete_forward();
    assert_eq!(app.commit_message, "x😀");
    app.cursor_left();
    app.delete_forward();
    assert_eq!(app.commit_message, "x");
    assert_eq!(app.cursor_pos, 1);
}

#[test]
fn start_generating_and_committing() {
    let mut app = make_app();
    app.start_generating();
    assert_eq!(app.state, AppState::Loading);
    assert_eq!(app.status_line, "Generating commit message...");
    app.start_committing();
    assert_eq!(app.state, AppState::Committing);
    assert_eq!(app.status_line, "Creating commit...");
}
