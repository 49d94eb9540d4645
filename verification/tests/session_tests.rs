use commiter::ai::GenerationResult;
use commiter::app::{App, AppEvent, AppState};
use commiter::cli::{parse_args, CliAction};
use commiter::clipboard::{copy_to_clipboard, ClipboardStep, ClipboardTool};
use commiter::git::RepoInfo;
use commiter::session::{commit_event, generation_event, Command, Key};

fn repo() -> RepoInfo {
    RepoInfo {
        repo_path: "/work".into(),
        branch: "main".into(),
        staged_count: 1,
        unstaged_count: 0,
        changed_files: vec!["a.rs".into()],
        changed_statuses: vec!["M".into()],
        combined_diff: "DIFF".into(),
        truncated: true,
        has_changes: true,
    }
}

#[test]
fn workflow_pregenerate_copy_commit() {
    let mut app = App::new(Ok(repo()), None);
    match app.start_pregen() {
        Some(Command::Generate { diff, truncated, copy_to_clipboard }) => {
            assert_eq!(diff, "DIFF");
            assert!(truncated);
            assert!(!copy_to_clipboard);
        }
        _ => panic!("expected a generation"),
    }
    assert_eq!(app.state, AppState::PreGenerating);
    assert_eq!(app.status_line, "Pre-generating commit message...");
    // Enter does nothing while busy
    assert!(matches!(app.handle_key(Key::Enter), Command::Nothing));
    let ev = generation_event(
        Ok(GenerationResult { message: "feat: x".into(), suggested_version: None }),
        false,
        Ok(()),
        false,
    );
    app.handle_event(ev);
    assert_eq!(app.state, AppState::PreGenerated);
    let (message, version) = match app.handle_key(Key::Enter) {
        Command::CopyPregenerated { message, suggested_version } => (message, suggested_version),
        _ => panic!("expected a copy"),
    };
    assert_eq!(message, "feat: x");
    assert!(app.pregen_message.is_none());
    assert!(app.finish_copy(message, version, Ok(())).is_none());
    assert_eq!(app.state, AppState::Ready);
    assert_eq!(app.commit_message, "feat: x");
    assert_eq!(app.status_line, "✓ Copied to clipboard");
    match app.handle_key(Key::Enter) {
        Command::Commit { repo_path, message } => {
            assert_eq!(repo_path, "/work");
            assert_eq!(message, "feat: x");
        }
        _ => panic!("expected a commit"),
    }
    assert_eq!(app.state, AppState::Committing);
    app.handle_event(commit_event(Ok("0123456789".into())));
    assert_eq!(app.status_line, "✓ Committed: 0123456");
    assert!(!app.can_commit());
    assert!(matches!(app.handle_key(Key::Enter), Command::Nothing));
}

#[test]
fn copy_failure_reports_error() {
    let mut app = App::new(Ok(repo()), None);
    app.handle_event(AppEvent::PreGenerated { message: "m".into(), suggested_version: None });
    let cmd = app.handle_key(Key::Enter);
    let (message, version) = match cmd {
        Command::CopyPregenerated { message, suggested_version } => (message, suggested_version),
        _ => panic!("expected a copy"),
    };
    match app.finish_copy(message, version, Err("no display".into())) {
        Some(AppEvent::Error(e)) => assert_eq!(e, "Clipboard error: no display"),
        _ => panic!("expected an error event"),
    }
    assert_eq!(app.state, AppState::PreGenerated);
}

#[test]
fn enter_generates_when_idle_with_changes() {
    let mut app = App::new(Ok(repo()), None);
    match app.handle_key(Key::Enter) {
        Command::Generate { diff, truncated, copy_to_clipboard } => {
            assert_eq!(diff, "DIFF");
            assert!(truncated);
            assert!(copy_to_clipboard);
        }
        _ => panic!("expected a generation"),
    }
    assert_eq!(app.state, AppState::Loading);
}

#[test]
fn regenerate_clears_previous_result() {
    let mut app = App::new(Ok(repo()), None);
    app.handle_event(AppEvent::GeneratedWithVersion { message: "old".into(), suggested_version: Some("v1.0.0".into()) });
    app.commit_hash = Some("abc".into());
    match app.handle_key(Key::Char('R')) {
        Command::Generate { copy_to_clipboard, .. } => assert!(copy_to_clipboard),
        _ => panic!("expected a generation"),
    }
    assert_eq!(app.commit_message, "");
    assert!(app.suggested_version.is_none());
    assert!(app.commit_hash.is_none());
    assert_eq!(app.state, AppState::Loading);
    // not allowed while loading
    assert!(matches!(app.handle_key(Key::Char('r')), Command::Nothing));
}

#[test]
fn editing_keys() {
    let mut app = App::new(Ok(repo()), None);
    app.handle_event(AppEvent::Generated("ab".into()));
    assert!(matches!(app.handle_key(Key::Char('e')), Command::Nothing));
    assert!(app.editing);
    assert_eq!(app.cursor_pos, 2);
    app.handle_key(Key::Left);
    app.handle_key(Key::Char('é'));
    assert_eq!(app.commit_message, "aéb");
    app.handle_key(Key::Enter);
    assert_eq!(app.commit_message, "aé\nb");
    app.handle_key(Key::Backspace);
    app.handle_key(Key::Home);
    app.handle_key(Key::Delete);
    assert_eq!(app.commit_message, "éb");
    app.handle_key(Key::End);
    assert_eq!(app.cursor_pos, 3);
    app.handle_key(Key::Right);
    assert_eq!(app.cursor_pos, 3);
    app.handle_key(Key::Esc);
    assert!(!app.editing);
    assert_eq!(app.status_line, "✓ Message set — Enter to commit");
}

#[test]
fn quit_and_file_list_in_any_mode() {
    let mut app = App::new(Ok(repo()), None);
    assert!(matches!(app.handle_key(Key::Char('q')), Command::Quit));
    app.handle_key(Key::F(1));
    assert!(!app.show_file_list);
    app.handle_event(AppEvent::Generated("m".into()));
    app.handle_key(Key::Char('E'));
    assert!(app.editing);
    app.handle_key(Key::F(1));
    assert!(app.show_file_list);
    assert!(matches!(app.handle_key(Key::Char('Q')), Command::Quit));
    assert_eq!(app.commit_message, "m");
}

#[test]
fn quit_while_editing_whatever_the_cursor() {
    let mut app = App::new(Ok(repo()), None);
    app.handle_event(AppEvent::Generated("é".into()));
    app.handle_key(Key::Char('e'));
    assert!(app.editing);
    app.cursor_pos = 1; // inside 'é'
    assert!(matches!(app.handle_key(Key::Char('q')), Command::Quit));
    assert!(matches!(app.handle_key(Key::Char('Q')), Command::Quit));
    assert_eq!(app.commit_message, "é");
    assert_eq!(app.cursor_pos, 1);
    assert!(app.editing);
}

#[test]
fn edit_needs_a_ready_message() {
    let mut app = App::new(Ok(repo()), None);
    app.handle_key(Key::Char('e'));
    assert!(!app.editing);
}

#[test]
fn generation_events() {
    let ok = || Ok(GenerationResult { message: "m".into(), suggested_version: Some("v2.0.0".into()) });
    match generation_event(ok(), true, Ok(()), true) {
        AppEvent::GeneratedWithVersion { message, suggested_version } => {
            assert_eq!(message, "m");
            assert_eq!(suggested_version, Some("v2.0.0".into()));
        }
        _ => panic!(),
    }
    assert!(matches!(generation_event(ok(), true, Ok(()), false), AppEvent::Generated(m) if m == "m"));
    assert!(matches!(generation_event(ok(), true, Err("x".into()), true), AppEvent::Error(e) if e == "Clipboard error: x"));
    assert!(matches!(generation_event(ok(), false, Err("x".into()), true), AppEvent::PreGenerated { .. }));
    assert!(matches!(generation_event(Err("boom".into()), true, Ok(()), true), AppEvent::Error(e) if e == "boom"));
    assert!(matches!(commit_event(Err("locked".into())), AppEvent::Error(e) if e == "Commit error: locked"));
}

#[test]
fn clipboard_tools_in_order() {
    assert!(matches!(copy_to_clipboard(&vec![]), ClipboardStep::Run(ClipboardTool::WlCopy)));
    assert!(matches!(copy_to_clipboard(&vec![false]), ClipboardStep::Run(ClipboardTool::Xclip)));
    assert!(matches!(copy_to_clipboard(&vec![false, false]), ClipboardStep::Run(ClipboardTool::Xsel)));
    assert!(matches!(copy_to_clipboard(&vec![false, true]), ClipboardStep::Done(Ok(()))));
    match copy_to_clipboard(&vec![false, false, false]) {
        ClipboardStep::Done(Err(e)) => {
            assert_eq!(e, "Clipboard tool not found. Install wl-copy (Wayland), xclip, or xsel (X11).")
        }
        _ => panic!(),
    }
    assert_eq!(ClipboardTool::Xclip.program(), "xclip");
    assert_eq!(ClipboardTool::Xclip.args(), vec!["-selection", "clipboard"]);
    assert_eq!(ClipboardTool::Xsel.args(), vec!["-b"]);
    assert!(ClipboardTool::WlCopy.args().is_empty());
}

fn args(v: &[&str]) -> Vec<String> {
    v.iter().map(|s| s.to_string()).collect()
}

#[test]
fn command_line() {
    match parse_args(&args(&["commiter", "--model", "m1", "--diff-cutoff", "100", "--model", "m2"])) {
        CliAction::Run { model, diff_cutoff } => {
            assert_eq!(model, Some("m2".into()));
            assert_eq!(diff_cutoff, Some("100".into()));
        }
        _ => panic!(),
    }
    assert!(matches!(parse_args(&args(&["c", "-V", "--help"])), CliAction::Version));
    assert!(matches!(parse_args(&args(&["c", "x", "-h"])), CliAction::Help));
    match parse_args(&args(&["c", "--model"])) {
        CliAction::Run { model, diff_cutoff } => {
            assert!(model.is_none());
            assert!(diff_cutoff.is_none());
        }
        _ => panic!(),
    }
    assert!(matches!(parse_args(&args(&["--help"])), CliAction::Run { .. }));
}
