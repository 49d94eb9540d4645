use commiter::app::{App, AppState};
use commiter::display::{spinner_chars, status_color, status_icon, UiColor, VersionView};
use commiter::git::RepoInfo;

fn app_with(state: AppState, message: &str) -> App {
    let mut app = App::new(
        Ok(RepoInfo {
            repo_path: "/p".into(),
            branch: "dev".into(),
            staged_count: 0,
            unstaged_count: 2,
            changed_files: vec!["a".into(), "b".into(), "c".into()],
            changed_statuses: vec!["A".into(), "X".into()],
            combined_diff: "d".into(),
            truncated: false,
            has_changes: true,
        }),
        None,
    );
    app.state = state;
    app.commit_message = message.into();
    app
}

fn labels(app: &App) -> Vec<(String, bool)> {
    app.action_buttons().into_iter().map(|b| (b.label, b.active)).collect()
}

fn hints(app: &App) -> Vec<String> {
    app.action_hints().into_iter().map(|h| format!("{}{}", h.key, h.text)).collect()
}

#[test]
fn status_colors() {
    assert_eq!(status_color(""), None);
    assert_eq!(status_color("✓ done"), Some(UiColor::Green));
    assert_eq!(status_color("✗ failed"), Some(UiColor::Red));
    assert_eq!(status_color("Commit ERROR here"), Some(UiColor::Red));
    assert_eq!(status_color("diff truncated"), Some(UiColor::Yellow));
    assert_eq!(status_color("hello"), Some(UiColor::White));
}

#[test]
fn file_status_icons() {
    assert_eq!(status_icon("A"), ("+".to_string(), UiColor::Green));
    assert_eq!(status_icon("M"), ("~".to_string(), UiColor::Yellow));
    assert_eq!(status_icon("D"), ("-".to_string(), UiColor::Red));
    assert_eq!(status_icon("R"), (">".to_string(), UiColor::Cyan));
    assert_eq!(status_icon("?"), (" ".to_string(), UiColor::White));
}

#[test]
fn file_rows_pair_files_with_statuses() {
    let mut app = app_with(AppState::Idle, "");
    let rows = app.file_rows();
    assert_eq!(rows.len(), 2);
    assert_eq!((rows[0].icon.as_str(), rows[0].color, rows[0].path.as_str()), ("+", UiColor::Green, "a"));
    assert_eq!((rows[1].icon.as_str(), rows[1].color, rows[1].path.as_str()), (" ", UiColor::White, "b"));
    app.show_file_list = false;
    assert!(app.file_rows().is_empty());
}

#[test]
fn buttons_and_hints() {
    let app = app_with(AppState::Idle, "");
    assert_eq!(labels(&app), vec![("  Create commit message  ".to_string(), true)]);
    assert_eq!(hints(&app), vec!["Enter generate  ", "F1 files  ", "q quit"]);
    let app = app_with(AppState::Ready, "m");
    assert_eq!(
        labels(&app),
        vec![("  Regenerate  ".to_string(), true), ("  Commit changes  ".to_string(), true)]
    );
    assert_eq!(hints(&app), vec!["Enter commit  ", "e edit  ", "r regen  ", "F1 files  ", "q quit"]);
    let app = app_with(AppState::Loading, "");
    assert_eq!(labels(&app), vec![("  Generating…  ".to_string(), false)]);
    assert_eq!(hints(&app), vec!["F1 files  ", "q quit"]);
    let app = app_with(AppState::PreGenerated, "");
    assert_eq!(labels(&app), vec![("  Use message ✓  ".to_string(), true)]);
    let mut app = app_with(AppState::Ready, "m");
    app.editing = true;
    assert_eq!(labels(&app), vec![("  Finish editing [Esc]  ".to_string(), true)]);
    assert_eq!(hints(&app), vec!["Esc finish  ", "F1 files  ", "q quit"]);
}

#[test]
fn message_panel() {
    let mut app = app_with(AppState::PreGenerated, "commit");
    app.pregen_message = Some("pre".into());
    let v = app.message_view();
    assert_eq!(v.text, "pre");
    assert_eq!(v.border, UiColor::Green);
    assert_eq!(v.title, " Commit Message ");
    assert!(v.visible);
    let mut app = app_with(AppState::Ready, "");
    app.editing = true;
    let v = app.message_view();
    assert_eq!(v.border, UiColor::Yellow);
    assert_eq!(v.title, " Commit Message [EDITING] ");
    assert!(v.visible);
    let app = app_with(AppState::Idle, "");
    assert_eq!(app.message_view().border, UiColor::DarkGray);
    assert!(!app.message_view().visible);
}

#[test]
fn version_area() {
    let app = app_with(AppState::Loading, "");
    match app.version_view(1234) {
        VersionView::Spinner { frame, label } => {
            assert_eq!(frame, spinner_chars()[2]);
            assert_eq!(label, " Generating commit message... ");
        }
        _ => panic!(),
    }
    let mut app = app_with(AppState::Ready, "");
    app.suggested_version = Some("v3.0.0".into());
    assert!(matches!(app.version_view(0), VersionView::Suggested(v) if v == "v3.0.0"));
    app.suggested_version = None;
    assert!(matches!(app.version_view(0), VersionView::Current));
    app.repo_info = None;
    assert!(matches!(app.version_view(0), VersionView::Blank));
    assert_eq!(spinner_chars().len(), 10);
}

#[test]
fn cursor_cell_positions() {
    let mut app = app_with(AppState::Ready, "hello\n\nworld wide");
    assert_eq!(app.cursor_cell(4, 10), None);
    app.editing = true;
    app.cursor_pos = 18;
    // lines: "hello"(2 rows at width 4), ""(1), "world wide"(3): 6 rows, last line 10 bytes
    assert_eq!(app.cursor_cell(4, 10), Some((2, 5)));
    assert_eq!(app.cursor_cell(4, 3), Some((2, 2)));
    app.cursor_pos = 0;
    assert_eq!(app.cursor_cell(4, 10), Some((0, 0)));
    assert_eq!(app.cursor_cell(0, 10), None);
    app.cursor_pos = 100;
    assert_eq!(app.cursor_cell(4, 10), Some((2, 5)));
}

#[test]
fn title_labels() {
    let app = app_with(AppState::Idle, "");
    assert_eq!(app.title_labels(), ("dev".to_string(), "/p".to_string()));
    let app = App::new(Err("e".into()), None);
    assert_eq!(app.title_labels(), ("?".to_string(), String::new()));
}
