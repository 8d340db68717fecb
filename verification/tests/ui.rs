use summa::storage::StoredSummary;
use summa::summary::Summary;
use summa::ui::{to_decimal, truncate_string, App, AppState, FailedStep, FocusedPane, Key, STATUS_HINT};

fn stored(url: &str, title: &str) -> StoredSummary {
    StoredSummary::at(
        url.to_string(),
        0,
        Summary::new(title.to_string(), "c".to_string(), vec![], vec![], vec![]),
    )
}

fn app_with(n: usize) -> App {
    let mut app = App::new();
    app.set_summaries((0..n).map(|i| stored(&format!("https://{i}"), &format!("t{i}"))).collect());
    app
}

fn type_text(app: &mut App, text: &str) {
    for c in text.chars() {
        app.handle_key(Key::Char(c));
    }
}

#[test]
fn new_app_shows_the_main_view() {
    let app = App::new();
    assert_eq!(app.state, AppState::Main);
    assert!(app.url_input.is_empty());
    assert_eq!(app.summary, None);
    assert_eq!(app.source_url, None);
    assert!(!app.should_quit);
    assert_eq!(app.status, STATUS_HINT);
    assert!(app.stored_summaries.is_empty());
    assert_eq!(app.selected, None);
    assert_eq!(app.focused_pane, FocusedPane::List);
    assert_eq!(app.detail_scroll, 0);
}

#[test]
fn loaded_summaries_select_the_first() {
    let app = app_with(3);
    assert_eq!(app.selected, Some(0));
    assert_eq!(app.summary.as_ref().unwrap().title, "t0");
    assert_eq!(app.source_url.as_deref(), Some("https://0"));
    let empty = app_with(0);
    assert_eq!(empty.selected, None);
    assert_eq!(empty.summary, None);
}

#[test]
fn selection_wraps_around() {
    let mut app = app_with(3);
    app.handle_key(Key::Up);
    assert_eq!(app.selected, Some(2));
    assert_eq!(app.source_url.as_deref(), Some("https://2"));
    app.handle_key(Key::Down);
    assert_eq!(app.selected, Some(0));
    app.handle_key(Key::Char('j'));
    assert_eq!(app.selected, Some(1));
    assert_eq!(app.summary.as_ref().unwrap().title, "t1");
    app.handle_key(Key::Char('k'));
    assert_eq!(app.selected, Some(0));
}

#[test]
fn selection_in_an_empty_list_does_nothing() {
    let mut app = App::new();
    app.handle_key(Key::Down);
    app.handle_key(Key::Up);
    assert_eq!(app.selected, None);
    assert_eq!(app.summary, None);
}

#[test]
fn selecting_resets_the_scroll() {
    let mut app = app_with(2);
    app.handle_key(Key::Tab);
    app.handle_key(Key::PageDown);
    assert_eq!(app.detail_scroll, 10);
    app.handle_key(Key::Tab);
    app.handle_key(Key::Down);
    assert_eq!(app.detail_scroll, 0);
}

#[test]
fn detail_pane_scrolls_and_saturates() {
    let mut app = app_with(1);
    app.handle_key(Key::PageDown);
    assert_eq!(app.detail_scroll, 0);
    app.handle_key(Key::Tab);
    assert_eq!(app.focused_pane, FocusedPane::Detail);
    app.handle_key(Key::Up);
    assert_eq!(app.detail_scroll, 0);
    app.handle_key(Key::Down);
    app.handle_key(Key::Char('j'));
    assert_eq!(app.detail_scroll, 2);
    app.handle_key(Key::PageDown);
    assert_eq!(app.detail_scroll, 12);
    app.handle_key(Key::PageUp);
    assert_eq!(app.detail_scroll, 2);
    app.handle_key(Key::PageUp);
    assert_eq!(app.detail_scroll, 0);
    app.detail_scroll = u16::MAX - 3;
    app.handle_key(Key::PageDown);
    assert_eq!(app.detail_scroll, u16::MAX);
    app.handle_key(Key::Home);
    assert_eq!(app.detail_scroll, 0);
    assert_eq!(app.selected, Some(0));
}

#[test]
fn url_dialogue_collects_a_url() {
    let mut app = App::new();
    app.handle_key(Key::Char('o'));
    assert_eq!(app.state, AppState::UrlInput);
    app.handle_key(Key::Enter);
    assert_eq!(app.state, AppState::UrlInput);
    type_text(&mut app, "https://q.example");
    assert!(!app.should_quit);
    app.handle_key(Key::Backspace);
    app.handle_key(Key::Tab);
    assert_eq!(app.typed_url(), "https://q.exampl");
    app.handle_key(Key::Enter);
    assert_eq!(app.state, AppState::Loading);
    app.handle_key(Key::Esc);
    app.handle_key(Key::Char('q'));
    assert_eq!(app.state, AppState::Loading);
    assert!(!app.should_quit);
}

#[test]
fn escape_leaves_the_dialogue_and_clears_it() {
    let mut app = App::new();
    app.handle_key(Key::Char('o'));
    app.handle_key(Key::Backspace);
    type_text(&mut app, "abc");
    app.handle_key(Key::Esc);
    assert_eq!(app.state, AppState::Main);
    assert!(app.url_input.is_empty());
    type_text(&mut app, "xyz");
    assert!(app.url_input.is_empty());
    app.handle_key(Key::Char('o'));
    assert!(app.url_input.is_empty());
}

#[test]
fn quit_key_quits_from_main_and_error() {
    let mut app = App::new();
    app.handle_key(Key::Other);
    assert!(!app.should_quit);
    app.handle_key(Key::Char('q'));
    assert!(app.should_quit);
    let mut app = App::new();
    app.failed(FailedStep::Fetch, "timeout");
    assert_eq!(app.state, AppState::Error("Failed to fetch URL: timeout".to_string()));
    app.handle_key(Key::Down);
    assert!(matches!(app.state, AppState::Error(_)));
    app.handle_key(Key::Char('q'));
    assert!(app.should_quit);
    app.handle_key(Key::Enter);
    assert_eq!(app.state, AppState::Main);
    app.failed(FailedStep::Config, "no file");
    assert_eq!(app.state, AppState::Error("Config error: no file".to_string()));
    app.handle_key(Key::Esc);
    assert_eq!(app.state, AppState::Main);
    app.failed(FailedStep::Summary, "x");
    assert_eq!(app.state, AppState::Error("Summarisation failed: x".to_string()));
}

#[test]
fn status_follows_the_fetch() {
    let mut app = App::new();
    app.handle_key(Key::Char('o'));
    type_text(&mut app, "https://a");
    app.fetch_started();
    assert_eq!(app.status, "Fetching: https://a");
    app.summarising(12345);
    assert_eq!(app.status, "Summarising 12345 characters...");
    app.summarising(0);
    assert_eq!(app.status, "Summarising 0 characters...");
    let s = Summary::new("T".to_string(), "C".to_string(), vec![], vec![], vec![]);
    app.state = AppState::Loading;
    app.summarised(s.clone(), "https://a".to_string());
    assert_eq!(app.state, AppState::Main);
    assert_eq!(app.summary, Some(s));
    assert_eq!(app.source_url.as_deref(), Some("https://a"));
    assert_eq!(app.status, STATUS_HINT);
}

#[test]
fn decimal_digits_are_written() {
    for n in [0usize, 7, 10, 99, 100, 1234567890, usize::MAX] {
        let digits: String = to_decimal(n).into_iter().collect();
        assert_eq!(digits, n.to_string());
    }
}

#[test]
fn long_titles_are_cut_with_an_ellipsis() {
    assert_eq!(truncate_string("short", 20), "short");
    assert_eq!(truncate_string("exactly twenty chars", 20), "exactly twenty chars");
    assert_eq!(truncate_string("this title is far too long", 20), "this title is far t…");
    assert_eq!(truncate_string("äöüäöü", 4), "äöü…");
    assert_eq!(truncate_string("ab", 1), "…");
    assert_eq!(truncate_string("", 0), "");
}

#[test]
fn clones_are_equal() {
    let record = stored("https://a", "t");
    assert_eq!(record.clone(), record);
    let s = Summary::new("a".into(), "b".into(), vec!["c".into()], vec!["d".into(), "e".into()], vec![]);
    assert_eq!(s.clone(), s);
}
