use locksearch::entry::{ProgramEntry, ProgramSource};
use locksearch::search::SearchResult;
use locksearch::session::{to_program_results, Action, Key, Message, ProgramResult, Session};

fn row(path: &str) -> ProgramResult {
    ProgramResult { path: path.to_string(), display_name: path.to_uppercase(), icon_path: None }
}

fn is_launch(a: &Action, path: &str) -> bool {
    matches!(a, Action::Launch(p) if p == path)
}

#[test]
fn start_loads_cache_or_requests_a_scan() {
    let (s, a) = Session::new(true);
    assert!(matches!(a, Action::LoadCache));
    assert!(s.search_query().is_empty());
    assert!(s.search_results().is_empty());
    let (_, a) = Session::new(false);
    assert!(matches!(a, Action::RequestIndexing));
}

#[test]
fn cache_hit_searches_and_rescans() {
    let (mut s, _) = Session::new(true);
    assert!(matches!(s.update(Message::CacheLoaded(true)), Action::SearchAndRequestIndexing));
    assert!(matches!(s.update(Message::CacheLoaded(false)), Action::RequestIndexing));
}

#[test]
fn start_indexing_only_once_until_progress_ends() {
    let (mut s, _) = Session::new(false);
    assert!(matches!(s.update(Message::StartIndexing), Action::StartScan));
    assert!(s.is_indexing());
    assert!(matches!(s.update(Message::StartIndexing), Action::Idle));
    assert!(matches!(s.update(Message::IndexingProgress(true, 0)), Action::PollAfterDelay));
    assert!(matches!(s.update(Message::IndexingProgress(true, 0)), Action::PollAfterDelay));
    assert!(matches!(s.update(Message::IndexingProgress(false, 42)), Action::Search));
    assert!(!s.is_indexing());
    assert_eq!(s.indexed_count(), 42);
    assert!(matches!(s.update(Message::StartIndexing), Action::StartScan));
}

#[test]
fn query_change_resets_selection_and_searches() {
    let (mut s, _) = Session::new(false);
    s.update(Message::SearchCompleted(vec![row("a"), row("b"), row("c")]));
    s.update(Message::KeyPressed(Key::ArrowDown));
    assert_eq!(s.selected_index(), 1);
    assert!(matches!(s.update(Message::SearchChanged("chr".to_string())), Action::Search));
    assert_eq!(s.search_query(), "chr");
    assert_eq!(s.selected_index(), 0);
}

#[test]
fn arrows_wrap_around() {
    let (mut s, _) = Session::new(false);
    s.update(Message::SearchCompleted(vec![row("a"), row("b"), row("c")]));
    s.update(Message::KeyPressed(Key::ArrowUp));
    assert_eq!(s.selected_index(), 2);
    s.update(Message::KeyPressed(Key::ArrowDown));
    assert_eq!(s.selected_index(), 0);
    s.update(Message::KeyPressed(Key::ArrowDown));
    s.update(Message::KeyPressed(Key::ArrowDown));
    assert_eq!(s.selected_index(), 2);
}

#[test]
fn arrows_do_nothing_without_results() {
    let (mut s, _) = Session::new(false);
    assert!(matches!(s.update(Message::KeyPressed(Key::ArrowDown)), Action::Idle));
    s.update(Message::KeyPressed(Key::ArrowUp));
    assert_eq!(s.selected_index(), 0);
}

#[test]
fn fewer_results_reset_an_out_of_range_selection() {
    let (mut s, _) = Session::new(false);
    s.update(Message::SearchCompleted(vec![row("a"), row("b"), row("c")]));
    s.update(Message::KeyPressed(Key::ArrowUp));
    assert_eq!(s.selected_index(), 2);
    s.update(Message::SearchCompleted(vec![row("x"), row("y"), row("z"), row("w")]));
    assert_eq!(s.selected_index(), 2);
    s.update(Message::SearchCompleted(vec![row("x")]));
    assert_eq!(s.selected_index(), 0);
}

#[test]
fn enter_and_launch_open_the_selected_path() {
    let (mut s, _) = Session::new(false);
    assert!(matches!(s.update(Message::LaunchSelected), Action::Idle));
    s.update(Message::SearchCompleted(vec![row("a"), row("b")]));
    s.update(Message::KeyPressed(Key::ArrowDown));
    assert!(is_launch(&s.update(Message::KeyPressed(Key::Enter)), "b"));
    assert!(is_launch(&s.update(Message::LaunchSelected), "b"));
}

#[test]
fn escape_clears_the_query() {
    let (mut s, _) = Session::new(false);
    s.update(Message::SearchChanged("abc".to_string()));
    assert!(matches!(s.update(Message::KeyPressed(Key::Escape)), Action::Search));
    assert!(s.search_query().is_empty());
    assert!(matches!(s.update(Message::KeyPressed(Key::Other)), Action::Idle));
}

#[test]
fn window_messages_map_to_window_actions() {
    let (mut s, _) = Session::new(false);
    assert!(matches!(s.update(Message::WindowMinimize), Action::Minimize));
    assert!(matches!(s.update(Message::WindowMaximize), Action::ToggleMaximize));
    assert!(matches!(s.update(Message::WindowClose), Action::Close));
    assert!(matches!(s.update(Message::WindowDrag), Action::Drag));
}

#[test]
fn rows_take_the_first_max_results() {
    let results: Vec<SearchResult> = (0..5)
        .map(|i| SearchResult {
            entry: ProgramEntry {
                path: format!("C:\\apps\\tool{}.exe", i),
                name: format!("n{}", i),
                display_name: format!("D{}", i),
                source: ProgramSource::StartMenu,
                icon_path: if i % 2 == 0 { Some(format!("i{}.png", i)) } else { None },
            },
            score: 10 - i,
        })
        .collect();
    let rows = to_program_results(&results, 3);
    assert_eq!(rows.len(), 3);
    assert_eq!(rows[1].path, "C:\\apps\\tool1.exe");
    assert_eq!(rows[1].display_name, "D1");
    assert_eq!(rows[0].icon_path.as_deref(), Some("i0.png"));
    assert_eq!(rows[1].icon_path, None);
    assert_eq!(to_program_results(&results, 10).len(), 5);
}
