use locksearch::entry::{ProgramEntry, ProgramSource};
use locksearch::store::ProgramIndex;

fn entry(display: &str) -> ProgramEntry {
    ProgramEntry {
        path: format!("{}.exe", display),
        name: display.to_lowercase(),
        display_name: display.to_string(),
        source: ProgramSource::ProgramFiles,
        icon_path: None,
    }
}

#[test]
fn new_index_is_empty_and_idle() {
    let s = ProgramIndex::new();
    assert!(!s.is_indexing());
    assert_eq!(s.indexed_count(), 0);
    assert!(s.get_entries().is_empty());
}

#[test]
fn second_scan_request_while_running_is_refused() {
    let mut s = ProgramIndex::new();
    assert!(s.start_indexing());
    assert!(s.is_indexing());
    assert!(!s.start_indexing());
    assert!(!s.start_indexing());
    assert!(s.is_indexing());
}

#[test]
fn publish_replaces_the_list_whole() {
    let mut s = ProgramIndex::new();
    s.publish(vec![entry("Old")]);
    assert!(s.start_indexing());
    // While the scan runs, the earlier list is still published.
    assert_eq!(s.get_entries().len(), 1);
    assert_eq!(s.get_entries()[0].display_name, "Old");
    s.publish(vec![entry("A"), entry("B")]);
    assert!(!s.is_indexing());
    assert_eq!(s.indexed_count(), 2);
    let names: Vec<String> = s.get_entries().into_iter().map(|e| e.display_name).collect();
    assert_eq!(names, vec!["A", "B"]);
    // A new scan may start once the last one has published.
    assert!(s.start_indexing());
}

#[test]
fn unreadable_snapshot_leaves_the_index_untouched() {
    let mut s = ProgramIndex::new();
    assert!(!s.load_cache(None));
    assert!(s.get_entries().is_empty());
    assert_eq!(s.indexed_count(), 0);
    assert!(!s.is_indexing());
}

#[test]
fn snapshot_is_published_with_its_count() {
    let mut s = ProgramIndex::new();
    assert!(s.load_cache(Some(vec![entry("Cached"), entry("Other")])));
    assert_eq!(s.indexed_count(), 2);
    assert_eq!(s.get_entries()[0].display_name, "Cached");
    assert!(!s.is_indexing());
}

#[test]
fn snapshot_loaded_during_a_scan_keeps_the_scan_running() {
    let mut s = ProgramIndex::new();
    assert!(s.start_indexing());
    assert!(s.load_cache(Some(vec![entry("Cached")])));
    assert!(s.is_indexing());
}
