use locksearch::entry::{ProgramEntry, ProgramSource};
use locksearch::snapshot::{from_record, from_records, to_record, to_records};

type Record = (String, String, String, String, Option<String>);

fn entry(display: &str, source: ProgramSource, icon: Option<&str>) -> ProgramEntry {
    ProgramEntry {
        path: format!("C:\\apps\\{}.lnk", display),
        name: display.to_lowercase(),
        display_name: display.to_string(),
        source,
        icon_path: icon.map(str::to_string),
    }
}

fn same(a: &ProgramEntry, b: &ProgramEntry) -> bool {
    a.path == b.path
        && a.name == b.name
        && a.display_name == b.display_name
        && a.source == b.source
        && a.icon_path == b.icon_path
}

#[test]
fn snapshot_round_trip_through_json() {
    let entries = vec![
        entry("Alpha", ProgramSource::StartMenu, Some("C:\\icons\\Alpha.png")),
        entry("Beta", ProgramSource::StartMenu, None),
        entry("Zeta", ProgramSource::ProgramFiles, Some("C:\\icons\\Zeta.png")),
        entry("Omega", ProgramSource::ProgramFiles, None),
    ];
    let json = serde_json::to_string(&to_records(&entries)).unwrap();
    let records: Vec<Record> = serde_json::from_str(&json).unwrap();
    let back = from_records(&records).unwrap();
    assert_eq!(back.len(), entries.len());
    for (a, b) in entries.iter().zip(back.iter()) {
        assert!(same(a, b));
    }
}

#[test]
fn record_layout() {
    let r = to_record(&entry("Alpha", ProgramSource::ProgramFiles, None));
    assert_eq!(r.0, "C:\\apps\\Alpha.lnk");
    assert_eq!(r.1, "alpha");
    assert_eq!(r.2, "Alpha");
    assert_eq!(r.3, "ProgramFiles");
    assert_eq!(r.4, None);
    assert_eq!(to_record(&entry("B", ProgramSource::StartMenu, None)).3, "StartMenu");
}

#[test]
fn unknown_source_rejects_the_snapshot() {
    let bad: Record = ("p".to_string(), "n".to_string(), "N".to_string(), "Desktop".to_string(), None);
    assert!(from_record(&bad).is_none());
    let good = to_record(&entry("A", ProgramSource::StartMenu, None));
    assert!(from_records(&vec![good.clone(), bad]).is_none());
    assert_eq!(from_records(&vec![good]).unwrap().len(), 1);
    assert!(from_records(&Vec::new()).unwrap().is_empty());
}

#[test]
fn truncated_snapshot_does_not_parse() {
    let entries = vec![entry("Alpha", ProgramSource::StartMenu, None)];
    let json = serde_json::to_string(&to_records(&entries)).unwrap();
    let cut = &json[..json.len() - 3];
    assert!(serde_json::from_str::<Vec<Record>>(cut).is_err());
    assert!(serde_json::from_str::<Vec<Record>>("not json").is_err());
}
