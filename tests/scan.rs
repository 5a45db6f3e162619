use locksearch::entry::{ProgramEntry, ProgramSource};
use locksearch::scan::{
    get_display_name_and_target, icon_file_name, is_maintenance_name, max_depth, placeholder_letter, FoundFile,
    Scanner, ShortcutInfo,
};

fn file(path: &str, stem: &str, ext: &str) -> FoundFile {
    FoundFile {
        path: path.to_string(),
        stem: Some(stem.to_string()),
        extension: Some(ext.to_string()),
        shortcut: None,
    }
}

fn add_all(scanner: &mut Scanner, files: Vec<(FoundFile, ProgramSource)>) {
    for (f, source) in files {
        if let Some(a) = scanner.consider(&f, source) {
            scanner.add(a, None);
        }
    }
}

fn names(entries: &[ProgramEntry]) -> Vec<String> {
    entries.iter().map(|e| e.display_name.clone()).collect()
}

#[test]
fn published_order_is_source_then_name() {
    let mut scanner = Scanner::new();
    add_all(
        &mut scanner,
        vec![
            (file("C:\\pf\\Zeta.exe", "Zeta", "exe"), ProgramSource::ProgramFiles),
            (file("C:\\sm\\Alpha.lnk", "Alpha", "lnk"), ProgramSource::StartMenu),
            (file("C:\\sm\\Beta.lnk", "Beta", "lnk"), ProgramSource::StartMenu),
        ],
    );
    let entries = scanner.finish();
    assert_eq!(names(&entries), vec!["Alpha", "Beta", "Zeta"]);
    assert_eq!(entries[0].source, ProgramSource::StartMenu);
    assert_eq!(entries[2].source, ProgramSource::ProgramFiles);
}

#[test]
fn name_order_is_case_sensitive() {
    let mut scanner = Scanner::new();
    add_all(
        &mut scanner,
        vec![
            (file("a", "apple", "exe"), ProgramSource::ProgramFiles),
            (file("b", "Banana", "exe"), ProgramSource::ProgramFiles),
            (file("c", "Cherry", "exe"), ProgramSource::ProgramFiles),
        ],
    );
    assert_eq!(names(&scanner.finish()), vec!["Banana", "Cherry", "apple"]);
}

#[test]
fn names_differing_only_by_case_keep_the_first() {
    let mut scanner = Scanner::new();
    add_all(
        &mut scanner,
        vec![
            (file("C:\\sm\\Chrome.lnk", "Chrome", "lnk"), ProgramSource::StartMenu),
            (file("C:\\pf\\CHROME.exe", "CHROME", "exe"), ProgramSource::ProgramFiles),
        ],
    );
    assert_eq!(scanner.len(), 1);
    let entries = scanner.finish();
    assert_eq!(entries.len(), 1);
    assert_eq!(entries[0].path, "C:\\sm\\Chrome.lnk");
    assert_eq!(entries[0].source, ProgramSource::StartMenu);
}

#[test]
fn add_refuses_a_key_added_meanwhile() {
    let mut scanner = Scanner::new();
    let a = scanner.consider(&file("x", "Tool", "exe"), ProgramSource::ProgramFiles).unwrap();
    let b = scanner.consider(&file("y", "TOOL", "exe"), ProgramSource::ProgramFiles).unwrap();
    assert!(scanner.add(a, Some("icons/Tool.png".to_string())));
    assert!(!scanner.add(b, None));
    let entries = scanner.finish();
    assert_eq!(entries.len(), 1);
    assert_eq!(entries[0].icon_path.as_deref(), Some("icons/Tool.png"));
}

#[test]
fn malformed_shortcut_falls_back_to_stem_and_own_path() {
    let mut scanner = Scanner::new();
    let f = file("C:\\sm\\Broken App.lnk", "Broken App", "lnk");
    let a = scanner.consider(&f, ProgramSource::StartMenu).unwrap();
    assert_eq!(a.display_name, "Broken App");
    assert_eq!(a.target, "C:\\sm\\Broken App.lnk");
    scanner.add(a, None);
    let entries = scanner.finish();
    assert_eq!(entries.len(), 1);
    assert_eq!(entries[0].display_name, "Broken App");
    assert_eq!(entries[0].path, "C:\\sm\\Broken App.lnk");
    assert_eq!(entries[0].name, "broken app");
}

#[test]
fn shortcut_name_and_target_are_used() {
    let mut f = file("C:\\sm\\code.LNK", "code", "LNK");
    f.shortcut = Some(ShortcutInfo {
        name: Some("Visual Studio Code".to_string()),
        local_base_path: Some("C:\\vs\\Code.exe".to_string()),
    });
    let (display, target) = get_display_name_and_target(&f);
    assert_eq!(display, "Visual Studio Code");
    assert_eq!(target, "C:\\vs\\Code.exe");
    let a = Scanner::new().consider(&f, ProgramSource::StartMenu).unwrap();
    assert_eq!(a.path, "C:\\sm\\code.LNK");
    assert_eq!(a.name, "code");
}

#[test]
fn empty_shortcut_name_falls_back_to_stem() {
    let mut f = file("C:\\sm\\tool.lnk", "tool", "lnk");
    f.shortcut = Some(ShortcutInfo { name: Some(String::new()), local_base_path: None });
    let (display, target) = get_display_name_and_target(&f);
    assert_eq!(display, "tool");
    assert_eq!(target, "C:\\sm\\tool.lnk");
}

#[test]
fn missing_stem_gives_placeholder_name() {
    let f = FoundFile { path: "C:\\odd".to_string(), stem: None, extension: Some("exe".to_string()), shortcut: None };
    let (display, _) = get_display_name_and_target(&f);
    assert_eq!(display, "Unknown");
}

#[test]
fn shortcut_of_an_executable_is_not_read() {
    let mut f = file("C:\\pf\\app.exe", "app", "exe");
    f.shortcut = Some(ShortcutInfo { name: Some("Other".to_string()), local_base_path: Some("x".to_string()) });
    let (display, target) = get_display_name_and_target(&f);
    assert_eq!(display, "app");
    assert_eq!(target, "C:\\pf\\app.exe");
}

#[test]
fn extension_must_match_the_source() {
    let scanner = Scanner::new();
    assert!(scanner.consider(&file("a", "App", "exe"), ProgramSource::StartMenu).is_none());
    assert!(scanner.consider(&file("a", "App", "lnk"), ProgramSource::ProgramFiles).is_none());
    assert!(scanner.consider(&file("a", "App", "txt"), ProgramSource::ProgramFiles).is_none());
    assert!(scanner.consider(&file("a", "App", "EXE"), ProgramSource::ProgramFiles).is_some());
    let no_ext = FoundFile { path: "a".to_string(), stem: Some("App".to_string()), extension: None, shortcut: None };
    assert!(scanner.consider(&no_ext, ProgramSource::ProgramFiles).is_none());
}

#[test]
fn maintenance_programs_are_skipped() {
    let scanner = Scanner::new();
    for stem in ["Uninstall Foo", "Uninst000", "FooUpdater", "update", "Setup", "GameSETUP"] {
        assert!(scanner.consider(&file("p", stem, "exe"), ProgramSource::ProgramFiles).is_none(), "{}", stem);
    }
    assert!(scanner.consider(&file("p", "Foo", "exe"), ProgramSource::ProgramFiles).is_some());
    assert!(is_maintenance_name("my uninstaller"));
    assert!(is_maintenance_name("uninst"));
    assert!(!is_maintenance_name("unin"));
    assert!(!is_maintenance_name(""));
    assert!(!is_maintenance_name("Setup"));
}

#[test]
fn maintenance_check_uses_the_file_stem_not_the_shortcut_name() {
    let mut f = file("p", "Tool", "lnk");
    f.shortcut = Some(ShortcutInfo { name: Some("Tool Setup".to_string()), local_base_path: None });
    let a = Scanner::new().consider(&f, ProgramSource::StartMenu).unwrap();
    assert_eq!(a.display_name, "Tool Setup");
}

#[test]
fn icon_file_name_keeps_safe_characters() {
    assert_eq!(icon_file_name("Visual Studio Code (x64)!"), "Visual_Studio_Code_x64.png");
    assert_eq!(icon_file_name("my-app_v2"), "my-app_v2.png");
    assert_eq!(icon_file_name("Élan 7"), "Élan_7.png");
    assert_eq!(icon_file_name("???"), ".png");
    let long = "a".repeat(60);
    assert_eq!(icon_file_name(&long), format!("{}.png", "a".repeat(50)));
    let spaced = format!("{} b", "a".repeat(49));
    assert_eq!(icon_file_name(&spaced), format!("{}_.png", "a".repeat(49)));
}

#[test]
fn icon_file_name_reaches_the_admission() {
    let a = Scanner::new().consider(&file("p", "Paint 3D", "exe"), ProgramSource::ProgramFiles).unwrap();
    assert_eq!(a.icon_file, "Paint_3D.png");
}

#[test]
fn placeholder_is_first_alphanumeric_uppercased() {
    assert_eq!(placeholder_letter("chrome"), "C");
    assert_eq!(placeholder_letter("  7zip"), "7");
    assert_eq!(placeholder_letter("(ärger)"), "Ä");
    assert_eq!(placeholder_letter("!!!"), "?");
    assert_eq!(placeholder_letter(""), "?");
    assert_eq!(placeholder_letter("ß"), "SS");
}

#[test]
fn depth_limits_per_source() {
    assert_eq!(max_depth(ProgramSource::StartMenu), 5);
    assert_eq!(max_depth(ProgramSource::ProgramFiles), 2);
}

#[test]
fn scanner_starts_empty() {
    let scanner = Scanner::new();
    assert_eq!(scanner.len(), 0);
    assert!(scanner.finish().is_empty());
}
