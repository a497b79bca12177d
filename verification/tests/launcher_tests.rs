use archvnde::desktop::DesktopApp;
use archvnde::i18n::LocaleState;
use archvnde::launcher::{
    file_icon_name, filter_apps, launcher_key, search_panel, DirEntryInfo, FileSearch,
    LauncherAction, LauncherKey, SearchPanel, FILE_RESULT_LIMIT,
};

fn app(name: &str) -> DesktopApp {
    DesktopApp {
        name: name.to_string(),
        exec_cmd: String::new(),
        icon: None,
        app_id: None,
        window_title: None,
    }
}

#[test]
fn apps_filtered_by_query() {
    let apps = vec![app("Firefox"), app("Files"), app("Terminal")];
    assert_eq!(filter_apps(&apps, ""), vec![0, 1, 2]);
    assert_eq!(filter_apps(&apps, "  FI "), vec![0, 1]);
    assert_eq!(filter_apps(&apps, "term"), vec![2]);
    assert!(filter_apps(&apps, "zzz").is_empty());
}

#[test]
fn web_search_offer() {
    let st = LocaleState::new(None);
    match search_panel(&st, "   ") {
        SearchPanel::Welcome { text } => assert_eq!(text, "Type keywords to search apps and files..."),
        _ => panic!("expected the welcome text"),
    }
    match search_panel(&st, "  rust verus ") {
        SearchPanel::Results { query, label, url } => {
            assert_eq!(query, "rust verus");
            assert_eq!(label, "Search Google for \"rust verus\"");
            assert_eq!(url, "https://www.google.com/search?q=rust+verus");
        }
        _ => panic!("expected results"),
    }
}

fn entry(name: &str, dir: bool) -> DirEntryInfo {
    DirEntryInfo { name: name.to_string(), path: format!("/home/u/{}", name), is_dir: dir }
}

#[test]
fn file_search_walks_one_level() {
    assert!(FileSearch::new(" a ", vec!["/home/u/Desktop".to_string()]).is_none());
    assert!(FileSearch::new("é", vec![]).is_some());
    let mut fs = FileSearch::new("Rep", vec!["/home/u/Desktop".to_string(), "/home/u/Documents".to_string()]).unwrap();
    assert_eq!(fs.next_dir(), Some(("/home/u/Desktop".to_string(), 0)));
    fs.add_entries(0, &vec![
        entry("report.pdf", false),
        entry(".report", false),
        entry("node_modules", true),
        entry("Reports", true),
        entry("other", true),
    ]);
    assert_eq!(fs.results(), vec!["/home/u/report.pdf", "/home/u/Reports"]);
    assert_eq!(fs.next_dir(), Some(("/home/u/other".to_string(), 1)));
    fs.add_entries(1, &vec![entry("deep", true), entry("REPO.txt", false)]);
    assert_eq!(fs.next_dir(), Some(("/home/u/Reports".to_string(), 1)));
    fs.add_entries(1, &vec![]);
    assert_eq!(fs.next_dir(), Some(("/home/u/Documents".to_string(), 0)));
    fs.add_entries(0, &vec![]);
    assert_eq!(fs.next_dir(), None);
    assert_eq!(
        fs.results(),
        vec!["/home/u/report.pdf", "/home/u/Reports", "/home/u/REPO.txt"]
    );
}

#[test]
fn file_search_stops_at_limit() {
    assert!(FileSearch::new("x", vec![]).is_none());
    let mut fs = FileSearch::new("xx", vec!["/a".to_string(), "/b".to_string()]).unwrap();
    assert_eq!(fs.next_dir(), Some(("/a".to_string(), 0)));
    let many: Vec<DirEntryInfo> = (0..9).map(|i| entry(&format!("xx{}", i), i == 0)).collect();
    fs.add_entries(0, &many);
    assert_eq!(fs.results().len(), 9);
    assert!(fs.results().len() >= FILE_RESULT_LIMIT);
    assert_eq!(fs.next_dir(), None);
}

#[test]
fn found_file_icons() {
    assert_eq!(file_icon_name(true, Some("photos.png")), "folder");
    assert_eq!(file_icon_name(false, Some("Photo.JPG")), "image-x-generic");
    assert_eq!(file_icon_name(false, Some("a.tar.gz")), "package-x-generic");
    assert_eq!(file_icon_name(false, Some("doc.pdf")), "document-pdf");
    assert_eq!(file_icon_name(false, Some("song.flac")), "audio-x-generic");
    assert_eq!(file_icon_name(false, Some("clip.mkv")), "video-x-generic");
    assert_eq!(file_icon_name(false, Some("index.html")), "text-html");
    assert_eq!(file_icon_name(false, Some(".png")), "text-x-generic");
    assert_eq!(file_icon_name(false, Some("README")), "text-x-generic");
    assert_eq!(file_icon_name(false, None), "text-x-generic");
}

#[test]
fn keyboard_navigation() {
    assert_eq!(launcher_key(LauncherKey::Escape, 3, None, false), (LauncherAction::Close, false));
    assert_eq!(launcher_key(LauncherKey::Down, 3, None, false), (LauncherAction::FocusButton(0), true));
    assert_eq!(launcher_key(LauncherKey::Down, 3, Some(1), true), (LauncherAction::FocusButton(2), true));
    assert_eq!(launcher_key(LauncherKey::Down, 3, Some(2), true), (LauncherAction::FocusButton(0), true));
    assert_eq!(launcher_key(LauncherKey::Up, 3, Some(0), true), (LauncherAction::FocusSearch, true));
    assert_eq!(launcher_key(LauncherKey::Up, 3, Some(2), true), (LauncherAction::FocusButton(1), true));
    assert_eq!(launcher_key(LauncherKey::Up, 3, None, false), (LauncherAction::FocusButton(2), true));
    assert_eq!(launcher_key(LauncherKey::Down, 0, None, false), (LauncherAction::Nothing, true));
    assert_eq!(launcher_key(LauncherKey::Enter, 3, None, true), (LauncherAction::ActivateFocused, true));
    assert_eq!(launcher_key(LauncherKey::Enter, 3, None, false), (LauncherAction::ActivateButton(0), true));
    assert_eq!(launcher_key(LauncherKey::Enter, 0, None, false), (LauncherAction::Nothing, true));
    assert_eq!(launcher_key(LauncherKey::Other, 3, None, false), (LauncherAction::Nothing, false));
}

use archvnde::launcher::grid_cells;

#[test]
fn application_grid() {
    let apps: Vec<DesktopApp> = ["Alpha", "beta", "Gamma", "ALPINE", "Delta", "alps", "x"].iter().map(|n| app(n)).collect();
    let cells = grid_cells(&apps, "AL");
    assert_eq!(cells, vec![(0, 0, 0), (3, 1, 0), (5, 2, 0)]);
    let all = grid_cells(&apps, "");
    assert_eq!(all.len(), 7);
    assert_eq!(all[4], (4, 0, 1));
    assert_eq!(all[6], (6, 2, 1));
    assert!(grid_cells(&apps, " al").is_empty());
}
