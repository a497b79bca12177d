use archvnde::desktop::DesktopApp;
use archvnde::taskbar::{
    get_active_app_id, get_taskbar_signature, launch_command, preview_menu, taskbar_click,
    taskbar_groups, TaskbarClick,
};

fn win(name: &str, app_id: Option<&str>, title: Option<&str>, icon: Option<&str>) -> DesktopApp {
    DesktopApp {
        name: name.to_string(),
        exec_cmd: format!("{} --new-window", name.to_lowercase()),
        icon: icon.map(|s| s.to_string()),
        app_id: app_id.map(|s| s.to_string()),
        window_title: title.map(|s| s.to_string()),
    }
}

#[test]
fn focused_app_id() {
    assert_eq!(get_active_app_id(Some("  firefox : Mozilla Firefox\nfoot: x\n")), Some("firefox".to_string()));
    assert_eq!(get_active_app_id(Some(": no id\n")), None);
    assert_eq!(get_active_app_id(Some("no colon\n")), None);
    assert_eq!(get_active_app_id(Some("")), None);
    assert_eq!(get_active_app_id(None), None);
}

#[test]
fn signature_counts_sorted_and_active() {
    let apps = vec![
        win("Foot", Some("foot"), Some("a"), None),
        win("Firefox", Some("firefox"), Some("b"), None),
        win("Foot", Some("foot"), Some("c"), None),
        win("Files", None, Some("d"), None),
    ];
    assert_eq!(
        get_taskbar_signature(&apps, Some("foot")),
        "Files:1||firefox:1||foot:2//active:foot"
    );
    assert_eq!(get_taskbar_signature(&apps, None), "Files:1||firefox:1||foot:2//active:");
    assert_eq!(get_taskbar_signature(&[], None), "//active:");
}

#[test]
fn signature_ignores_window_order() {
    let a = vec![win("A", Some("a"), None, None), win("B", Some("b"), None, None), win("A", Some("a"), None, None)];
    let b = vec![win("B", Some("b"), None, None), win("A", Some("a"), None, None), win("A", Some("a"), None, None)];
    assert_eq!(get_taskbar_signature(&a, Some("x")), get_taskbar_signature(&b, Some("x")));
    assert_ne!(get_taskbar_signature(&a, Some("x")), get_taskbar_signature(&a, Some("y")));
}

#[test]
fn groups_sorted_case_insensitively() {
    let apps = vec![
        win("Zed", Some("zed"), Some("1"), Some("zed-icon")),
        win("Alacritty", Some("Alacritty"), Some("2"), None),
        win("Zed", Some("zed"), Some("3"), Some("other")),
        win("beta", None, Some("4"), None),
    ];
    let g = taskbar_groups(&apps, Some("ZED"));
    let keys: Vec<&str> = g.iter().map(|x| x.key.as_str()).collect();
    assert_eq!(keys, vec!["Alacritty", "beta", "zed"]);
    assert_eq!(g[2].windows.len(), 2);
    assert_eq!(g[2].windows[1].window_title.as_deref(), Some("3"));
    assert!(g[2].active);
    assert!(!g[0].active);
    assert_eq!(g[2].icon_name, "zed-icon");
    assert_eq!(g[0].icon_name, "Alacritty");
    assert!(taskbar_groups(&[], None).is_empty());
    assert!(!taskbar_groups(&apps, None)[2].active);
}

#[test]
fn clicks_on_groups() {
    let apps = vec![
        win("Foot", Some("foot"), Some("a"), None),
        win("Foot", Some("foot"), Some("b"), None),
        win("Files", None, None, None),
    ];
    match taskbar_click(&apps, "foot") {
        TaskbarClick::ShowPreviews { windows } => assert_eq!(windows.len(), 2),
        _ => panic!("expected the window list"),
    }
    match taskbar_click(&apps, "Files") {
        TaskbarClick::Focus { app_id, title } => {
            assert_eq!(app_id, "Files");
            assert_eq!(title, "");
        }
        _ => panic!("expected a focus"),
    }
    assert!(matches!(taskbar_click(&apps, "none"), TaskbarClick::Nothing));
}

#[test]
fn window_menu() {
    let ws = vec![
        win("Foot", Some("foot"), Some("shell"), Some("utilities-terminal")),
        win("Foot", None, Some(""), None),
    ];
    let m = preview_menu(&ws, "foot");
    assert_eq!(m.items[0].label, "● shell");
    assert_eq!(m.items[0].app_id, "foot");
    assert_eq!(m.items[1].label, "● Foot");
    assert_eq!(m.items[1].app_id, "foot");
    assert_eq!(m.items[1].title, "");
    assert_eq!(m.app_name, "Foot");
    assert_eq!(m.exec_cmd, "foot --new-window");
    assert_eq!(m.icon_name, "utilities-terminal");
    let empty = preview_menu(&[], "foot");
    assert_eq!(empty.app_name, "foot");
    assert_eq!(empty.exec_cmd, "foot");
    assert_eq!(empty.icon_name, "foot");
}

#[test]
fn launch_commands() {
    assert_eq!(
        launch_command("  firefox  --new-window %u "),
        Some(("firefox".to_string(), vec!["--new-window".to_string(), "%u".to_string()]))
    );
    assert_eq!(launch_command("   "), None);
}

use archvnde::taskbar::TaskbarRefresh;

#[test]
fn rebuild_only_on_change() {
    let apps = vec![win("Foot", Some("foot"), None, None)];
    let mut r = TaskbarRefresh::new();
    assert!(r.needs_rebuild(&apps, None));
    assert!(!r.needs_rebuild(&apps, None));
    assert!(r.needs_rebuild(&apps, Some("foot")));
    assert!(r.needs_rebuild(&[], Some("foot")));
    assert!(!r.needs_rebuild(&[], Some("foot")));
}

#[test]
fn signature_changes_when_window_count_changes() {
    let two = vec![win("Foot", Some("foot"), None, None), win("Foot", Some("foot"), None, None)];
    let one = vec![win("Foot", Some("foot"), None, None)];
    let other = vec![win("Foot", Some("foot"), None, None), win("Kitty", Some("kitty"), None, None)];
    let a = get_taskbar_signature(&two, Some("foot"));
    let b = get_taskbar_signature(&one, Some("foot"));
    let c = get_taskbar_signature(&other, Some("foot"));
    assert_ne!(a, b);
    assert_ne!(a, c);
    assert_ne!(b, c);
}

#[test]
fn signature_changes_when_windows_and_focus_change_together() {
    let a = vec![win("Foot", Some("foot"), None, None), win("Kitty", Some("kitty"), None, None)];
    let b = vec![win("Foot", Some("foot"), None, None)];
    assert_ne!(get_taskbar_signature(&a, Some("foot")), get_taskbar_signature(&b, Some("kitty")));
    assert_ne!(get_taskbar_signature(&a, None), get_taskbar_signature(&b, Some("foot")));
    let a_rev = vec![win("Kitty", Some("kitty"), None, None), win("Foot", Some("foot"), None, None)];
    assert_eq!(get_taskbar_signature(&a, Some("kitty")), get_taskbar_signature(&a_rev, Some("kitty")));
}
