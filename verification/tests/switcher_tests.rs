use archvnde::desktop::DesktopApp;
use archvnde::switcher::{activation_plan, get_history, get_running_apps, history_file_text, save_history};

fn app(name: &str, exec: &str, icon: Option<&str>) -> DesktopApp {
    DesktopApp {
        name: name.to_string(),
        exec_cmd: exec.to_string(),
        icon: icon.map(|s| s.to_string()),
        app_id: None,
        window_title: None,
    }
}

#[test]
fn running_apps_matching_and_order() {
    let apps = vec![
        app("Firefox Web Browser", "/usr/lib/firefox/firefox %u", Some("firefox")),
        app("Foot", "foot", Some("foot")),
        app("Files", "pcmanfm %U", Some("folder")),
    ];
    let listing = "foot: ~/src\nNavigator: Mozilla Firefox\nfoot: ~/src\nweird-app: Hello\nnocolon\n: empty id\nPCManFM: /home\n";
    let history = vec!["Hello".to_string(), "~/src".to_string()];
    let r = get_running_apps(&apps, listing, &history);
    let titles: Vec<String> = r.iter().map(|a| a.window_title.clone().unwrap()).collect();
    assert_eq!(titles, vec!["Hello", "~/src", "Mozilla Firefox", "/home"]);
    assert_eq!(r[0].name, "Weird-app");
    assert_eq!(r[0].exec_cmd, "weird-app");
    assert_eq!(r[1].name, "Foot");
    assert_eq!(r[1].app_id.as_deref(), Some("foot"));
    assert_eq!(r[2].name, "Firefox Web Browser");
    assert_eq!(r[2].app_id.as_deref(), Some("Navigator"));
    assert_eq!(r[3].name, "Files");
}

#[test]
fn history_update() {
    let h = get_history("a\nb\r\nc\n");
    assert_eq!(h, vec!["a", "b", "c"]);
    assert_eq!(save_history(&h, "b"), vec!["b", "a", "c"]);
    assert_eq!(save_history(&h, "z"), vec!["z", "a", "b", "c"]);
    let long: Vec<String> = (0..25).map(|i| i.to_string()).collect();
    let s = save_history(&long, "x");
    assert_eq!(s.len(), 20);
    assert_eq!(s[0], "x");
    assert_eq!(s[19], "18");
}

#[test]
fn plan_of_focus_attempts() {
    let mut a = app("Firefox", "/usr/bin/firefox --new", Some("firefox"));
    a.app_id = Some("Navigator".into());
    a.window_title = Some("Docs — Mozilla Firefox".into());
    let p = activation_plan(&a);
    let t: Vec<(&str, bool)> = p.iter().map(|x| (x.target.as_str(), x.stop_on_success)).collect();
    assert_eq!(
        t,
        vec![
            ("title:Docs — Mozilla Firefox", true),
            ("title:Docs", true),
            ("Navigator", true),
            ("navigator", true),
            ("firefox", false),
            ("title:firefox", false),
            ("/usr/bin/firefox --new", false),
            ("Firefox", false),
            ("title:Firefox", false),
        ]
    );
    let b = app("X", "", None);
    let t2: Vec<String> = activation_plan(&b).into_iter().map(|x| x.target).collect();
    assert_eq!(t2, vec!["X", "title:X"]);
}

use archvnde::switcher::{card_icon, list_windows, preview_candidates};

#[test]
fn window_listing_and_cards() {
    assert_eq!(
        list_windows("foot: a\nno colon\n: x\nfirefox : b \n"),
        vec![("foot".to_string(), "a".to_string()), ("firefox".to_string(), "b".to_string())]
    );
    let mut a = app("Foot", "foot", None);
    a.app_id = Some("foot".to_string());
    assert_eq!(
        preview_candidates(&a),
        vec!["/tmp/archvnde-switcher-cache/foot.png", "/tmp/archvnde-switcher-cache/foot.png"]
    );
    assert_eq!(card_icon(&a), "application-x-executable");
    let b = app("X", "", Some("x-icon"));
    assert!(preview_candidates(&b).is_empty());
    assert_eq!(card_icon(&b), "x-icon");
}

#[test]
fn history_file_round_trip() {
    let h = vec!["Firefox".to_string(), "".to_string(), "kitty — ~/src".to_string()];
    let text = history_file_text(&h);
    assert_eq!(text, "Firefox\n\nkitty — ~/src\n");
    assert_eq!(get_history(&text), h);
    let after = save_history(&h, "kitty — ~/src");
    assert_eq!(get_history(&history_file_text(&after)), after);
    assert_eq!(history_file_text(&Vec::new()), "");
}

#[test]
fn saved_history_reads_back_with_active_first() {
    let prev = get_history("a\nb\r\r\nc\n");
    assert_eq!(prev, vec!["a".to_string(), "b\r".to_string(), "c".to_string()]);
    let after = save_history(&prev, "c");
    let back = get_history(&history_file_text(&after));
    assert_eq!(back, vec!["c".to_string(), "a".to_string(), "b".to_string()]);
    assert_eq!(back.iter().filter(|y| *y == "c").count(), 1);
    // An earlier entry that is the name followed by a carriage return reads back as the name.
    let odd = save_history(&vec!["x\r".to_string()], "x");
    assert_eq!(get_history(&history_file_text(&odd)), vec!["x".to_string(), "x".to_string()]);
}
