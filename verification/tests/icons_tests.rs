use archvnde::desktop::DesktopApp;
use archvnde::icons::{clean_icon_name, default_icon_color, icon_source, is_bundled_icon, recolor_svg, IconSource};

fn app(name: &str, icon: Option<&str>) -> DesktopApp {
    DesktopApp {
        name: name.to_string(),
        exec_cmd: String::new(),
        icon: icon.map(|s| s.to_string()),
        app_id: None,
        window_title: None,
    }
}

#[test]
fn bundled_icons_and_colour() {
    assert!(is_bundled_icon("bell-off"));
    assert!(is_bundled_icon("wifi"));
    assert!(!is_bundled_icon("firefox"));
    assert_eq!(
        recolor_svg("<path stroke=\"currentColor\" fill=\"currentColor\"/>", "#3b82f6"),
        "<path stroke=\"#3b82f6\" fill=\"#3b82f6\"/>"
    );
    assert_eq!(default_icon_color(true), "#ffffff");
    assert_eq!(default_icon_color(false), "#1c1c1e");
}

#[test]
fn icon_names_without_extension() {
    assert_eq!(clean_icon_name("firefox.PNG"), Some("firefox".to_string()));
    assert_eq!(clean_icon_name("photo.jpeg"), Some("photo".to_string()));
    assert_eq!(clean_icon_name("app.svg"), Some("app".to_string()));
    assert_eq!(clean_icon_name("terminal"), Some("terminal".to_string()));
}

fn themed(s: Option<IconSource>) -> String {
    match s {
        Some(IconSource::Themed(n)) => n,
        Some(IconSource::File(p)) => format!("file:{}", p),
        None => "none".to_string(),
    }
}

#[test]
fn where_icons_come_from() {
    let apps = vec![app("Firefox", Some("firefox.png")), app("Files", None)];
    assert_eq!(themed(icon_source("", "fb", "", false, &apps, true)), "fb");
    assert_eq!(themed(icon_source("/usr/share/x.png", "fb", "/usr/share/x", false, &apps, true)), "file:/usr/share/x.png");
    assert_eq!(themed(icon_source("term.svg", "fb", "term", true, &apps, true)), "term");
    assert_eq!(themed(icon_source("FIREFOX", "fb", "FIREFOX", false, &apps, true)), "firefox");
    assert_eq!(themed(icon_source("files", "fb", "files", false, &apps, true)), "fb");
    assert_eq!(themed(icon_source("unknown", "fb", "unknown", false, &apps, false)), "image-missing");
}
