use archvnde::models::{DockConfig, IslandState, NotificationMsg};

#[test]
fn default_dock() {
    let d = DockConfig::default();
    let names: Vec<&str> = d.pinned_apps.iter().map(|p| p.name.as_str()).collect();
    assert_eq!(names, vec!["Terminal", "Files", "Web Browser", "Music Player", "System Settings"]);
    assert_eq!(d.pinned_apps[0].command, "foot");
    assert_eq!(d.pinned_apps[4].command, "gnome-control-center");
    assert_eq!(d.pinned_apps[2].icon, "search");
    assert!(d.pinned_apps.iter().all(|p| p.args.is_empty()));
}

#[test]
fn default_island_state() {
    let s = IslandState::default();
    assert!(!s.active);
    assert!(s.title.is_empty() && s.subtitle.is_empty() && s.icon.is_empty());
}

#[test]
fn notification_msg_variants() {
    let m = NotificationMsg::New {
        summary: "s".into(),
        body: "b".into(),
        icon: "i".into(),
        app_name: "a".into(),
        timeout: -1,
    };
    assert!(matches!(m, NotificationMsg::New { timeout: -1, .. }));
    assert!(matches!(NotificationMsg::Close, NotificationMsg::Close));
}
