use archvnde::tray::{
    get_tray_items, has_distinct_services, make_tray_item, StatusNotifierWatcher, TrayItem, TrayRegistry,
};

fn item(s: &str, i: &str, t: &str) -> TrayItem {
    TrayItem { service: s.to_string(), icon_name: i.to_string(), title: t.to_string() }
}

#[test]
fn registration_target() {
    let w = StatusNotifierWatcher;
    assert_eq!(w.register_status_notifier_item("org.kde.foo", ":1.5"), Some("org.kde.foo".to_string()));
    assert_eq!(w.register_status_notifier_item("/StatusNotifierItem", ":1.42"), Some(":1.42".to_string()));
    assert_eq!(w.register_status_notifier_item("/StatusNotifierItem", ""), None);
    assert_eq!(w.register_status_notifier_item("", ":1.2"), None);
    assert_eq!(w.register_status_notifier_item("not a bus name", ":1.2"), None);
}

#[test]
fn registry_replaces_same_service() {
    let w = StatusNotifierWatcher;
    let mut reg = TrayRegistry::new();
    w.finish_registration(&mut reg, ":1.1", Some("nm-applet".to_string()), Some("Network".to_string()));
    w.finish_registration(&mut reg, ":1.2", None, None);
    w.finish_registration(&mut reg, ":1.1", Some(String::new()), Some("Net".to_string()));
    let items = get_tray_items(&reg);
    assert_eq!(items.len(), 2);
    assert_eq!(items[0].service, ":1.2");
    assert_eq!(items[0].icon_name, "image-missing");
    assert_eq!(items[0].title, "");
    assert_eq!(items[1].service, ":1.1");
    assert_eq!(items[1].icon_name, "image-missing");
    assert_eq!(items[1].title, "Net");
    assert_eq!(w.registered_status_notifier_items(&reg), vec![":1.2".to_string(), ":1.1".to_string()]);
    assert!(w.is_status_notifier_host_registered());
    assert_eq!(w.protocol_version(), 0);
}

#[test]
fn make_item_defaults() {
    let it = make_tray_item("org.a.b", Some("icon".to_string()), None);
    assert_eq!(it.icon_name, "icon");
    assert_eq!(it.title, "");
}

fn services(reg: &TrayRegistry) -> Vec<String> {
    get_tray_items(reg).iter().map(|x| x.service.clone()).collect()
}

fn registry_of(names: &[&str]) -> TrayRegistry {
    let w = StatusNotifierWatcher;
    let mut reg = TrayRegistry::new();
    for n in names {
        assert!(w.finish_registration(&mut reg, n, Some("icon".to_string()), None));
    }
    reg
}

#[test]
fn prune_removes_only_reported_disconnected() {
    let mut reg = registry_of(&[":1.1", "org.x.y", ":1.9", ":1.4"]);
    let snap = get_tray_items(&reg);
    let owners = vec![Some(true), Some(false), None, Some(false)];
    // Registered while the check ran: kept.
    StatusNotifierWatcher.finish_registration(&mut reg, ":1.20", None, Some("New".to_string()));
    reg.prune(&snap, Some(&owners));
    assert_eq!(services(&reg), vec![":1.1".to_string(), ":1.9".to_string(), ":1.20".to_string()]);
    assert!(has_distinct_services(&get_tray_items(&reg)));
    assert!(!has_distinct_services(&vec![item("a.b", "", ""), item("a.b", "", "")]));
}

#[test]
fn prune_without_bus_keeps_everything() {
    let mut reg = registry_of(&[":1.1", "org.x.y"]);
    let snap = get_tray_items(&reg);
    reg.prune(&snap, None);
    assert_eq!(services(&reg), vec![":1.1".to_string(), "org.x.y".to_string()]);
}

#[test]
fn registration_refuses_invalid_names() {
    let w = StatusNotifierWatcher;
    let mut reg = TrayRegistry::new();
    assert!(!w.finish_registration(&mut reg, "/StatusNotifierItem", None, None));
    assert!(!w.finish_registration(&mut reg, "", None, None));
    assert!(!w.finish_registration(&mut reg, "1abc.def", None, None));
    assert!(!w.finish_registration(&mut reg, "a..b", None, None));
    assert!(w.finish_registration(&mut reg, "org.freedesktop.DBus", None, None));
    assert!(w.finish_registration(&mut reg, "a.b", None, None));
    assert!(w.finish_registration(&mut reg, ":1.5", None, None));
    assert_eq!(services(&reg).len(), 3);
}

use archvnde::tray::tray_needs_rebuild;

#[test]
fn tray_rebuilds_when_services_change() {
    let items = vec![
        TrayItem { service: ":1.5".to_string(), icon_name: "a".to_string(), title: String::new() },
        TrayItem { service: ":1.2".to_string(), icon_name: "b".to_string(), title: String::new() },
    ];
    assert!(!tray_needs_rebuild(&items, &vec![":1.2".to_string(), ":1.5".to_string()]));
    assert!(tray_needs_rebuild(&items, &vec![":1.2".to_string()]));
    assert!(tray_needs_rebuild(&items, &vec![]));
    assert!(!tray_needs_rebuild(&vec![], &vec![]));
}
