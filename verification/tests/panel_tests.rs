use archvnde::panel::{
    get_focused_window, is_stale_picture, press_button, FocusTracker, PanelButton, Popups,
};

fn none() -> Popups {
    Popups { launcher: false, control_center: false, calendar: false }
}

#[test]
fn popup_buttons() {
    let (c, p) = press_button(none(), PanelButton::Status);
    assert!(c.open_control_center && !c.close_calendar);
    assert_eq!(p, Popups { launcher: false, control_center: true, calendar: false });
    let (c, p) = press_button(p, PanelButton::Clock);
    assert!(c.close_control_center && c.open_calendar);
    assert_eq!(p, Popups { launcher: false, control_center: false, calendar: true });
    let (c, p) = press_button(p, PanelButton::Logo);
    assert!(c.close_calendar && c.open_launcher);
    assert_eq!(p, Popups { launcher: true, control_center: false, calendar: false });
    let (_, p) = press_button(p, PanelButton::Clock);
    assert_eq!(p, Popups { launcher: true, control_center: false, calendar: true });
    let (c, p) = press_button(p, PanelButton::Status);
    assert!(c.close_launcher && c.close_calendar && c.open_control_center);
    let (c, p) = press_button(p, PanelButton::Status);
    assert!(c.close_control_center);
    assert_eq!(p, none());
}

#[test]
fn focused_window_listing() {
    assert_eq!(
        get_focused_window(Some("firefox: Mozilla Firefox \nfoot: x\n")),
        Some(("firefox".to_string(), "Mozilla Firefox".to_string()))
    );
    assert_eq!(get_focused_window(Some(" : x\n")), None);
    assert_eq!(get_focused_window(None), None);
}

fn w(a: &str, t: &str) -> Option<(String, String)> {
    Some((a.to_string(), t.to_string()))
}

#[test]
fn focus_tracking() {
    let mut tr = FocusTracker::new();
    let a = tr.tick(false, w("foot", "shell"), false);
    assert!(a.clean_cache && a.restart_timer && a.save_capture.is_none());
    let a = tr.tick(false, w("foot", "shell"), false);
    assert!(!a.take_screenshot);
    let a = tr.tick(false, w("foot", "shell"), true);
    assert!(a.take_screenshot);
    tr.screenshot_result(true);
    let a = tr.tick(false, w("foot", "shell"), true);
    assert!(!a.take_screenshot);
    let a = tr.tick(false, w("archvnde-switcher", "Switcher"), true);
    assert!(!a.clean_cache && a.save_capture.is_none());
    let a = tr.tick(false, w("firefox", "web"), false);
    assert_eq!(a.save_capture, w("foot", "shell"));
    assert!(a.clean_cache && !tr.screenshot_taken);
    tr.screenshot_result(true);
    let a = tr.tick(true, None, false);
    assert_eq!(a.save_capture, w("firefox", "web"));
    assert!(tr.current.is_none());
}

#[test]
fn stale_pictures() {
    let running = vec!["foot".to_string(), "abc123".to_string()];
    assert!(!is_stale_picture("foot.png", &running));
    assert!(!is_stale_picture("abc123.png", &running));
    assert!(is_stale_picture("gone.png", &running));
    assert!(!is_stale_picture("temp_active.png", &running));
    assert!(!is_stale_picture("notes.txt", &running));
    assert!(!is_stale_picture("foot.png.png", &running));
}

use archvnde::panel::{clock_label, clock_text};

#[test]
fn clock_label_joins_date_and_capital_time() {
    assert_eq!(clock_label("05/03", "09:07 pm"), "05/03   09:07 PM");
    assert_eq!(clock_label("31/12", "11:59 AM"), "31/12   11:59 AM");
}

#[test]
fn clock_text_has_clock_shape() {
    let t = clock_text();
    let cs: Vec<char> = t.chars().collect();
    assert_eq!(cs.len(), 16);
    assert_eq!(cs[2], '/');
    assert_eq!(&t[5..8], "   ");
    assert_eq!(cs[10], ':');
    assert!(t.ends_with("AM") || t.ends_with("PM"));
}
