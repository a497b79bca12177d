use archvnde::models::IslandState;
use archvnde::notch::{notch_plan, NotchTracker};

fn alert(active: bool, title: &str, subtitle: &str, icon: &str) -> IslandState {
    IslandState {
        active,
        title: title.to_string(),
        subtitle: subtitle.to_string(),
        icon: icon.to_string(),
    }
}

fn s(t: &str) -> Option<String> {
    Some(t.to_string())
}

#[test]
fn notch_plan_cases() {
    let p = notch_plan(&None, &None);
    assert!(!p.show && !p.playing && !p.custom_active && !p.animate_bars);

    let p = notch_plan(&None, &s("Playing"));
    assert!(p.show && p.playing && !p.custom_active && p.animate_bars);

    let p = notch_plan(&None, &s("Paused"));
    assert!(!p.show && !p.playing);

    let p = notch_plan(&Some(alert(true, "Download", "", "download")), &s("Paused"));
    assert!(p.show && p.custom_active && !p.playing && !p.animate_bars);

    let p = notch_plan(&Some(alert(true, "Song", "", "music")), &None);
    assert!(p.show && p.animate_bars);

    let p = notch_plan(&Some(alert(false, "Song", "", "music")), &None);
    assert!(!p.show && !p.animate_bars);
}

#[test]
fn notch_alert_badge_once() {
    let mut t = NotchTracker::new();
    let v = t.show_alert(&alert(true, "Update ready", "Restart to apply the update", ""));
    assert_eq!(v.label, "Update ready - ...");
    assert_eq!(v.icon, "bell");
    let b = v.badge.expect("badge on first poll");
    assert_eq!(b.title, "Update ready");
    assert_eq!(b.desc, "Restart to apply the update");
    assert_eq!(b.icon, "bell");
    assert!(v.zoom_in);

    let v2 = t.show_alert(&alert(true, "Update ready", "Restart to apply the update", ""));
    assert!(v2.badge.is_none());
    assert!(!v2.zoom_in);
}

#[test]
fn notch_alert_short_label_and_icon() {
    let mut t = NotchTracker::new();
    let v = t.show_alert(&alert(true, "Hi", "there", "shield"));
    assert_eq!(v.label, "Hi - there");
    assert_eq!(v.icon, "shield");
}

#[test]
fn notch_track_view_and_art_once() {
    let mut t = NotchTracker::new();
    let v = t.show_track(true, s("Song"), s("Band"), s("spotify"), s("file:///a.png"));
    assert_eq!(v.label, "Band - Song");
    assert_eq!(v.title, "Song");
    assert_eq!(v.artist, "Band");
    assert_eq!(v.app_name, "Spotify");
    assert_eq!(v.play_icon, "media-playback-pause-symbolic");
    assert_eq!(v.new_art.as_deref(), Some("file:///a.png"));
    assert!(v.zoom_in && !v.badge_out);

    let v2 = t.show_track(false, s("Song"), s("Band"), s("spotify"), s("file:///a.png"));
    assert!(v2.new_art.is_none());
    assert_eq!(v2.play_icon, "media-playback-start-symbolic");
    assert!(!v2.zoom_in);

    let v3 = t.show_track(true, s("Other"), s(""), None, None);
    assert_eq!(v3.label, "Other");
    assert_eq!(v3.app_name, "Music Player");
    assert_eq!(v3.new_art.as_deref(), Some(""));
}

#[test]
fn notch_track_defaults_and_long_label() {
    let mut t = NotchTracker::new();
    let v = t.show_track(true, None, None, None, None);
    assert_eq!(v.title, "Unknown Title");
    assert_eq!(v.artist, "Unknown Artist");
    assert_eq!(v.label, "Unknown Artist ...");
    // The empty address equals the empty address the notch starts with.
    assert!(v.new_art.is_none());
}

#[test]
fn notch_alert_then_track_then_retract() {
    let mut t = NotchTracker::new();
    t.show_alert(&alert(true, "A", "", "bell"));
    let v = t.show_track(true, s("Song"), s("Band"), s("mpv"), None);
    assert!(v.badge_out);
    assert!(!v.zoom_in);
    let h = t.retract();
    assert!(h.zoom_out && !h.badge_out);
    let h2 = t.retract();
    assert!(!h2.zoom_out && !h2.badge_out);

    t.show_alert(&alert(true, "A", "", ""));
    let h3 = t.retract();
    assert!(h3.zoom_out && h3.badge_out);
    let v = t.show_alert(&alert(true, "B", "", ""));
    assert!(v.badge.is_some() && v.zoom_in);
}
