use archvnde::desktop::DesktopApp;
use archvnde::island::{
    capitalize_first, get_player_icon_name, notification_label, parse_island_state,
    parse_player_info, track_label, ArtOutcome, ArtUpdate, IslandAction, IslandTracker,
};
use archvnde::models::ActiveNotification;

fn app(name: &str, exec: &str, icon: Option<&str>) -> DesktopApp {
    DesktopApp {
        name: name.to_string(),
        exec_cmd: exec.to_string(),
        icon: icon.map(|s| s.to_string()),
        app_id: None,
        window_title: None,
    }
}

fn notif(title: &str, body: &str, icon: &str) -> ActiveNotification {
    ActiveNotification {
        title: title.into(),
        body: body.into(),
        icon: icon.into(),
        app_name: "x".into(),
        timestamp: std::time::Instant::now(),
    }
}

#[test]
fn labels() {
    assert_eq!(notification_label("Hi", ""), "Hi");
    assert_eq!(notification_label("Hi", "there"), "Hi - there");
    assert_eq!(notification_label("A long notification", "body"), "A long notifica...");
    assert_eq!(track_label("Song", ""), "Song");
    assert_eq!(track_label("Song", "Band"), "Band - Song");
    assert_eq!(track_label("123456789012345678", ""), "123456789012345678");
    assert_eq!(track_label("1234567890123456789", ""), "123456789012345...");
    assert_eq!(capitalize_first("spotify"), "Spotify");
    assert_eq!(capitalize_first("ßx"), "SSx");
    assert_eq!(capitalize_first(""), "");
}

#[test]
fn player_info_parsing() {
    let i = parse_player_info("Playing|//| Song |//|Band|//|spotify|//|file:///a.png").unwrap();
    assert!(i.playing);
    assert_eq!(i.title, "Song");
    assert_eq!(i.artist, "Band");
    assert_eq!(i.player, "spotify");
    assert_eq!(i.art_url, "file:///a.png");
    assert!(!parse_player_info("Paused|//|a|//|b|//|c|//|").unwrap().playing);
    assert!(parse_player_info("Stopped|//|a|//|b|//|c|//|d").is_none());
    assert!(parse_player_info("Playing|//|a|//|b").is_none());
}

#[test]
fn player_icons() {
    let apps = vec![app("Spotify", "spotify %U", None), app("Spotify Player", "/usr/bin/spotify", Some("spotify-client"))];
    assert_eq!(get_player_icon_name("Spotify", &apps), "spotify-client");
    assert_eq!(get_player_icon_name("", &apps), "music");
    assert_eq!(get_player_icon_name("VLC", &apps), "vlc");
}

#[test]
fn island_poll_sequence() {
    let apps = vec![app("Music", "amberol", Some("amberol-icon"))];
    let mut t = IslandTracker::new();
    let n = notif("Mail", "", "");
    match t.poll(Some(&n), None, &apps) {
        IslandAction::Notification(v) => {
            assert!(v.show_badge);
            assert!(v.zoom_in);
            assert_eq!(v.track_text, "Mail");
            assert_eq!(v.icon, "preferences-system-notifications-symbolic");
        }
        _ => panic!("expected notification"),
    }
    match t.poll(Some(&n), None, &apps) {
        IslandAction::Notification(v) => assert!(!v.show_badge),
        _ => panic!(),
    }
    let meta = "Playing|//|Song|//|Band|//|amberol|//|https://x/art.png";
    match t.poll(None, Some(meta), &apps) {
        IslandAction::Player { hide_badge, view } => {
            assert!(hide_badge);
            assert!(view.playing);
            assert_eq!(view.play_icon, "media-playback-pause-symbolic");
            assert!(!view.zoom_in);
            let l = view.labels.unwrap();
            assert_eq!(l.track_text, "Band - Song");
            assert_eq!(l.app_name, "Amberol");
            match view.art {
                ArtUpdate::Load { url, app_icon } => {
                    assert_eq!(url, "https://x/art.png");
                    assert_eq!(app_icon, "amberol-icon");
                }
                _ => panic!("expected load"),
            }
        }
        _ => panic!(),
    }
    // same song: labels every fifth poll, no second request
    match t.poll(None, Some(meta), &apps) {
        IslandAction::Player { hide_badge, view } => {
            assert!(!hide_badge);
            assert!(view.labels.is_none());
            assert!(matches!(view.art, ArtUpdate::Unchanged));
        }
        _ => panic!(),
    }
    assert!(matches!(t.art_result("https://x/other.png", "i", false), ArtOutcome::Ignore));
    assert!(matches!(t.art_result("https://x/art.png", "i", false), ArtOutcome::Retry));
    // retried at the next poll
    match t.poll(None, Some(meta), &apps) {
        IslandAction::Player { view, .. } => assert!(matches!(view.art, ArtUpdate::Load { .. })),
        _ => panic!(),
    }
    assert!(matches!(t.art_result("https://x/art.png", "i", false), ArtOutcome::Retry));
    // each new request starts the failure count afresh, so a third
    // failure of one request is never reached this way
    t.poll(None, Some(meta), &apps);
    assert_eq!(t.fail_count, 0);
    assert!(matches!(t.art_result("https://x/art.png", "amberol-icon", false), ArtOutcome::Retry));
    // three failures reported for one request end the retries
    t.poll(None, Some(meta), &apps);
    t.fail_count = 2;
    match t.art_result("https://x/art.png", "amberol-icon", false) {
        ArtOutcome::ShowAppIcon(i) => assert_eq!(i, "amberol-icon"),
        _ => panic!("third failure shows the icon"),
    }
    assert!(t.art_loaded_for_current_song);
    match t.poll(None, Some(meta), &apps) {
        IslandAction::Player { view, .. } => assert!(matches!(view.art, ArtUpdate::Unchanged)),
        _ => panic!(),
    }
    match t.poll(None, None, &apps) {
        IslandAction::Inactive { hide_badge, view } => {
            assert!(!hide_badge);
            assert_eq!(view.play_icon, "media-playback-start-symbolic");
            assert!(view.clear_art);
            assert!(view.zoom_out);
        }
        _ => panic!("expected inactive"),
    }
    assert_eq!(t.poll_counter, 0);
    assert!(t.last_title.is_empty());
    match t.poll(None, None, &apps) {
        IslandAction::Inactive { view, .. } => assert!(!view.zoom_out),
        _ => panic!("expected inactive"),
    }
    let paused = "Paused|//|Song|//|Band|//|amberol|//|";
    match t.poll(None, Some(paused), &apps) {
        IslandAction::Player { view, .. } => {
            assert!(!view.playing);
            assert_eq!(view.play_icon, "media-playback-start-symbolic");
            assert!(view.zoom_in);
        }
        _ => panic!("expected player"),
    }
}

#[test]
fn island_state_file() {
    let s = parse_island_state("active = true\ntitle = \"Download\"\nsubtitle=50%\nicon=download\nbogus\nx=y=z\n");
    assert!(s.active);
    assert_eq!(s.title, "Download");
    assert_eq!(s.subtitle, "50%");
    assert_eq!(s.icon, "download");
    let s2 = parse_island_state("active=false\ntitle=a=b\ntitle = \"\"\"q\"\n");
    assert!(!s2.active);
    assert_eq!(s2.title, "q");
}
