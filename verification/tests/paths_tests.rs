use archvnde::paths::{
    backend_result, config_dir_from, get_screenshot_save_path, join_path, no_backend_error, screenshot_paths,
    wallpaper_backends, wallpaper_commands, wallpaper_from_link, wallpaper_link_path,
    BackendResult, CommandOutcome, WallpaperBackend,
};

#[test]
fn joining_paths() {
    assert_eq!(join_path("/home/u", "x"), "/home/u/x");
    assert_eq!(join_path("/home/u/", "x"), "/home/u/x");
    assert_eq!(join_path("", "x"), "x");
}

#[test]
fn configuration_folder() {
    assert_eq!(config_dir_from(Some("/home/u/.config".to_string()), Some("/ignored")).as_deref(), Some("/home/u/.config/archvnde"));
    assert_eq!(config_dir_from(None, Some("/home/u")).as_deref(), Some("/home/u/.config/archvnde"));
    assert_eq!(config_dir_from(Some("rel/.config".to_string()), Some("/home/u")).as_deref(), Some("/home/u/.config/archvnde"));
    assert_eq!(config_dir_from(None, None), None);
    assert_eq!(config_dir_from(None, Some("relative")), None);
}

#[test]
fn wallpaper_record() {
    assert_eq!(wallpaper_link_path("/home/u/.config"), "/home/u/.config/archvnde/current_wallpaper");
    assert_eq!(wallpaper_from_link("  /pics/a.png\n"), "/pics/a.png");
}

#[test]
fn wallpaper_backends_in_order() {
    assert_eq!(wallpaper_backends(), vec![WallpaperBackend::Swww, WallpaperBackend::Swaybg, WallpaperBackend::Feh]);
    let (pre, set) = wallpaper_commands(WallpaperBackend::Swaybg, "/p.png");
    assert_eq!(pre, Some(vec!["killall".to_string(), "swaybg".to_string()]));
    assert_eq!(set, vec!["swaybg", "-i", "/p.png", "-m", "fill"]);
    let (pre, set) = wallpaper_commands(WallpaperBackend::Feh, "/p.png");
    assert_eq!(pre, None);
    assert_eq!(set, vec!["feh", "--bg-fill", "/p.png"]);
    assert!(matches!(backend_result(WallpaperBackend::Swww, CommandOutcome::Exited(true)), BackendResult::Done));
    assert!(matches!(backend_result(WallpaperBackend::Swww, CommandOutcome::Exited(false)), BackendResult::TryNext));
    match backend_result(WallpaperBackend::Feh, CommandOutcome::NotRun("boom".to_string())) {
        BackendResult::Failed(e) => assert_eq!(e, "boom"),
        _ => panic!("expected the error"),
    }
    assert!(matches!(backend_result(WallpaperBackend::Swaybg, CommandOutcome::NotRun("x".to_string())), BackendResult::TryNext));
    assert!(matches!(backend_result(WallpaperBackend::Swaybg, CommandOutcome::Started), BackendResult::Done));
    assert_eq!(no_backend_error(), "No compatible wallpaper backend (swww, swaybg, or feh) was found in PATH");
}

#[test]
fn screenshot_locations() {
    let (d, f) = screenshot_paths(Some("/home/u/Pictures".to_string()), None, "2024-01-02_03-04-05");
    assert_eq!(d, "/home/u/Pictures/Screenshots");
    assert_eq!(f, "/home/u/Pictures/Screenshots/Screenshot_2024-01-02_03-04-05.png");
    let (d, _) = screenshot_paths(None, Some("/home/u".to_string()), "s");
    assert_eq!(d, "/home/u/Pictures/Screenshots");
    let (d, _) = screenshot_paths(None, None, "s");
    assert_eq!(d, "/tmp/Pictures/Screenshots");
}

#[test]
fn screenshot_name_is_stamped_with_time() {
    let (dir, file) = get_screenshot_save_path();
    assert!(dir.ends_with("/Screenshots"));
    let name = file.rsplit('/').next().unwrap();
    assert!(name.starts_with("Screenshot_") && name.ends_with(".png"));
    let stamp: Vec<char> = name["Screenshot_".len()..name.len() - 4].chars().collect();
    assert!(stamp.len() >= 19);
    let e = &stamp[stamp.len() - 15..];
    let seps = [(0, '-'), (3, '-'), (6, '_'), (9, '-'), (12, '-')];
    for (i, c) in seps {
        assert_eq!(e[i], c);
        assert!(e[i + 1].is_ascii_digit() && e[i + 2].is_ascii_digit());
    }
}
