use archvnde::controls::{
    brightness_target, brightnessctl_percent_field, ddc_get_args, ddc_probe_step, ddc_set_args,
    ddcutil_brightness_fields, is_dnd_active, is_process_running, latest_value,
    pactl_volume_field, volume_commands, wpctl_volume_field, BrightnessTarget, DdcProbe,
};

#[test]
fn do_not_disturb() {
    assert!(is_dnd_active(Some(" true\n"), None));
    assert!(!is_dnd_active(Some("false\n"), Some("default\n")));
    assert!(is_dnd_active(Some("false\n"), Some("default\ndnd\n")));
    assert!(is_dnd_active(None, Some("dnd")));
    assert!(!is_dnd_active(None, None));
}

#[test]
fn running_programs() {
    assert!(is_process_running(Some(b"1234\n")));
    assert!(!is_process_running(Some(b"")));
    assert!(!is_process_running(None));
}

#[test]
fn volume_fields() {
    assert_eq!(wpctl_volume_field("Volume: 0.45\n"), Some("0.45".to_string()));
    assert_eq!(wpctl_volume_field("Volume:"), None);
    assert_eq!(
        pactl_volume_field("Volume: front-left: 32768 /  50% / -18.06 dB"),
        Some("50".to_string())
    );
    assert_eq!(pactl_volume_field("75%"), Some("75".to_string()));
    assert_eq!(pactl_volume_field("no percent"), None);
}

#[test]
fn brightness_fields() {
    assert_eq!(
        brightnessctl_percent_field("intel_backlight,backlight,400,42%,960\n"),
        Some("42".to_string())
    );
    assert_eq!(brightnessctl_percent_field("a,b,c\n"), None);
    assert_eq!(brightnessctl_percent_field(""), None);
    assert_eq!(
        ddcutil_brightness_fields("VCP 10 C 70 100\n"),
        (Some("70".to_string()), None)
    );
    assert_eq!(
        ddcutil_brightness_fields("VCP code 0x10 (Brightness): current value =    55, max value = 100\n"),
        (None, Some("55".to_string()))
    );
    assert_eq!(ddcutil_brightness_fields("nothing"), (None, None));
}

#[test]
fn volume_and_brightness_commands() {
    let c = volume_commands(40);
    assert_eq!(c.len(), 6);
    assert_eq!(c[0], vec!["wpctl", "set-volume", "@DEFAULT_AUDIO_SINK@", "40%"]);
    assert_eq!(c[1], vec!["pactl", "set-sink-volume", "@DEFAULT_SINK@", "40%"]);
    assert_eq!(c[2], vec!["amixer", "set", "Master", "40%"]);
    assert_eq!(c[5], vec!["amixer", "set", "Master", "unmute"]);
    assert_eq!(volume_commands(0).len(), 3);
    assert_eq!(volume_commands(-5)[0][3], "-5%");
    match brightness_target(true, 70) {
        BrightnessTarget::Backlight { command } => assert_eq!(command, vec!["brightnessctl", "set", "70%"]),
        _ => panic!("expected the backlight"),
    }
    assert!(matches!(brightness_target(false, 70), BrightnessTarget::Ddc { percent: 70 }));
}

#[test]
fn ddc_commands() {
    assert_eq!(
        ddc_get_args(Some(3)),
        vec!["--bus", "3", "--sleep-multiplier", "0.1", "--disable-dynamic-sleep", "getvcp", "10", "--terse"]
    );
    assert_eq!(
        ddc_set_args(None, 80),
        vec!["--sleep-multiplier", "0.1", "--disable-dynamic-sleep", "setvcp", "10", "80"]
    );
    assert_eq!(latest_value(10, &vec![20, 30]), 30);
    assert_eq!(latest_value(10, &vec![]), 10);
    assert_eq!(ddc_probe_step(0, true), DdcProbe::Found(0));
    assert_eq!(ddc_probe_step(0, false), DdcProbe::Next(1));
    assert_eq!(ddc_probe_step(8, false), DdcProbe::GiveUp);
}

use archvnde::controls::{
    night_light_active, power_command, toggle_dark_mode, toggle_dnd, toggle_night_light, PowerAction,
};

#[test]
fn toggle_tiles() {
    let on = toggle_dnd(false);
    assert!(on.active);
    assert_eq!(on.icon, "bell-off");
    assert_eq!(on.icon_color, "#ffffff");
    assert_eq!(on.commands[0], vec!["dunstctl", "set-paused", "true"]);
    assert_eq!(on.commands[1], vec!["makoctl", "mode", "-a", "dnd"]);
    let off = toggle_dnd(true);
    assert!(!off.active);
    assert_eq!(off.icon, "bell");
    assert_eq!(off.icon_color, "rgba(255, 255, 255, 0.7)");
    assert_eq!(off.commands[1], vec!["makoctl", "mode", "-r", "dnd"]);
    assert!(night_light_active(false, true));
    assert!(!night_light_active(false, false));
    let nl = toggle_night_light(false);
    assert_eq!(nl.commands[0], vec!["gammastep", "-O", "4000", "-l", "0:0"]);
    assert_eq!(toggle_night_light(true).commands[1], vec!["pkill", "-x", "wlsunset"]);
    let dm = toggle_dark_mode(false);
    assert!(dm.active);
    assert_eq!(dm.icon, "dark-mode");
    assert_eq!(dm.commands[0][4], "prefer-dark");
    assert_eq!(toggle_dark_mode(true).commands[0][4], "prefer-light");
    assert_eq!(power_command(PowerAction::Reboot, None), Some(vec!["systemctl".to_string(), "reboot".to_string()]));
    assert_eq!(power_command(PowerAction::PowerOff, None), Some(vec!["systemctl".to_string(), "poweroff".to_string()]));
    assert_eq!(power_command(PowerAction::Suspend, Some("u")), Some(vec!["systemctl".to_string(), "suspend".to_string()]));
    assert_eq!(
        power_command(PowerAction::LogOut, Some("alice")),
        Some(vec!["loginctl".to_string(), "terminate-user".to_string(), "alice".to_string()])
    );
    assert_eq!(power_command(PowerAction::LogOut, None), None);
}
