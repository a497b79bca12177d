use archvnde::audio::{
    get_audio_devices, input_entries, is_muted, output_entries, set_default_command, slider_layout,
    toggle_mute_commands, volume_row_icon, AudioDevice,
};

const STATUS: &str = "PipeWire 'pipewire-0' [1.0.0]\n \u{2514}\u{2500} Clients:\n        31. WirePlumber\n\nAudio\n \u{251c}\u{2500} Devices:\n \u{2502}      42. Built-in Audio                      [alsa]\n \u{2502}\n \u{251c}\u{2500} Sinks:\n \u{2502}  *   47. Built-in Audio Analog Stereo        [vol: 0.40]\n \u{2502}      48. HDMI Output                         [vol: 1.00 MUTED]\n \u{2502}\n \u{251c}\u{2500} Sources:\n \u{2502}  *   49. Built-in Audio Analog Stereo.monitor [vol: 1.00]\n \u{2502}      50. USB Microphone                      [vol: 0.80]\n \u{2502}\n \u{251c}\u{2500} Filters:\n \u{2502}      60. Something\n";

#[test]
fn output_and_input_devices() {
    let sinks = get_audio_devices(STATUS, false);
    assert_eq!(sinks.len(), 2);
    assert_eq!(sinks[0].name, "47");
    assert_eq!(sinks[0].description, "Built-in Audio Analog Stereo");
    assert!(sinks[0].is_default);
    assert_eq!(sinks[1].name, "48");
    assert_eq!(sinks[1].description, "HDMI Output");
    assert!(!sinks[1].is_default);
    let sources = get_audio_devices(STATUS, true);
    assert_eq!(sources.len(), 2);
    assert_eq!(sources[0].description, "Built-in Audio Analog Stereo.monitor");
    assert_eq!(sources[1].name, "50");
}

#[test]
fn mute_state() {
    assert!(is_muted(Some("Volume: 0.40 [MUTED]\n"), None));
    assert!(!is_muted(Some("Volume: 0.40\n"), Some("Mute: yes\n")));
    assert!(is_muted(None, Some("Mute: yes\n")));
    assert!(!is_muted(None, None));
}

fn dev(name: &str, desc: &str, d: bool) -> AudioDevice {
    AudioDevice { name: name.to_string(), description: desc.to_string(), is_default: d }
}

#[test]
fn device_menu_entries() {
    let outs = output_entries(&vec![dev("47", "Speakers", true), dev("48", "HDMI", false)]);
    assert_eq!(outs.len(), 2);
    assert_eq!(outs[0].icon_color, "#ffffff");
    assert!(outs[0].checked);
    assert_eq!(outs[1].icon_color, "rgba(255, 255, 255, 0.5)");
    assert!(!outs[1].checked);
    let ins = input_entries(&vec![
        dev("alsa_output.monitor", "Monitor of Speakers", false),
        dev("50", "USB Microphone", true),
    ]);
    assert_eq!(ins.len(), 1);
    assert_eq!(ins[0].device.description, "USB Microphone");
    assert!(input_entries(&vec![dev("x.monitor", "m", true)]).is_empty());
}

#[test]
fn audio_commands() {
    assert_eq!(set_default_command("47"), vec!["wpctl", "set-default", "47"]);
    let t = toggle_mute_commands();
    assert_eq!(t[0], vec!["wpctl", "set-mute", "@DEFAULT_AUDIO_SINK@", "toggle"]);
    assert_eq!(t[2], vec!["amixer", "set", "Master", "toggle"]);
}

#[test]
fn slider_rows() {
    let v = slider_layout("volume");
    assert_eq!(v.title, "Volume");
    assert!(v.mute_button && v.device_menu);
    let b = slider_layout("brightness");
    assert_eq!(b.title, "Brightness");
    assert!(!b.mute_button && !b.device_menu);
    assert_eq!(slider_layout("x").title, "Slider");
    assert_eq!(volume_row_icon(true).1, "audio-volume-muted-symbolic");
    assert_eq!(volume_row_icon(false).1, "volume");
}
