use archvnde::wifi::{connect_args, get_wifi_state, known_networks, scan_networks, wifi_powered};

const DEVICES: &str = "                                    Devices\n--------------------------------------------------------------------------------\n  Name                  Address               Powered     Adapter     Mode\n--------------------------------------------------------------------------------\n  wlan0                 aa:bb:cc:dd:ee:ff     on          phy0        station\n\n";

#[test]
fn radio_power_from_device_list() {
    assert!(wifi_powered(DEVICES));
    assert!(!wifi_powered("  wlan0  aa:bb  off  phy0  station\n"));
    assert!(!wifi_powered("  wlan1  aa:bb  on  phy0  station\n"));
    assert!(!wifi_powered(""));
}

#[test]
fn wifi_state_off_when_radio_off() {
    assert_eq!(get_wifi_state(None, None), (false, "Off".to_string()));
    assert_eq!(
        get_wifi_state(Some("  wlan0  aa:bb  off  phy0  station\n"), Some("State connected\n")),
        (false, "Off".to_string())
    );
}

#[test]
fn wifi_state_connected_network() {
    let station = "                                 Station: wlan0\n  Settable  Property              Value\n            State                 connected\n            Connected network     Home WiFi 5G\n";
    assert_eq!(get_wifi_state(Some(DEVICES), Some(station)), (true, "Home WiFi 5G".to_string()));
    let no_name = "            State                 connected\n";
    assert_eq!(get_wifi_state(Some(DEVICES), Some(no_name)), (true, "Connected".to_string()));
    assert_eq!(
        get_wifi_state(Some(DEVICES), Some("  State  connecting\n")),
        (true, "Connecting...".to_string())
    );
    assert_eq!(
        get_wifi_state(Some(DEVICES), Some("  State  authenticating\n")),
        (true, "Authenticating...".to_string())
    );
    assert_eq!(
        get_wifi_state(Some(DEVICES), Some("  State  disconnected\n")),
        (true, "Disconnected".to_string())
    );
    assert_eq!(get_wifi_state(Some(DEVICES), None), (true, "Disconnected".to_string()));
}

#[test]
fn known_network_names() {
    let out = "                               Known Networks\n--------------------------------------------------------------------------------\n  Name                              Security          Hidden      Last connected\n--------------------------------------------------------------------------------\n  Home WiFi                         psk                           Mar 3, 10:00 AM\n  Cafe                              open                          Feb 1, 9:00 AM\n  Office Net                        8021x\n\n  lonely\n";
    assert_eq!(known_networks(out), vec!["Home WiFi", "Cafe", "Office Net"]);
    assert!(known_networks("no table here\n  Foo psk\n").is_empty());
}

#[test]
fn scanned_networks() {
    let out = "                               Available networks\n--------------------------------------------------------------------------------\n      Network name                      Security            Signal\n--------------------------------------------------------------------------------\n  >   Home WiFi                         psk                 ****\n      Neighbour                         open                **\n      Bare                              psk\n\n";
    let nets = scan_networks(out);
    assert_eq!(nets.len(), 3);
    assert_eq!(nets[0].ssid, "Home WiFi");
    assert_eq!(nets[0].security, "psk");
    assert_eq!(nets[0].signal, "****");
    assert!(nets[0].connected);
    assert_eq!(nets[1].ssid, "Neighbour");
    assert_eq!(nets[1].signal, "**");
    assert!(!nets[1].connected);
    assert_eq!(nets[2].signal, "****");
}

#[test]
fn connection_arguments() {
    assert_eq!(connect_args("Cafe", None, None), vec!["station", "wlan0", "connect", "Cafe"]);
    assert_eq!(
        connect_args("Home", None, Some("secret")),
        vec!["--passphrase", "secret", "station", "wlan0", "connect", "Home"]
    );
    assert_eq!(
        connect_args("Corp", Some("alice"), Some("pw")),
        vec!["--username", "alice", "--password", "pw", "station", "wlan0", "connect", "Corp"]
    );
}

use archvnde::wifi::{
    connecting_text, connection_result_text, credentials_title, network_click, network_secured,
    wifi_power_toggle, NetworkClick, ScannedNetwork,
};

fn net(ssid: &str, sec: &str, connected: bool) -> ScannedNetwork {
    ScannedNetwork { ssid: ssid.to_string(), security: sec.to_string(), signal: "***".to_string(), connected }
}

#[test]
fn network_list_clicks() {
    let known = vec!["Home".to_string()];
    assert_eq!(network_click(&net("Home", "psk", true), &known), NetworkClick::Ignore);
    assert_eq!(network_click(&net("Home", "psk", false), &known), NetworkClick::Connect);
    assert_eq!(network_click(&net("Cafe", "open", false), &known), NetworkClick::Connect);
    assert_eq!(network_click(&net("Neighbour", "psk", false), &known), NetworkClick::AskCredentials { username: false });
    assert_eq!(network_click(&net("Corp", "8021x", false), &known), NetworkClick::AskCredentials { username: true });
    assert!(network_secured(&net("x", "psk", false)));
    assert!(!network_secured(&net("x", "open", false)));
    assert_eq!(connecting_text("Home"), "Connecting to Home...");
    assert_eq!(credentials_title("Corp"), "Connect to Corp");
    assert_eq!(connection_result_text("Home", true), "Home");
    assert_eq!(connection_result_text("Home", false), "Failed");
}

#[test]
fn radio_switch() {
    let (on, args, label) = wifi_power_toggle(false);
    assert!(on);
    assert_eq!(args, vec!["device", "wlan0", "set-property", "Powered", "on"]);
    assert_eq!(label, "Scanning...");
    let (on, args, label) = wifi_power_toggle(true);
    assert!(!on);
    assert_eq!(args[4], "off");
    assert_eq!(label, "Off");
}
