//! Wi-Fi state from the output of `iwctl`: whether the radio is on, the
//! connection status, the known and the visible networks, and the
//! arguments of a connection request.
use vstd::prelude::*;

use crate::text::{
    chars_eq_str, chars_of, concat_chars, contains, contains_exec, find, find_exec, lines, skip_chars,
    split_lines, split_words, starts_with, starts_with_exec, string_from, string_of, trim, trim_chars,
    words,
};

verus! {

// ---------------------------------------------------------------------------
// Radio and connection state
// ---------------------------------------------------------------------------
/// The power field of the first `wlan0` row (a row of four or more fields)
/// of `iwctl device list`.
pub open spec fn powered_in(ls: Seq<Seq<char>>) -> bool
    decreases ls.len(),
{
    if ls.len() == 0 {
        false
    } else if words(ls[0]).len() >= 4 && words(ls[0])[0] == "wlan0"@ {
        words(ls[0])[2] == "on"@
    } else {
        powered_in(ls.drop_first())
    }
}

/// Whether `iwctl device list` shows the `wlan0` radio powered on.
pub fn wifi_powered(device_list: &str) -> (r: bool)
    ensures
        r == powered_in(lines(device_list@)),
{
    let cs = chars_of(device_list);
    let ls = split_lines(&cs);
    let ghost all = lines(device_list@);
    let mut i: usize = 0;
    assert(all.skip(0) =~= all);
    while i < ls.len()
        invariant
            ls@.len() == all.len(),
            all == lines(device_list@),
            forall|k: int| 0 <= k < ls@.len() ==> #[trigger] ls@[k]@ == all[k],
            i <= ls@.len(),
            powered_in(all) == powered_in(all.skip(i as int)),
        decreases ls@.len() - i,
    {
        assert(all.skip(i as int)[0] == all[i as int]);
        assert(all.skip(i as int).drop_first() =~= all.skip(i + 1));
        let ws = split_words(&ls[i]);
        if ws.len() >= 4 && chars_eq_str(&ws[0], "wlan0") {
            return chars_eq_str(&ws[2], "on");
        }
        i += 1;
    }
    false
}

/// The connection state and network name that `iwctl station wlan0 show`
/// reports: the last field of the last line mentioning `State` (else
/// `Disconnected`), and the trimmed text after `Connected network` on the
/// last such line where it is not empty.
pub open spec fn station_scan(ls: Seq<Seq<char>>) -> (Seq<char>, Option<Seq<char>>)
    decreases ls.len(),
{
    if ls.len() == 0 {
        ("Disconnected"@, None)
    } else {
        let prev = station_scan(ls.drop_last());
        let line = ls.last();
        if contains(line, "State"@) {
            if words(line).len() >= 2 {
                (words(line).last(), prev.1)
            } else {
                prev
            }
        } else if contains(line, "Connected network"@) {
            match find(line, "Connected network"@) {
                Some(pos) => {
                    let val = trim(line.skip(pos + "Connected network"@.len()));
                    if val.len() > 0 {
                        (prev.0, Some(val))
                    } else {
                        prev
                    }
                },
                None => prev,
            }
        } else {
            prev
        }
    }
}

/// The text shown for a powered radio, from the station report (`None`
/// when `iwctl` could not be run).
pub open spec fn status_text(station: Option<Seq<char>>) -> Seq<char> {
    match station {
        None => "Disconnected"@,
        Some(out) => {
            let (state, net) = station_scan(lines(out));
            if state == "connected"@ {
                match net {
                    Some(n) => n,
                    None => "Connected"@,
                }
            } else if state == "connecting"@ {
                "Connecting..."@
            } else if state == "authenticating"@ {
                "Authenticating..."@
            } else {
                "Disconnected"@
            }
        },
    }
}

pub open spec fn opt_str_view(o: Option<&str>) -> Option<Seq<char>> {
    match o {
        Some(s) => Some(s@),
        None => None,
    }
}

/// The status text of a powered radio (see `status_text`).
pub fn wifi_status_text(station_show: Option<&str>) -> (r: String)
    ensures
        r@ == status_text(opt_str_view(station_show)),
{
    let out = match station_show {
        None => return string_from("Disconnected"),
        Some(o) => o,
    };
    let cs = chars_of(out);
    let ls = split_lines(&cs);
    let ghost all = lines(out@);
    let state_word = chars_of("State");
    let conn = chars_of("Connected network");
    proof {
        reveal_strlit("Connected network");
    }
    let mut state = chars_of("Disconnected");
    let mut net: Option<Vec<char>> = None;
    let mut i: usize = 0;
    while i < ls.len()
        invariant
            ls@.len() == all.len(),
            all == lines(out@),
            forall|k: int| 0 <= k < ls@.len() ==> #[trigger] ls@[k]@ == all[k],
            state_word@ == "State"@,
            conn@ == "Connected network"@,
            conn@.len() == 17,
            i <= ls@.len(),
            state@ == station_scan(all.take(i as int)).0,
            match net {
                Some(n) => station_scan(all.take(i as int)).1 == Some(n@),
                None => station_scan(all.take(i as int)).1 is None,
            },
        decreases ls@.len() - i,
    {
        assert(all.take(i + 1).drop_last() =~= all.take(i as int));
        let line = &ls[i];
        if contains_exec(line, &state_word) {
            let ws = split_words(line);
            if ws.len() >= 2 {
                state = ws[ws.len() - 1].clone();
            }
        } else if contains_exec(line, &conn) {
            match find_exec(line, &conn) {
                Some(pos) => {
                    proof {
                        crate::text::lemma_find(line@, conn@);
                    }
                    let ll = line.len();
                    assert(pos + 17 <= ll);
                    let rest = skip_chars(line, pos + 17);
                    let val = trim_chars(&rest);
                    if val.len() > 0 {
                        net = Some(val);
                    }
                },
                None => {},
            }
        }
        i += 1;
    }
    assert(all.take(all.len() as int) =~= all);
    if chars_eq_str(&state, "connected") {
        match net {
            Some(n) => string_of(&n),
            None => string_from("Connected"),
        }
    } else if chars_eq_str(&state, "connecting") {
        string_from("Connecting...")
    } else if chars_eq_str(&state, "authenticating") {
        string_from("Authenticating...")
    } else {
        string_from("Disconnected")
    }
}

/// The Wi-Fi tile's state: whether the radio is on and the text shown.
/// `device_list` is the output of `iwctl device list` (`None` when it could
/// not be run); `station_show` that of `iwctl station wlan0 show`, read
/// only when the radio is on.
pub fn get_wifi_state(device_list: Option<&str>, station_show: Option<&str>) -> (r: (bool, String))
    ensures
        r.0 == match device_list {
            Some(d) => powered_in(lines(d@)),
            None => false,
        },
        !r.0 ==> r.1@ == "Off"@,
        r.0 ==> r.1@ == status_text(opt_str_view(station_show)),
{
    let powered = match device_list {
        Some(d) => wifi_powered(d),
        None => false,
    };
    if !powered {
        return (false, string_from("Off"));
    }
    (true, wifi_status_text(station_show))
}

// ---------------------------------------------------------------------------
// Network lists
// ---------------------------------------------------------------------------
/// Words joined with single spaces.
pub open spec fn join_words(ws: Seq<Seq<char>>) -> Seq<char>
    decreases ws.len(),
{
    if ws.len() == 0 {
        Seq::empty()
    } else if ws.len() == 1 {
        ws[0]
    } else {
        join_words(ws.drop_last()) + " "@ + ws.last()
    }
}

/// A security field of the network lists.
pub open spec fn is_security(w: Seq<char>) -> bool {
    w == "psk"@ || w == "open"@ || w == "8021x"@
}

/// The first security field of a row.
pub open spec fn security_index(ws: Seq<Seq<char>>) -> Option<int>
    decreases ws.len(),
{
    if ws.len() == 0 {
        None
    } else if is_security(ws[0]) {
        Some(0)
    } else {
        match security_index(ws.drop_first()) {
            Some(i) => Some(i + 1),
            None => None,
        }
    }
}

/// The rows of a table below its first `----` line: the lines after it
/// that are not blank and not themselves a `----` line.
pub open spec fn table_rows(ls: Seq<Seq<char>>) -> Seq<Seq<char>>
    decreases ls.len(),
{
    if ls.len() == 0 {
        Seq::empty()
    } else {
        let prev = table_rows(ls.drop_last());
        let line = ls.last();
        if contains(line, "----"@) || !started(ls.drop_last()) || trim(line).len() == 0 {
            prev
        } else {
            prev.push(line)
        }
    }
}

/// A `----` line occurs in `ls`.
pub open spec fn started(ls: Seq<Seq<char>>) -> bool {
    exists|i: int| 0 <= i < ls.len() && contains(#[trigger] ls[i], "----"@)
}

/// The name of the network a known-networks row describes: the words
/// before its first security field (rows of fewer than two words, or
/// without one, describe none).
pub open spec fn known_row(line: Seq<char>) -> Option<Seq<char>> {
    let ws = words(trim(line));
    if ws.len() >= 2 {
        match security_index(ws) {
            Some(i) => Some(join_words(ws.take(i))),
            None => None,
        }
    } else {
        None
    }
}

/// The networks a known-networks row list names, in order.
pub open spec fn known_names(rows: Seq<Seq<char>>) -> Seq<Seq<char>>
    decreases rows.len(),
{
    if rows.len() == 0 {
        Seq::empty()
    } else {
        match known_row(rows.last()) {
            Some(n) => known_names(rows.drop_last()).push(n),
            None => known_names(rows.drop_last()),
        }
    }
}

fn join_exec(ws: &Vec<Vec<char>>, n: usize) -> (r: Vec<char>)
    requires
        n <= ws@.len(),
    ensures
        r@ == join_words(ws@.map_values(|w: Vec<char>| w@).take(n as int)),
{
    let ghost wv = ws@.map_values(|w: Vec<char>| w@);
    let mut r: Vec<char> = Vec::new();
    let sp = chars_of(" ");
    let mut i: usize = 0;
    assert(wv.take(0) =~= Seq::<Seq<char>>::empty());
    while i < n
        invariant
            n <= ws@.len(),
            wv == ws@.map_values(|w: Vec<char>| w@),
            sp@ == " "@,
            i <= n,
            r@ == join_words(wv.take(i as int)),
        decreases n - i,
    {
        assert(wv.take(i + 1).drop_last() =~= wv.take(i as int));
        assert(wv.take(i + 1).last() == ws@[i as int]@);
        if i == 0 {
            r = ws[0].clone();
            assert(wv.take(1).len() == 1);
        } else {
            let with_sp = concat_chars(&r, &sp);
            r = concat_chars(&with_sp, &ws[i]);
        }
        i += 1;
    }
    r
}

fn security_index_exec(ws: &Vec<Vec<char>>) -> (r: Option<usize>)
    ensures
        r matches Some(i) ==> security_index(ws@.map_values(|w: Vec<char>| w@)) == Some(i as int)
            && i < ws@.len(),
        r is None ==> security_index(ws@.map_values(|w: Vec<char>| w@)) is None,
{
    let ghost wv = ws@.map_values(|w: Vec<char>| w@);
    let mut i: usize = 0;
    assert(wv.skip(0) =~= wv);
    while i < ws.len()
        invariant
            wv == ws@.map_values(|w: Vec<char>| w@),
            i <= ws@.len(),
            security_index(wv) == match security_index(wv.skip(i as int)) {
                Some(j) => Some(j + i),
                None => None,
            },
        decreases ws@.len() - i,
    {
        assert(wv.skip(i as int)[0] == ws@[i as int]@);
        assert(wv.skip(i as int).drop_first() =~= wv.skip(i + 1));
        let w = &ws[i];
        if chars_eq_str(w, "psk") || chars_eq_str(w, "open") || chars_eq_str(w, "8021x") {
            return Some(i);
        }
        i += 1;
    }
    None
}

/// The rows below the first `----` line (see `table_rows`).
fn table_rows_exec(out: &str) -> (r: Vec<Vec<char>>)
    ensures
        r@.map_values(|l: Vec<char>| l@) == table_rows(lines(out@)),
{
    let cs = chars_of(out);
    let ls = split_lines(&cs);
    let ghost all = lines(out@);
    let dashes = chars_of("----");
    let mut rows: Vec<Vec<char>> = Vec::new();
    let mut start = false;
    let mut i: usize = 0;
    while i < ls.len()
        invariant
            ls@.len() == all.len(),
            all == lines(out@),
            forall|k: int| 0 <= k < ls@.len() ==> #[trigger] ls@[k]@ == all[k],
            dashes@ == "----"@,
            i <= ls@.len(),
            start == started(all.take(i as int)),
            rows@.map_values(|l: Vec<char>| l@) == table_rows(all.take(i as int)),
        decreases ls@.len() - i,
    {
        let ghost cur = all.take(i + 1);
        assert(cur.drop_last() =~= all.take(i as int));
        assert(cur.last() == all[i as int]);
        let line = &ls[i];
        let is_sep = contains_exec(line, &dashes);
        proof {
            if is_sep {
                assert(cur[i as int] == all[i as int]);
            }
            if started(all.take(i as int)) {
                let j = choose|j: int| 0 <= j < all.take(i as int).len() && contains(#[trigger] all.take(i as int)[j], "----"@);
                assert(cur[j] == all.take(i as int)[j]);
            }
            if started(cur) {
                let j = choose|j: int| 0 <= j < cur.len() && contains(#[trigger] cur[j], "----"@);
                if j < i {
                    assert(all.take(i as int)[j] == cur[j]);
                }
            }
        }
        if is_sep {
            start = true;
        } else if start {
            let t = trim_chars(line);
            if t.len() > 0 {
                let ghost prev = rows@;
                rows.push(line.clone());
                assert(rows@.map_values(|l: Vec<char>| l@) =~= prev.map_values(|l: Vec<char>| l@).push(
                    line@,
                ));
            }
        }
        i += 1;
    }
    assert(all.take(all.len() as int) =~= all);
    rows
}

/// The names of the known networks in `iwctl known-networks list`.
pub fn known_networks(out: &str) -> (r: Vec<String>)
    ensures
        r@.map_values(|s: String| s@) == known_names(table_rows(lines(out@))),
{
    let rows = table_rows_exec(out);
    let ghost rv = rows@.map_values(|l: Vec<char>| l@);
    let mut r: Vec<String> = Vec::new();
    let mut i: usize = 0;
    while i < rows.len()
        invariant
            rv == rows@.map_values(|l: Vec<char>| l@),
            rv == table_rows(lines(out@)),
            i <= rows@.len(),
            r@.map_values(|s: String| s@) == known_names(rv.take(i as int)),
        decreases rows@.len() - i,
    {
        assert(rv.take(i + 1).drop_last() =~= rv.take(i as int));
        assert(rv.take(i + 1).last() == rows@[i as int]@);
        let t = trim_chars(&rows[i]);
        let ws = split_words(&t);
        assert(ws@.map_values(|w: Vec<char>| w@) =~= words(trim(rows@[i as int]@)));
        if ws.len() >= 2 {
            if let Some(idx) = security_index_exec(&ws) {
                let name = join_exec(&ws, idx);
                let ghost prev = r@;
                let s = string_of(&name);
                r.push(s);
                assert(r@.map_values(|s: String| s@) =~= prev.map_values(|s: String| s@).push(s@));
            }
        }
        i += 1;
    }
    assert(rv.take(rv.len() as int) =~= rv);
    r
}

/// A visible network: name, security, signal bars, and whether it is the
/// connected one.
pub struct ScannedNetwork {
    pub ssid: String,
    pub security: String,
    pub signal: String,
    pub connected: bool,
}

/// The network a row of `iwctl station wlan0 get-networks` describes: a
/// row beginning with `  >` is the connected network (its first `>` is
/// dropped before the row is split); the words before the first security
/// field are the name, that field the security, and the next word the
/// signal (`****` when there is none).
pub open spec fn scan_row(line: Seq<char>) -> Option<(Seq<char>, Seq<char>, Seq<char>, bool)> {
    let connected = starts_with(line, "  >"@);
    let clean = if connected {
        match find(line, seq!['>']) {
            Some(p) => line.take(p) + line.skip(p + 1),
            None => line,
        }
    } else {
        line
    };
    let ws = words(clean);
    if ws.len() >= 2 {
        match security_index(ws) {
            Some(i) => Some(
                (
                    join_words(ws.take(i)),
                    ws[i],
                    if i + 1 < ws.len() {
                        ws[i + 1]
                    } else {
                        "****"@
                    },
                    connected,
                ),
            ),
            None => None,
        }
    } else {
        None
    }
}

pub open spec fn scanned(rows: Seq<Seq<char>>) -> Seq<(Seq<char>, Seq<char>, Seq<char>, bool)>
    decreases rows.len(),
{
    if rows.len() == 0 {
        Seq::empty()
    } else {
        match scan_row(rows.last()) {
            Some(n) => scanned(rows.drop_last()).push(n),
            None => scanned(rows.drop_last()),
        }
    }
}

pub open spec fn network_view(n: ScannedNetwork) -> (Seq<char>, Seq<char>, Seq<char>, bool) {
    (n.ssid@, n.security@, n.signal@, n.connected)
}

/// The visible networks of `iwctl station wlan0 get-networks`.
pub fn scan_networks(out: &str) -> (r: Vec<ScannedNetwork>)
    ensures
        r@.map_values(|n: ScannedNetwork| network_view(n)) == scanned(table_rows(lines(out@))),
{
    let rows = table_rows_exec(out);
    let ghost rv = rows@.map_values(|l: Vec<char>| l@);
    let marker = chars_of("  >");
    let mut r: Vec<ScannedNetwork> = Vec::new();
    let mut i: usize = 0;
    while i < rows.len()
        invariant
            rv == rows@.map_values(|l: Vec<char>| l@),
            rv == table_rows(lines(out@)),
            marker@ == "  >"@,
            i <= rows@.len(),
            r@.map_values(|n: ScannedNetwork| network_view(n)) == scanned(rv.take(i as int)),
        decreases rows@.len() - i,
    {
        assert(rv.take(i + 1).drop_last() =~= rv.take(i as int));
        assert(rv.take(i + 1).last() == rows@[i as int]@);
        let line = &rows[i];
        let connected = starts_with_exec(line, &marker);
        let clean = if connected {
            match crate::text::find_char(line, '>') {
                Some(p) => {
                    let head = crate::text::take_chars(line, p);
                    let ll = line.len();
                    assert(p < ll);
                    let tail = skip_chars(line, p + 1);
                    concat_chars(&head, &tail)
                },
                None => line.clone(),
            }
        } else {
            line.clone()
        };
        let ws = split_words(&clean);
        let ghost wv = ws@.map_values(|w: Vec<char>| w@);
        assert(wv =~= words(clean@));
        if ws.len() >= 2 {
            if let Some(idx) = security_index_exec(&ws) {
                let ssid = join_exec(&ws, idx);
                let security = string_of(&ws[idx]);
                let signal = if idx + 1 < ws.len() {
                    string_of(&ws[idx + 1])
                } else {
                    string_from("****")
                };
                let n = ScannedNetwork { ssid: string_of(&ssid), security, signal, connected };
                let ghost prev = r@;
                r.push(n);
                assert(r@.map_values(|n: ScannedNetwork| network_view(n)) =~= prev.map_values(
                    |n: ScannedNetwork| network_view(n),
                ).push(network_view(n)));
            }
        }
        i += 1;
    }
    assert(rv.take(rv.len() as int) =~= rv);
    r
}

// ---------------------------------------------------------------------------
// Connecting
// ---------------------------------------------------------------------------
/// The arguments of the `iwctl` call that connects to `ssid`: an
/// enterprise login passes `--username` and `--password`, a passphrase
/// `--passphrase`.
pub open spec fn connect_args_spec(ssid: Seq<char>, user: Option<Seq<char>>, pass: Option<Seq<char>>) -> Seq<Seq<char>> {
    let u: Seq<Seq<char>> = match user {
        Some(n) => seq!["--username"@, n],
        None => seq![],
    };
    let p: Seq<Seq<char>> = match pass {
        Some(pw) => if user is Some {
            seq!["--password"@, pw]
        } else {
            seq!["--passphrase"@, pw]
        },
        None => seq![],
    };
    u + p + seq!["station"@, "wlan0"@, "connect"@, ssid]
}

/// The arguments of the connection request (see `connect_args_spec`).
pub fn connect_args(ssid: &str, username: Option<&str>, password: Option<&str>) -> (r: Vec<String>)
    ensures
        r@.map_values(|s: String| s@) == connect_args_spec(
            ssid@,
            opt_str_view(username),
            opt_str_view(password),
        ),
{
    let mut r: Vec<String> = Vec::new();
    if let Some(u) = username {
        r.push(string_from("--username"));
        r.push(string_from(u));
    }
    if let Some(p) = password {
        if username.is_some() {
            r.push(string_from("--password"));
        } else {
            r.push(string_from("--passphrase"));
        }
        r.push(string_from(p));
    }
    r.push(string_from("station"));
    r.push(string_from("wlan0"));
    r.push(string_from("connect"));
    r.push(string_from(ssid));
    assert(r@.map_values(|s: String| s@) =~= connect_args_spec(
        ssid@,
        opt_str_view(username),
        opt_str_view(password),
    ));
    r
}


// ---------------------------------------------------------------------------
// The network list
// ---------------------------------------------------------------------------
/// What a press on a network of the list does.
#[derive(Clone, Copy, Debug, PartialEq, Eq, Structural)]
pub enum NetworkClick {
    /// The network is the connected one: nothing.
    Ignore,
    /// Connect at once (a saved or open network).
    Connect,
    /// Ask for the password, and for a user name too on an enterprise
    /// network.
    AskCredentials { username: bool },
}

/// A network is shown with a lock unless it is open.
pub open spec fn is_secured(security: Seq<char>) -> bool {
    security != "open"@
}

/// What pressing the network `ssid` does, given whether it is the
/// connected one and the names of the saved networks.
pub open spec fn network_click_spec(
    ssid: Seq<char>,
    security: Seq<char>,
    connected: bool,
    known: Seq<Seq<char>>,
) -> NetworkClick {
    if connected {
        NetworkClick::Ignore
    } else if known.contains(ssid) || security == "open"@ {
        NetworkClick::Connect
    } else {
        NetworkClick::AskCredentials { username: security == "8021x"@ }
    }
}

/// What pressing a network of the list does (see `network_click_spec`).
pub fn network_click(net: &ScannedNetwork, known: &Vec<String>) -> (r: NetworkClick)
    ensures
        r == network_click_spec(
            net.ssid@,
            net.security@,
            net.connected,
            known@.map_values(|s: String| s@),
        ),
{
    if net.connected {
        return NetworkClick::Ignore;
    }
    let ghost kv = known@.map_values(|s: String| s@);
    let sc = chars_of(net.ssid.as_str());
    let mut saved = false;
    let mut i: usize = 0;
    while i < known.len()
        invariant
            i <= known@.len(),
            kv == known@.map_values(|s: String| s@),
            sc@ == net.ssid@,
            saved == exists|k: int| 0 <= k < i && kv[k] == net.ssid@,
        decreases known@.len() - i,
    {
        let kc = chars_of(known[i].as_str());
        if crate::text::chars_eq(&kc, &sc) {
            saved = true;
        }
        assert(kv[i as int] == known@[i as int]@);
        i += 1;
    }
    let secc = chars_of(net.security.as_str());
    if saved || chars_eq_str(&secc, "open") {
        NetworkClick::Connect
    } else {
        NetworkClick::AskCredentials { username: chars_eq_str(&secc, "8021x") }
    }
}

/// Whether a network of the list is shown with a lock.
pub fn network_secured(net: &ScannedNetwork) -> (b: bool)
    ensures
        b == is_secured(net.security@),
{
    let secc = chars_of(net.security.as_str());
    !chars_eq_str(&secc, "open")
}

/// The text shown while connecting to `ssid`.
pub fn connecting_text(ssid: &str) -> (r: String)
    ensures
        r@ == "Connecting to "@ + ssid@ + "..."@,
{
    let a = concat_chars(&chars_of("Connecting to "), &chars_of(ssid));
    let b = concat_chars(&a, &chars_of("..."));
    string_of(&b)
}

/// The title of the credentials form for `ssid`.
pub fn credentials_title(ssid: &str) -> (r: String)
    ensures
        r@ == "Connect to "@ + ssid@,
{
    let a = concat_chars(&chars_of("Connect to "), &chars_of(ssid));
    string_of(&a)
}

/// The Wi-Fi tile's text after a connection attempt to `ssid`: the
/// network's name on success, `Failed` otherwise.
pub fn connection_result_text(ssid: &str, success: bool) -> (r: String)
    ensures
        r@ == if success {
            ssid@
        } else {
            "Failed"@
        },
{
    if success {
        string_from(ssid)
    } else {
        string_from("Failed")
    }
}

/// Pressing the Wi-Fi tile's switch while the radio is `active` (or not):
/// the radio is switched off (or on), and the tile says `Off` (or
/// `Scanning...`).
pub fn wifi_power_toggle(active: bool) -> (r: (bool, Vec<String>, String))
    ensures
        r.0 == !active,
        r.1@.map_values(|s: String| s@) == seq![
            "device"@,
            "wlan0"@,
            "set-property"@,
            "Powered"@,
            if r.0 {
                "on"@
            } else {
                "off"@
            },
        ],
        r.2@ == if r.0 {
            "Scanning..."@
        } else {
            "Off"@
        },
{
    let mut args: Vec<String> = Vec::new();
    args.push(string_from("device"));
    args.push(string_from("wlan0"));
    args.push(string_from("set-property"));
    args.push(string_from("Powered"));
    if active {
        args.push(string_from("off"));
        assert(args@.map_values(|s: String| s@) =~= seq![
            "device"@,
            "wlan0"@,
            "set-property"@,
            "Powered"@,
            "off"@,
        ]);
        (false, args, string_from("Off"))
    } else {
        args.push(string_from("on"));
        assert(args@.map_values(|s: String| s@) =~= seq![
            "device"@,
            "wlan0"@,
            "set-property"@,
            "Powered"@,
            "on"@,
        ]);
        (true, args, string_from("Scanning..."))
    }
}

} // verus!
