//! The control center's view of the system: do-not-disturb and running
//! programs, the volume and brightness figures that the tools print, and
//! the commands that change them.
use vstd::prelude::*;

use crate::text::{
    chars_eq_str, chars_of, concat_chars, contains, contains_exec, dec_chars, dec_str, find,
    find_exec, is_whitespace, is_ws, lines, rfind, rfind_char, skip_chars, split_lines,
    split_on, split_on_exec, split_words, strip_char_end, strip_char_end_exec, string_of,
    sub_chars, take_chars, trim, trim_chars, words,
};

verus! {

// ---------------------------------------------------------------------------
// Do not disturb, running programs
// ---------------------------------------------------------------------------
/// Whether notifications are paused: `dunstctl is-paused` printed `true`
/// (surrounding whitespace aside), or the modes `makoctl mode` printed
/// include `dnd`. A tool that could not be run is `None`.
pub fn is_dnd_active(dunst: Option<&str>, mako: Option<&str>) -> (b: bool)
    ensures
        b == ((match dunst {
            Some(d) => trim(d@) == "true"@,
            None => false,
        }) || (match mako {
            Some(m) => contains(m@, "dnd"@),
            None => false,
        })),
{
    if let Some(d) = dunst {
        let dc = chars_of(d);
        let dt = trim_chars(&dc);
        if chars_eq_str(&dt, "true") {
            return true;
        }
    }
    if let Some(m) = mako {
        let mc = chars_of(m);
        let dnd = chars_of("dnd");
        if contains_exec(&mc, &dnd) {
            return true;
        }
    }
    false
}

/// Whether `pgrep` found the program: it printed something. `None` where
/// it could not be run.
pub fn is_process_running(pgrep_output: Option<&[u8]>) -> (b: bool)
    ensures
        b == (match pgrep_output {
            Some(o) => o@.len() > 0,
            None => false,
        }),
{
    match pgrep_output {
        Some(o) => o.len() > 0,
        None => false,
    }
}

// ---------------------------------------------------------------------------
// Figures printed by the tools
// ---------------------------------------------------------------------------
/// The volume field of `wpctl get-volume`: its second word.
pub fn wpctl_volume_field(out: &str) -> (r: Option<String>)
    ensures
        match r {
            Some(f) => words(out@).len() >= 2 && f@ == words(out@)[1],
            None => words(out@).len() < 2,
        },
{
    let cs = chars_of(out);
    let ws = split_words(&cs);
    if ws.len() >= 2 {
        Some(string_of(&ws[1]))
    } else {
        None
    }
}

/// The volume field of `pactl get-sink-volume`: the text before the first
/// `%`, from the last space before it (or the start), trimmed.
pub open spec fn pactl_field(out: Seq<char>) -> Option<Seq<char>> {
    match find(out, seq!['%']) {
        Some(pos) => {
            let start = match rfind(out.take(pos), seq![' ']) {
                Some(s) => s,
                None => 0,
            };
            Some(trim(out.subrange(start, pos)))
        },
        None => None,
    }
}

/// The volume field of `pactl get-sink-volume` (see `pactl_field`).
pub fn pactl_volume_field(out: &str) -> (r: Option<String>)
    ensures
        match r {
            Some(f) => pactl_field(out@) == Some(f@),
            None => pactl_field(out@) is None,
        },
{
    let cs = chars_of(out);
    let pct = chars_of("%");
    proof {
        reveal_strlit("%");
        assert(pct@ =~= seq!['%']);
    }
    match find_exec(&cs, &pct) {
        Some(pos) => {
            proof {
                crate::text::lemma_find(cs@, pct@);
            }
            assert(pos < cs@.len());
            let head = take_chars(&cs, pos);
            let start: usize = match rfind_char(&head, ' ') {
                Some(s) => s,
                None => 0,
            };
            let part = sub_chars(&cs, start, pos);
            assert(part@ =~= cs@.subrange(start as int, pos as int));
            let f = trim_chars(&part);
            Some(string_of(&f))
        },
        None => None,
    }
}

/// The brightness field of `brightnessctl -m`: the fourth comma-separated
/// field of its first line, without trailing `%`.
pub open spec fn brightnessctl_field(out: Seq<char>) -> Option<Seq<char>> {
    let ls = lines(out);
    if ls.len() > 0 && split_on(ls[0], ","@).len() >= 4 {
        Some(strip_char_end(split_on(ls[0], ","@)[3], '%'))
    } else {
        None
    }
}

/// The brightness field of `brightnessctl -m` (see `brightnessctl_field`).
pub fn brightnessctl_percent_field(out: &str) -> (r: Option<String>)
    ensures
        match r {
            Some(f) => brightnessctl_field(out@) == Some(f@),
            None => brightnessctl_field(out@) is None,
        },
{
    let cs = chars_of(out);
    let ls = split_lines(&cs);
    if ls.len() == 0 {
        return None;
    }
    let comma = chars_of(",");
    proof {
        reveal_strlit(",");
    }
    let parts = split_on_exec(&ls[0], &comma);
    if parts.len() >= 4 {
        let f = strip_char_end_exec(&parts[3], '%');
        Some(string_of(&f))
    } else {
        None
    }
}

/// `c` is numeric (`char::is_numeric`: one of the Unicode number
/// categories).
pub uninterp spec fn numeric_char(c: char) -> bool;

/// `char::is_numeric`; the result is named by `numeric_char`.
#[verifier::external_body]
fn is_numeric(c: char) -> (b: bool)
    ensures
        b == numeric_char(c),
{
    c.is_numeric()
}

/// The leading run of numeric characters of `s`.
pub open spec fn numeric_prefix(s: Seq<char>) -> Seq<char>
    decreases s.len(),
{
    if s.len() > 0 && numeric_char(s[0]) {
        seq![s[0]] + numeric_prefix(s.drop_first())
    } else {
        Seq::empty()
    }
}

/// `s` without its leading whitespace (`skip_while(is_whitespace)`).
pub open spec fn skip_ws(s: Seq<char>) -> Seq<char>
    decreases s.len(),
{
    if s.len() > 0 && is_ws(s[0]) {
        skip_ws(s.drop_first())
    } else {
        s
    }
}

/// The brightness fields of `ddcutil getvcp 10 --terse`: the fourth word
/// where the words start `VCP 10` (or `VCP 0x10`) and there are four or
/// more; and the numeric characters that follow `current value =` (after
/// whitespace), where that text occurs. The first that reads as a number
/// gives the brightness.
pub open spec fn ddc_fields(out: Seq<char>) -> (Option<Seq<char>>, Option<Seq<char>>) {
    let ws = words(out);
    let vcp = if ws.len() >= 4 && ws[0] == "VCP"@ && (ws[1] == "10"@ || ws[1] == "0x10"@) {
        Some(ws[3])
    } else {
        None
    };
    let cur = match find(out, "current value ="@) {
        Some(pos) => Some(numeric_prefix(skip_ws(out.skip(pos + "current value ="@.len())))),
        None => None,
    };
    (vcp, cur)
}

/// The brightness fields of the `ddcutil` report (see `ddc_fields`).
pub fn ddcutil_brightness_fields(out: &str) -> (r: (Option<String>, Option<String>))
    ensures
        ({
            let (v, c) = ddc_fields(out@);
            &&& match r.0 {
                Some(f) => v == Some(f@),
                None => v is None,
            }
            &&& match r.1 {
                Some(f) => c == Some(f@),
                None => c is None,
            }
        }),
{
    let cs = chars_of(out);
    let ws = split_words(&cs);
    let vcp: Option<String> = if ws.len() >= 4 && chars_eq_str(&ws[0], "VCP") && (chars_eq_str(
        &ws[1],
        "10",
    ) || chars_eq_str(&ws[1], "0x10")) {
        Some(string_of(&ws[3]))
    } else {
        None
    };
    let marker = chars_of("current value =");
    let cur: Option<String> = match find_exec(&cs, &marker) {
        Some(pos) => {
            proof {
                crate::text::lemma_find(cs@, marker@);
            }
            assert(pos + marker@.len() <= cs@.len());
            assert(pos + marker.len() <= cs.len());
            let end: usize = pos + marker.len();
            let rest = skip_chars(&cs, end);
            let mut i: usize = 0;
            assert(rest@.skip(0) =~= rest@);
            while i < rest.len() && is_whitespace(rest[i])
                invariant
                    i <= rest@.len(),
                    skip_ws(rest@) == skip_ws(rest@.skip(i as int)),
                decreases rest@.len() - i,
            {
                assert(rest@.skip(i as int).drop_first() =~= rest@.skip(i + 1));
                i += 1;
            }
            let ghost body = rest@.skip(i as int);
            let mut digits: Vec<char> = Vec::new();
            let mut j: usize = i;
            assert(rest@.skip(j as int) == body);
            while j < rest.len() && is_numeric(rest[j])
                invariant
                    i <= j <= rest@.len(),
                    body == rest@.skip(i as int),
                    digits@ + numeric_prefix(rest@.skip(j as int)) == numeric_prefix(body),
                decreases rest@.len() - j,
            {
                assert(rest@.skip(j as int).drop_first() =~= rest@.skip(j + 1));
                assert(rest@.skip(j as int)[0] == rest@[j as int]);
                let ghost before = digits@;
                digits.push(rest[j]);
                assert(before + numeric_prefix(rest@.skip(j as int)) =~= digits@ + numeric_prefix(
                    rest@.skip(j + 1),
                ));
                j += 1;
            }
            proof {
                if j < rest@.len() {
                    assert(rest@.skip(j as int)[0] == rest@[j as int]);
                }
            }
            assert(digits@ + Seq::<char>::empty() =~= digits@);
            Some(string_of(&digits))
        },
        None => None,
    };
    (vcp, cur)
}

// ---------------------------------------------------------------------------
// Commands
// ---------------------------------------------------------------------------
/// The decimal numeral of an integer, with a `-` where it is negative.
pub open spec fn int_str(n: int) -> Seq<char> {
    if n < 0 {
        "-"@ + dec_str((-n) as nat)
    } else {
        dec_str(n as nat)
    }
}

/// The decimal numeral of `n`.
pub fn i32_chars(n: i32) -> (r: Vec<char>)
    ensures
        r@ == int_str(n as int),
{
    if n < 0 {
        let m: i64 = -(n as i64);
        let d = dec_chars(m as u64);
        let minus = chars_of("-");
        concat_chars(&minus, &d)
    } else {
        dec_chars(n as u64)
    }
}

fn text(s: &str) -> (r: String)
    ensures
        r@ == s@,
{
    let c = chars_of(s);
    string_of(&c)
}

fn percent_text(n: i32) -> (r: String)
    ensures
        r@ == int_str(n as int) + "%"@,
{
    let d = i32_chars(n);
    let p = chars_of("%");
    let c = concat_chars(&d, &p);
    string_of(&c)
}

pub open spec fn strs_view(v: Seq<String>) -> Seq<Seq<char>> {
    v.map_values(|s: String| s@)
}

pub open spec fn commands_view(v: Seq<Vec<String>>) -> Seq<Seq<Seq<char>>> {
    v.map_values(|c: Vec<String>| strs_view(c@))
}

/// The commands that set the output volume to `percent`: through
/// PipeWire, PulseAudio and ALSA, and, for a volume above 0, the commands
/// that unmute each.
pub open spec fn volume_commands_spec(percent: int) -> Seq<Seq<Seq<char>>> {
    let p = int_str(percent) + "%"@;
    let set = seq![
        seq!["wpctl"@, "set-volume"@, "@DEFAULT_AUDIO_SINK@"@, p],
        seq!["pactl"@, "set-sink-volume"@, "@DEFAULT_SINK@"@, p],
        seq!["amixer"@, "set"@, "Master"@, p],
    ];
    if percent > 0 {
        set + seq![
            seq!["wpctl"@, "set-mute"@, "@DEFAULT_AUDIO_SINK@"@, "0"@],
            seq!["pactl"@, "set-sink-mute"@, "@DEFAULT_SINK@"@, "0"@],
            seq!["amixer"@, "set"@, "Master"@, "unmute"@],
        ]
    } else {
        set
    }
}

fn command4(a: &str, b: &str, c: &str, d: String) -> (r: Vec<String>)
    ensures
        strs_view(r@) == seq![a@, b@, c@, d@],
{
    let mut r: Vec<String> = Vec::new();
    r.push(text(a));
    r.push(text(b));
    r.push(text(c));
    r.push(d);
    assert(strs_view(r@) =~= seq![a@, b@, c@, d@]);
    r
}

/// The commands that set the output volume to `percent` (see
/// `volume_commands_spec`), each a program and its arguments.
pub fn volume_commands(percent: i32) -> (r: Vec<Vec<String>>)
    ensures
        commands_view(r@) == volume_commands_spec(percent as int),
{
    let mut r: Vec<Vec<String>> = Vec::new();
    r.push(command4("wpctl", "set-volume", "@DEFAULT_AUDIO_SINK@", percent_text(percent)));
    r.push(command4("pactl", "set-sink-volume", "@DEFAULT_SINK@", percent_text(percent)));
    r.push(command4("amixer", "set", "Master", percent_text(percent)));
    if percent > 0 {
        r.push(command4("wpctl", "set-mute", "@DEFAULT_AUDIO_SINK@", text("0")));
        r.push(command4("pactl", "set-sink-mute", "@DEFAULT_SINK@", text("0")));
        r.push(command4("amixer", "set", "Master", text("unmute")));
    }
    assert(commands_view(r@) =~= volume_commands_spec(percent as int));
    r
}

/// Where a new brightness goes.
pub enum BrightnessTarget {
    /// Run this backlight command.
    Backlight { command: Vec<String> },
    /// Hand the value to the DDC/CI worker.
    Ddc { percent: i32 },
}

/// Where a brightness of `percent` goes: the backlight through
/// `brightnessctl set N%` where the machine has one, else the external
/// monitor through DDC/CI.
pub fn brightness_target(has_backlight: bool, percent: i32) -> (r: BrightnessTarget)
    ensures
        match r {
            BrightnessTarget::Backlight { command } => has_backlight && strs_view(command@) == seq![
                "brightnessctl"@,
                "set"@,
                int_str(percent as int) + "%"@,
            ],
            BrightnessTarget::Ddc { percent: p } => !has_backlight && p == percent,
        },
{
    if has_backlight {
        let mut c: Vec<String> = Vec::new();
        c.push(text("brightnessctl"));
        c.push(text("set"));
        c.push(percent_text(percent));
        assert(strs_view(c@) =~= seq!["brightnessctl"@, "set"@, int_str(percent as int) + "%"@]);
        BrightnessTarget::Backlight { command: c }
    } else {
        BrightnessTarget::Ddc { percent }
    }
}

/// The value a DDC/CI write sets: of the values waiting, the latest.
pub fn latest_value(first: i32, pending: &Vec<i32>) -> (r: i32)
    ensures
        r == if pending@.len() > 0 {
            pending@.last()
        } else {
            first
        },
{
    if pending.len() > 0 {
        pending[pending.len() - 1]
    } else {
        first
    }
}

/// The `ddcutil` arguments that select the bus, where one is known.
pub open spec fn bus_args(bus: Option<u32>) -> Seq<Seq<char>> {
    match bus {
        Some(b) => seq!["--bus"@, dec_str(b as nat)],
        None => Seq::empty(),
    }
}

/// The `ddcutil` arguments of a DDC/CI brightness read on `bus`.
pub open spec fn ddc_get_spec(bus: Option<u32>) -> Seq<Seq<char>> {
    bus_args(bus) + seq![
        "--sleep-multiplier"@,
        "0.1"@,
        "--disable-dynamic-sleep"@,
        "getvcp"@,
        "10"@,
        "--terse"@,
    ]
}

/// The `ddcutil` arguments of a DDC/CI brightness write of `value`.
pub open spec fn ddc_set_spec(bus: Option<u32>, value: i32) -> Seq<Seq<char>> {
    bus_args(bus) + seq![
        "--sleep-multiplier"@,
        "0.1"@,
        "--disable-dynamic-sleep"@,
        "setvcp"@,
        "10"@,
        int_str(value as int),
    ]
}

fn push_text(v: &mut Vec<String>, s: &str)
    ensures
        strs_view(final(v)@) == strs_view(old(v)@).push(s@),
{
    let ghost before = v@;
    v.push(text(s));
    assert(strs_view(v@) =~= strs_view(before).push(s@));
}

fn bus_args_exec(bus: Option<u32>) -> (r: Vec<String>)
    ensures
        strs_view(r@) == bus_args(bus),
{
    let mut r: Vec<String> = Vec::new();
    if let Some(b) = bus {
        r.push(text("--bus"));
        let d = dec_chars(b as u64);
        r.push(string_of(&d));
        assert(strs_view(r@) =~= seq!["--bus"@, dec_str(b as nat)]);
    } else {
        assert(strs_view(r@) =~= Seq::<Seq<char>>::empty());
    }
    r
}

/// The `ddcutil` arguments of a brightness read (see `ddc_get_spec`).
pub fn ddc_get_args(bus: Option<u32>) -> (r: Vec<String>)
    ensures
        strs_view(r@) == ddc_get_spec(bus),
{
    let mut r = bus_args_exec(bus);
    let ghost b = strs_view(r@);
    push_text(&mut r, "--sleep-multiplier");
    push_text(&mut r, "0.1");
    push_text(&mut r, "--disable-dynamic-sleep");
    push_text(&mut r, "getvcp");
    push_text(&mut r, "10");
    push_text(&mut r, "--terse");
    assert(strs_view(r@) =~= ddc_get_spec(bus));
    r
}

/// The `ddcutil` arguments of a brightness write (see `ddc_set_spec`).
pub fn ddc_set_args(bus: Option<u32>, value: i32) -> (r: Vec<String>)
    ensures
        strs_view(r@) == ddc_set_spec(bus, value),
{
    let mut r = bus_args_exec(bus);
    push_text(&mut r, "--sleep-multiplier");
    push_text(&mut r, "0.1");
    push_text(&mut r, "--disable-dynamic-sleep");
    push_text(&mut r, "setvcp");
    push_text(&mut r, "10");
    let ghost before = r@;
    let v = i32_chars(value);
    r.push(string_of(&v));
    assert(strs_view(r@) =~= strs_view(before).push(int_str(value as int)));
    assert(strs_view(r@) =~= ddc_set_spec(bus, value));
    r
}

/// The next step of the search for the monitor's DDC/CI bus: buses 0 to 8
/// are tried in order, and the first that answers is taken.
#[derive(Clone, Copy, Debug, PartialEq, Eq, Structural)]
pub enum DdcProbe {
    /// The bus answered: use it.
    Found(u32),
    /// Try this bus next.
    Next(u32),
    /// No bus answered: keep the bus in use.
    GiveUp,
}

/// What follows the probe of `bus` (at most 8), given whether it answered.
pub fn ddc_probe_step(bus: u32, answered: bool) -> (r: DdcProbe)
    requires
        bus <= 8,
    ensures
        r == if answered {
            DdcProbe::Found(bus)
        } else if bus < 8 {
            DdcProbe::Next((bus + 1) as u32)
        } else {
            DdcProbe::GiveUp
        },
{
    if answered {
        DdcProbe::Found(bus)
    } else if bus < 8 {
        DdcProbe::Next(bus + 1)
    } else {
        DdcProbe::GiveUp
    }
}


// ---------------------------------------------------------------------------
// Toggle tiles
// ---------------------------------------------------------------------------
/// A tile's state after a press: whether it is now on, its icon and icon
/// colour, and the commands that switch the feature.
pub struct TileToggle {
    pub active: bool,
    pub icon: String,
    pub icon_color: String,
    pub commands: Vec<Vec<String>>,
}

/// The icon colour of a tile: white when on, dimmed when off.
pub open spec fn tile_color(active: bool, dimmed: Seq<char>) -> Seq<char> {
    if active {
        "#ffffff"@
    } else {
        dimmed
    }
}

fn cmd2(a: &str, b: &str) -> (r: Vec<String>)
    ensures
        strs_view(r@) == seq![a@, b@],
{
    let mut r: Vec<String> = Vec::new();
    push_text(&mut r, a);
    push_text(&mut r, b);
    assert(strs_view(r@) =~= seq![a@, b@]);
    r
}

fn cmd3(a: &str, b: &str, c: &str) -> (r: Vec<String>)
    ensures
        strs_view(r@) == seq![a@, b@, c@],
{
    let mut r: Vec<String> = Vec::new();
    push_text(&mut r, a);
    push_text(&mut r, b);
    push_text(&mut r, c);
    assert(strs_view(r@) =~= seq![a@, b@, c@]);
    r
}

fn cmd4(a: &str, b: &str, c: &str, d: &str) -> (r: Vec<String>)
    ensures
        strs_view(r@) == seq![a@, b@, c@, d@],
{
    let mut r: Vec<String> = Vec::new();
    push_text(&mut r, a);
    push_text(&mut r, b);
    push_text(&mut r, c);
    push_text(&mut r, d);
    assert(strs_view(r@) =~= seq![a@, b@, c@, d@]);
    r
}

fn cmd5(a: &str, b: &str, c: &str, d: &str, e: &str) -> (r: Vec<String>)
    ensures
        strs_view(r@) == seq![a@, b@, c@, d@, e@],
{
    let mut r: Vec<String> = Vec::new();
    push_text(&mut r, a);
    push_text(&mut r, b);
    push_text(&mut r, c);
    push_text(&mut r, d);
    push_text(&mut r, e);
    assert(strs_view(r@) =~= seq![a@, b@, c@, d@, e@]);
    r
}

fn push_cmd(v: &mut Vec<Vec<String>>, c: Vec<String>)
    ensures
        commands_view(final(v)@) == commands_view(old(v)@).push(strs_view(c@)),
{
    let ghost before = v@;
    v.push(c);
    assert(commands_view(v@) =~= commands_view(before).push(strs_view(c@)));
}

/// The commands that pause notifications (`enable`) or resume them, for
/// both notification daemons.
pub open spec fn dnd_commands_spec(enable: bool) -> Seq<Seq<Seq<char>>> {
    if enable {
        seq![seq!["dunstctl"@, "set-paused"@, "true"@], seq!["makoctl"@, "mode"@, "-a"@, "dnd"@]]
    } else {
        seq![seq!["dunstctl"@, "set-paused"@, "false"@], seq!["makoctl"@, "mode"@, "-r"@, "dnd"@]]
    }
}

/// Pressing the do-not-disturb tile while it is `active` (or not): it
/// turns off (or on), with the bell icon (or the crossed-out bell), and
/// the notification daemons are told.
pub fn toggle_dnd(active: bool) -> (r: TileToggle)
    ensures
        r.active == !active,
        r.icon@ == if r.active {
            "bell-off"@
        } else {
            "bell"@
        },
        r.icon_color@ == tile_color(r.active, "rgba(255, 255, 255, 0.7)"@),
        commands_view(r.commands@) == dnd_commands_spec(r.active),
{
    let mut commands: Vec<Vec<String>> = Vec::new();
    if active {
        push_cmd(&mut commands, cmd3("dunstctl", "set-paused", "false"));
        push_cmd(&mut commands, cmd4("makoctl", "mode", "-r", "dnd"));
        assert(commands_view(commands@) =~= dnd_commands_spec(false));
        TileToggle {
            active: false,
            icon: text("bell"),
            icon_color: text("rgba(255, 255, 255, 0.7)"),
            commands,
        }
    } else {
        push_cmd(&mut commands, cmd3("dunstctl", "set-paused", "true"));
        push_cmd(&mut commands, cmd4("makoctl", "mode", "-a", "dnd"));
        assert(commands_view(commands@) =~= dnd_commands_spec(true));
        TileToggle { active: true, icon: text("bell-off"), icon_color: text("#ffffff"), commands }
    }
}

/// The commands that start a warm screen (`enable`) or stop it, with
/// either of the two colour-temperature tools.
pub open spec fn night_light_commands_spec(enable: bool) -> Seq<Seq<Seq<char>>> {
    if enable {
        seq![
            seq!["gammastep"@, "-O"@, "4000"@, "-l"@, "0:0"@],
            seq!["wlsunset"@, "-t"@, "4000"@, "-T"@, "6500"@],
        ]
    } else {
        seq![seq!["pkill"@, "-x"@, "gammastep"@], seq!["pkill"@, "-x"@, "wlsunset"@]]
    }
}

/// Whether the night light is on: either colour-temperature tool runs.
pub fn night_light_active(gammastep_running: bool, wlsunset_running: bool) -> (b: bool)
    ensures
        b == (gammastep_running || wlsunset_running),
{
    gammastep_running || wlsunset_running
}

/// Pressing the night-light tile while it is `active` (or not): the tools
/// are stopped (or started at 4000 K).
pub fn toggle_night_light(active: bool) -> (r: TileToggle)
    ensures
        r.active == !active,
        r.icon@ == "night-light"@,
        r.icon_color@ == tile_color(r.active, "rgba(255, 255, 255, 0.8)"@),
        commands_view(r.commands@) == night_light_commands_spec(r.active),
{
    let mut commands: Vec<Vec<String>> = Vec::new();
    if active {
        push_cmd(&mut commands, cmd3("pkill", "-x", "gammastep"));
        push_cmd(&mut commands, cmd3("pkill", "-x", "wlsunset"));
        assert(commands_view(commands@) =~= night_light_commands_spec(false));
        TileToggle {
            active: false,
            icon: text("night-light"),
            icon_color: text("rgba(255, 255, 255, 0.8)"),
            commands,
        }
    } else {
        push_cmd(&mut commands, cmd5("gammastep", "-O", "4000", "-l", "0:0"));
        push_cmd(&mut commands, cmd5("wlsunset", "-t", "4000", "-T", "6500"));
        assert(commands_view(commands@) =~= night_light_commands_spec(true));
        TileToggle {
            active: true,
            icon: text("night-light"),
            icon_color: text("#ffffff"),
            commands,
        }
    }
}

/// Pressing the dark-mode tile while the theme is dark (or not): the
/// other scheme is asked of the desktop settings, with the matching icon.
pub fn toggle_dark_mode(dark: bool) -> (r: TileToggle)
    ensures
        r.active == !dark,
        r.icon@ == if r.active {
            "dark-mode"@
        } else {
            "brightness"@
        },
        r.icon_color@ == tile_color(r.active, "rgba(255, 255, 255, 0.8)"@),
        commands_view(r.commands@) == seq![
            seq![
                "gsettings"@,
                "set"@,
                "org.gnome.desktop.interface"@,
                "color-scheme"@,
                if r.active {
                    "prefer-dark"@
                } else {
                    "prefer-light"@
                },
            ],
        ],
{
    let mut commands: Vec<Vec<String>> = Vec::new();
    if dark {
        push_cmd(
            &mut commands,
            cmd5("gsettings", "set", "org.gnome.desktop.interface", "color-scheme", "prefer-light"),
        );
        let r = TileToggle {
            active: false,
            icon: text("brightness"),
            icon_color: text("rgba(255, 255, 255, 0.8)"),
            commands,
        };
        assert(commands_view(r.commands@) =~= seq![
            seq![
                "gsettings"@,
                "set"@,
                "org.gnome.desktop.interface"@,
                "color-scheme"@,
                "prefer-light"@,
            ],
        ]);
        r
    } else {
        push_cmd(
            &mut commands,
            cmd5("gsettings", "set", "org.gnome.desktop.interface", "color-scheme", "prefer-dark"),
        );
        let r = TileToggle {
            active: true,
            icon: text("dark-mode"),
            icon_color: text("#ffffff"),
            commands,
        };
        assert(commands_view(r.commands@) =~= seq![
            seq![
                "gsettings"@,
                "set"@,
                "org.gnome.desktop.interface"@,
                "color-scheme"@,
                "prefer-dark"@,
            ],
        ]);
        r
    }
}

/// A power action of the panel and the launcher.
#[derive(Clone, Copy, Debug, PartialEq, Eq, Structural)]
pub enum PowerAction {
    PowerOff,
    Reboot,
    Suspend,
    LogOut,
}

/// The command of a power action: `systemctl poweroff`, `reboot` or
/// `suspend`; logging out ends the session of `user` (`$USER`), and does
/// nothing where it is unset.
pub open spec fn power_command_spec(action: PowerAction, user: Option<Seq<char>>) -> Option<
    Seq<Seq<char>>,
> {
    match action {
        PowerAction::PowerOff => Some(seq!["systemctl"@, "poweroff"@]),
        PowerAction::Reboot => Some(seq!["systemctl"@, "reboot"@]),
        PowerAction::Suspend => Some(seq!["systemctl"@, "suspend"@]),
        PowerAction::LogOut => match user {
            Some(u) => Some(seq!["loginctl"@, "terminate-user"@, u]),
            None => None,
        },
    }
}

/// The command of a power action (see `power_command_spec`).
pub fn power_command(action: PowerAction, user: Option<&str>) -> (r: Option<Vec<String>>)
    ensures
        match r {
            Some(c) => power_command_spec(
                action,
                match user {
                    Some(u) => Some(u@),
                    None => None,
                },
            ) == Some(strs_view(c@)),
            None => power_command_spec(
                action,
                match user {
                    Some(u) => Some(u@),
                    None => None,
                },
            ) is None,
        },
{
    match action {
        PowerAction::PowerOff => Some(cmd2("systemctl", "poweroff")),
        PowerAction::Reboot => Some(cmd2("systemctl", "reboot")),
        PowerAction::Suspend => Some(cmd2("systemctl", "suspend")),
        PowerAction::LogOut => match user {
            Some(u) => Some(cmd3("loginctl", "terminate-user", u)),
            None => None,
        },
    }
}

} // verus!
