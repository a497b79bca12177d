//! Audio state from `wpctl` and `pactl`: the output and input devices of
//! `wpctl status`, and whether the default output is muted.
use vstd::prelude::*;

use crate::text::{
    chars_eq_str, chars_of, contains, contains_exec, find, find_char, is_digit, lines, rfind,
    rfind_char, skip_chars, split_lines, string_of, take_chars, trim, trim_chars,
};

verus! {

/// An audio device: its id, description, and whether it is the default.
pub struct AudioDevice {
    pub name: String,
    pub description: String,
    pub is_default: bool,
}

pub struct AudioDeviceView {
    pub name: Seq<char>,
    pub description: Seq<char>,
    pub is_default: bool,
}

impl View for AudioDevice {
    type V = AudioDeviceView;

    open spec fn view(&self) -> AudioDeviceView {
        AudioDeviceView {
            name: self.name@,
            description: self.description@,
            is_default: self.is_default,
        }
    }
}

/// The box-drawing characters of the `wpctl status` tree.
pub open spec fn is_tree_char(c: char) -> bool {
    c == '│' || c == '├' || c == '└' || c == '─'
}

/// `s` without its box-drawing characters.
pub open spec fn strip_tree(s: Seq<char>) -> Seq<char>
    decreases s.len(),
{
    if s.len() == 0 {
        s
    } else if is_tree_char(s.last()) {
        strip_tree(s.drop_last())
    } else {
        strip_tree(s.drop_last()).push(s.last())
    }
}

/// Every character of `s` is a decimal digit.
pub open spec fn digits_only(s: Seq<char>) -> bool {
    forall|i: int| 0 <= i < s.len() ==> is_digit(#[trigger] s[i])
}

/// The device a line of a device section describes: after the tree
/// characters are removed and the line trimmed, an optional `*` (marking
/// the default), then a numeric id, a `.`, and a description from which a
/// trailing `[...]` note is cut; both id and description must be
/// non-empty.
pub open spec fn device_line(line: Seq<char>) -> Option<AudioDeviceView> {
    let t = trim(strip_tree(line));
    let is_default = t.len() > 0 && t[0] == '*';
    let body = if is_default {
        trim(t.drop_first())
    } else {
        t
    };
    if t.len() == 0 {
        None
    } else {
        match find(body, seq!['.']) {
            Some(dot) => {
                let id = body.take(dot);
                if digits_only(id) {
                    let d0 = trim(body.skip(dot + 1));
                    let desc = match rfind(d0, seq!['[']) {
                        Some(b) => trim(d0.take(b)),
                        None => d0,
                    };
                    if id.len() > 0 && desc.len() > 0 {
                        Some(AudioDeviceView { name: id, description: desc, is_default })
                    } else {
                        None
                    }
                } else {
                    None
                }
            },
            None => None,
        }
    }
}

/// A line that names a section of the status: `Sinks:`, `Sources:`, or one
/// of the sections that end them.
pub open spec fn section_of(trimmed: Seq<char>) -> Option<(bool, bool)> {
    if contains(trimmed, "Sinks:"@) {
        Some((true, false))
    } else if contains(trimmed, "Sources:"@) {
        Some((false, true))
    } else if contains(trimmed, "Devices:"@) || contains(trimmed, "Filters:"@) || contains(
        trimmed,
        "Streams:"@,
    ) || contains(trimmed, "Settings:"@) {
        Some((false, false))
    } else {
        None
    }
}

/// Reading the status line by line: inside the sinks section, inside the
/// sources section, and the devices found in the wanted one.
pub open spec fn device_scan(ls: Seq<Seq<char>>, sources: bool) -> (bool, bool, Seq<AudioDeviceView>)
    decreases ls.len(),
{
    if ls.len() == 0 {
        (false, false, Seq::empty())
    } else {
        let (sinks, srcs, found) = device_scan(ls.drop_last(), sources);
        let line = ls.last();
        match section_of(trim(line)) {
            Some((a, b)) => (a, b, found),
            None => {
                let active = if sources {
                    srcs
                } else {
                    sinks
                };
                if !active {
                    (sinks, srcs, found)
                } else {
                    match device_line(line) {
                        Some(d) => (sinks, srcs, found.push(d)),
                        None => (sinks, srcs, found),
                    }
                }
            },
        }
    }
}

/// The output (or, with `is_source`, input) devices listed by
/// `wpctl status`.
pub open spec fn audio_devices(status: Seq<char>, is_source: bool) -> Seq<AudioDeviceView> {
    device_scan(lines(status), is_source).2
}

fn strip_tree_exec(s: &[char]) -> (r: Vec<char>)
    ensures
        r@ == strip_tree(s@),
{
    let mut r: Vec<char> = Vec::new();
    let mut i: usize = 0;
    while i < s.len()
        invariant
            i <= s@.len(),
            r@ == strip_tree(s@.take(i as int)),
        decreases s@.len() - i,
    {
        assert(s@.take(i + 1).drop_last() =~= s@.take(i as int));
        let c = s[i];
        if !(c == '│' || c == '├' || c == '└' || c == '─') {
            r.push(c);
        }
        i += 1;
    }
    assert(s@.take(s@.len() as int) =~= s@);
    r
}

fn all_digits(s: &[char]) -> (r: bool)
    ensures
        r == digits_only(s@),
{
    let mut i: usize = 0;
    while i < s.len()
        invariant
            i <= s@.len(),
            forall|k: int| 0 <= k < i ==> is_digit(#[trigger] s@[k]),
        decreases s@.len() - i,
    {
        let c = s[i];
        if !('0' <= c && c <= '9') {
            assert(!is_digit(s@[i as int]));
            return false;
        }
        i += 1;
    }
    true
}

fn device_line_exec(line: &[char]) -> (r: Option<AudioDevice>)
    ensures
        r matches Some(d) ==> device_line(line@) == Some(d@),
        r is None ==> device_line(line@) is None,
{
    let stripped = strip_tree_exec(line);
    let t = trim_chars(&stripped);
    if t.len() == 0 {
        return None;
    }
    let is_default = t[0] == '*';
    let body = if is_default {
        let rest = skip_chars(&t, 1);
        assert(t@.skip(1) =~= t@.drop_first());
        trim_chars(&rest)
    } else {
        t
    };
    match find_char(&body, '.') {
        Some(dot) => {
            let id = take_chars(&body, dot);
            if !all_digits(&id) {
                return None;
            }
            let after = skip_chars(&body, dot + 1);
            let d0 = trim_chars(&after);
            let desc = match rfind_char(&d0, '[') {
                Some(b) => {
                    let head = take_chars(&d0, b);
                    trim_chars(&head)
                },
                None => d0,
            };
            if id.len() > 0 && desc.len() > 0 {
                Some(
                    AudioDevice {
                        name: string_of(&id),
                        description: string_of(&desc),
                        is_default,
                    },
                )
            } else {
                None
            }
        },
        None => None,
    }
}

fn section_exec(t: &[char]) -> (r: Option<(bool, bool)>)
    ensures
        r == section_of(t@),
{
    if contains_exec(t, &chars_of("Sinks:")) {
        Some((true, false))
    } else if contains_exec(t, &chars_of("Sources:")) {
        Some((false, true))
    } else if contains_exec(t, &chars_of("Devices:")) || contains_exec(t, &chars_of("Filters:"))
        || contains_exec(t, &chars_of("Streams:")) || contains_exec(t, &chars_of("Settings:")) {
        Some((false, false))
    } else {
        None
    }
}

/// The output (or input, with `is_source`) devices of `wpctl status`
/// (empty when the command could not be run).
pub fn get_audio_devices(status: &str, is_source: bool) -> (r: Vec<AudioDevice>)
    ensures
        r@.map_values(|d: AudioDevice| d@) == audio_devices(status@, is_source),
{
    let cs = chars_of(status);
    let ls = split_lines(&cs);
    let ghost all = lines(status@);
    let mut sinks = false;
    let mut srcs = false;
    let mut found: Vec<AudioDevice> = Vec::new();
    let mut i: usize = 0;
    while i < ls.len()
        invariant
            ls@.len() == all.len(),
            all == lines(status@),
            forall|k: int| 0 <= k < ls@.len() ==> #[trigger] ls@[k]@ == all[k],
            i <= ls@.len(),
            (sinks, srcs, found@.map_values(|d: AudioDevice| d@)) == device_scan(
                all.take(i as int),
                is_source,
            ),
        decreases ls@.len() - i,
    {
        assert(all.take(i + 1).drop_last() =~= all.take(i as int));
        assert(all.take(i + 1).last() == all[i as int]);
        let line = &ls[i];
        let t = trim_chars(line);
        match section_exec(&t) {
            Some((a, b)) => {
                sinks = a;
                srcs = b;
            },
            None => {
                let active = if is_source {
                    srcs
                } else {
                    sinks
                };
                if active {
                    if let Some(d) = device_line_exec(line) {
                        let ghost prev = found@;
                        found.push(d);
                        assert(found@.map_values(|d: AudioDevice| d@) =~= prev.map_values(
                            |d: AudioDevice| d@,
                        ).push(d@));
                    }
                }
            },
        }
        i += 1;
    }
    assert(all.take(all.len() as int) =~= all);
    found
}

pub open spec fn opt_str_view(o: Option<&str>) -> Option<Seq<char>> {
    match o {
        Some(s) => Some(s@),
        None => None,
    }
}

/// Whether the default output is muted: `wpctl get-volume` reports
/// `[MUTED]`; where `wpctl` could not be run, `pactl get-sink-mute`
/// reports `Mute: yes`; where neither could be run, it is not.
pub open spec fn muted(wpctl: Option<Seq<char>>, pactl: Option<Seq<char>>) -> bool {
    match wpctl {
        Some(o) => contains(o, "[MUTED]"@),
        None => match pactl {
            Some(o) => contains(o, "Mute: yes"@),
            None => false,
        },
    }
}

/// Whether the default output is muted (see `muted`).
pub fn is_muted(wpctl_volume: Option<&str>, pactl_mute: Option<&str>) -> (r: bool)
    ensures
        r == muted(opt_str_view(wpctl_volume), opt_str_view(pactl_mute)),
{
    match wpctl_volume {
        Some(o) => contains_exec(&chars_of(o), &chars_of("[MUTED]")),
        None => match pactl_mute {
            Some(o) => contains_exec(&chars_of(o), &chars_of("Mute: yes")),
            None => false,
        },
    }
}


// ---------------------------------------------------------------------------
// The device menu
// ---------------------------------------------------------------------------
/// An entry of the device menu: the device, the colour of its icon, and
/// whether it carries the check mark of the default device.
pub struct MenuEntry {
    pub device: AudioDevice,
    pub icon_color: String,
    pub checked: bool,
}

/// The icon colour of a menu entry: white for the default device, dimmed
/// otherwise.
pub open spec fn entry_color(is_default: bool) -> Seq<char> {
    if is_default {
        "#ffffff"@
    } else {
        "rgba(255, 255, 255, 0.5)"@
    }
}

/// The entry for device `d`.
pub open spec fn entry_ok(e: MenuEntry, d: AudioDeviceView) -> bool {
    &&& e.device@ == d
    &&& e.icon_color@ == entry_color(d.is_default)
    &&& e.checked == d.is_default
}

/// The input devices the menu lists: all but the monitors of outputs.
pub open spec fn listed_inputs(ds: Seq<AudioDeviceView>) -> Seq<AudioDeviceView>
    decreases ds.len(),
{
    if ds.len() == 0 {
        Seq::empty()
    } else if contains(ds.last().name, ".monitor"@) {
        listed_inputs(ds.drop_last())
    } else {
        listed_inputs(ds.drop_last()).push(ds.last())
    }
}

/// The input menu never lists the monitor of an output, and lists every
/// other input device, in order.
pub proof fn law_inputs_without_monitors(ds: Seq<AudioDeviceView>)
    ensures
        forall|i: int|
            0 <= i < listed_inputs(ds).len() ==> !contains(
                (#[trigger] listed_inputs(ds)[i]).name,
                ".monitor"@,
            ),
        listed_inputs(ds).len() + monitors(ds) == ds.len(),
    decreases ds.len(),
{
    if ds.len() > 0 {
        law_inputs_without_monitors(ds.drop_last());
        let prev = listed_inputs(ds.drop_last());
        if !contains(ds.last().name, ".monitor"@) {
            assert forall|i: int| 0 <= i < listed_inputs(ds).len() implies !contains(
                (#[trigger] listed_inputs(ds)[i]).name,
                ".monitor"@,
            ) by {
                if i < prev.len() {
                    assert(listed_inputs(ds)[i] == prev[i]);
                }
            }
        }
    }
}

/// The number of monitors of outputs among `ds`.
pub open spec fn monitors(ds: Seq<AudioDeviceView>) -> nat
    decreases ds.len(),
{
    if ds.len() == 0 {
        0
    } else {
        monitors(ds.drop_last()) + if contains(ds.last().name, ".monitor"@) {
            1nat
        } else {
            0nat
        }
    }
}

fn make_entry(d: &AudioDevice) -> (e: MenuEntry)
    ensures
        entry_ok(e, d@),
{
    let color: &str = if d.is_default {
        "#ffffff"
    } else {
        "rgba(255, 255, 255, 0.5)"
    };
    MenuEntry {
        device: AudioDevice {
            name: d.name.clone(),
            description: d.description.clone(),
            is_default: d.is_default,
        },
        icon_color: string_of(&chars_of(color)),
        checked: d.is_default,
    }
}

pub open spec fn devices_view(v: Seq<AudioDevice>) -> Seq<AudioDeviceView> {
    v.map_values(|d: AudioDevice| d@)
}

/// The output section of the device menu: an entry per output device, in
/// order (the menu says that none was found where it is empty).
pub fn output_entries(sinks: &Vec<AudioDevice>) -> (r: Vec<MenuEntry>)
    ensures
        r@.len() == sinks@.len(),
        forall|i: int| 0 <= i < r@.len() ==> entry_ok(#[trigger] r@[i], sinks@[i]@),
{
    let mut r: Vec<MenuEntry> = Vec::new();
    let mut i: usize = 0;
    while i < sinks.len()
        invariant
            i <= sinks@.len(),
            r@.len() == i,
            forall|k: int| 0 <= k < i ==> entry_ok(#[trigger] r@[k], sinks@[k]@),
        decreases sinks@.len() - i,
    {
        r.push(make_entry(&sinks[i]));
        i += 1;
    }
    r
}

/// The input section of the device menu: an entry per input device that
/// is not the monitor of an output (its name holds `.monitor`), in order
/// (the menu says that none was found where it is empty).
pub fn input_entries(sources: &Vec<AudioDevice>) -> (r: Vec<MenuEntry>)
    ensures
        r@.len() == listed_inputs(devices_view(sources@)).len(),
        forall|i: int|
            0 <= i < r@.len() ==> entry_ok(
                #[trigger] r@[i],
                listed_inputs(devices_view(sources@))[i],
            ),
{
    let ghost dv = devices_view(sources@);
    let mut r: Vec<MenuEntry> = Vec::new();
    let mon = chars_of(".monitor");
    let mut i: usize = 0;
    assert(dv.take(0) =~= Seq::<AudioDeviceView>::empty());
    while i < sources.len()
        invariant
            i <= sources@.len(),
            dv == devices_view(sources@),
            mon@ == ".monitor"@,
            r@.len() == listed_inputs(dv.take(i as int)).len(),
            forall|k: int|
                0 <= k < r@.len() ==> entry_ok(#[trigger] r@[k], listed_inputs(dv.take(i as int))[k]),
        decreases sources@.len() - i,
    {
        assert(dv.take(i + 1).drop_last() =~= dv.take(i as int));
        assert(dv.take(i + 1).last() == sources@[i as int]@);
        let nc = chars_of(sources[i].name.as_str());
        if !contains_exec(&nc, &mon) {
            r.push(make_entry(&sources[i]));
        }
        i += 1;
    }
    assert(dv.take(sources@.len() as int) =~= dv);
    r
}

/// The command that makes the device `name` the default.
pub fn set_default_command(name: &str) -> (r: Vec<String>)
    ensures
        r@.len() == 3,
        r@[0]@ == "wpctl"@,
        r@[1]@ == "set-default"@,
        r@[2]@ == name@,
{
    let mut r: Vec<String> = Vec::new();
    r.push(string_of(&chars_of("wpctl")));
    r.push(string_of(&chars_of("set-default")));
    r.push(string_of(&chars_of(name)));
    r
}

/// The commands that toggle the mute of the default output, through
/// PipeWire, PulseAudio and ALSA.
pub fn toggle_mute_commands() -> (r: Vec<Vec<String>>)
    ensures
        r@.len() == 3,
        r@[0]@.len() == 4 && r@[0]@[0]@ == "wpctl"@ && r@[0]@[1]@ == "set-mute"@ && r@[0]@[2]@
            == "@DEFAULT_AUDIO_SINK@"@ && r@[0]@[3]@ == "toggle"@,
        r@[1]@.len() == 4 && r@[1]@[0]@ == "pactl"@ && r@[1]@[1]@ == "set-sink-mute"@ && r@[1]@[2]@
            == "@DEFAULT_SINK@"@ && r@[1]@[3]@ == "toggle"@,
        r@[2]@.len() == 4 && r@[2]@[0]@ == "amixer"@ && r@[2]@[1]@ == "set"@ && r@[2]@[2]@
            == "Master"@ && r@[2]@[3]@ == "toggle"@,
{
    let mut a: Vec<String> = Vec::new();
    a.push(string_of(&chars_of("wpctl")));
    a.push(string_of(&chars_of("set-mute")));
    a.push(string_of(&chars_of("@DEFAULT_AUDIO_SINK@")));
    a.push(string_of(&chars_of("toggle")));
    let mut b: Vec<String> = Vec::new();
    b.push(string_of(&chars_of("pactl")));
    b.push(string_of(&chars_of("set-sink-mute")));
    b.push(string_of(&chars_of("@DEFAULT_SINK@")));
    b.push(string_of(&chars_of("toggle")));
    let mut c: Vec<String> = Vec::new();
    c.push(string_of(&chars_of("amixer")));
    c.push(string_of(&chars_of("set")));
    c.push(string_of(&chars_of("Master")));
    c.push(string_of(&chars_of("toggle")));
    let mut r: Vec<Vec<String>> = Vec::new();
    r.push(a);
    r.push(b);
    r.push(c);
    r
}

// ---------------------------------------------------------------------------
// Slider rows
// ---------------------------------------------------------------------------
/// The parts of a slider row of the control center, by its icon.
pub struct SliderLayout {
    /// The row's title.
    pub title: String,
    /// The icon is a button that toggles the mute (volume only).
    pub mute_button: bool,
    /// A button opens the device menu (volume only).
    pub device_menu: bool,
}

/// The parts of the slider row with icon `icon_name`: `Volume` (with mute
/// button and device menu), `Brightness`, or a plain `Slider`.
pub fn slider_layout(icon_name: &str) -> (r: SliderLayout)
    ensures
        r.title@ == (if icon_name@ == "volume"@ {
            "Volume"@
        } else if icon_name@ == "brightness"@ {
            "Brightness"@
        } else {
            "Slider"@
        }),
        r.mute_button == (icon_name@ == "volume"@),
        r.device_menu == (icon_name@ == "volume"@),
{
    let ic = chars_of(icon_name);
    let is_volume = chars_eq_str(&ic, "volume");
    let title: &str = if is_volume {
        "Volume"
    } else if chars_eq_str(&ic, "brightness") {
        "Brightness"
    } else {
        "Slider"
    };
    SliderLayout { title: string_of(&chars_of(title)), mute_button: is_volume, device_menu: is_volume }
}

/// The icon of the volume row: the theme's muted-speaker icon while the
/// output is muted, else the bundled `volume` icon.
pub fn volume_row_icon(is_muted: bool) -> (r: (bool, &'static str))
    ensures
        r.0 == is_muted,
        r.1@ == if is_muted {
            "audio-volume-muted-symbolic"@
        } else {
            "volume"@
        },
{
    if is_muted {
        (true, "audio-volume-muted-symbolic")
    } else {
        (false, "volume")
    }
}

/// After a line naming a section other than the device lists (`Devices:`,
/// `Filters:`, `Streams:` or `Settings:`, and neither `Sinks:` nor
/// `Sources:`), the scan is outside both lists until a `Sinks:` or
/// `Sources:` line comes: it keeps the devices it had and adds none.
proof fn lemma_scan_after_end(ls: Seq<Seq<char>>, sources: bool, p: int, q: int)
    requires
        0 <= p < q <= ls.len(),
        !contains(trim(ls[p]), "Sinks:"@),
        !contains(trim(ls[p]), "Sources:"@),
        contains(trim(ls[p]), "Devices:"@) || contains(trim(ls[p]), "Filters:"@) || contains(
            trim(ls[p]),
            "Streams:"@,
        ) || contains(trim(ls[p]), "Settings:"@),
        forall|k: int|
            p < k < q ==> !contains(trim(#[trigger] ls[k]), "Sinks:"@) && !contains(
                trim(ls[k]),
                "Sources:"@,
            ),
    ensures
        !device_scan(ls.take(q), sources).0,
        !device_scan(ls.take(q), sources).1,
        device_scan(ls.take(q), sources).2 == device_scan(ls.take(p + 1), sources).2,
    decreases q - p,
{
    if q == p + 1 {
        assert(ls.take(q).last() == ls[p]);
    } else {
        lemma_scan_after_end(ls, sources, p, q - 1);
        assert(ls.take(q).drop_last() =~= ls.take(q - 1));
        assert(ls.take(q).last() == ls[q - 1]);
        assert(!contains(trim(ls[q - 1]), "Sinks:"@) && !contains(trim(ls[q - 1]), "Sources:"@));
    }
}

/// No device listed after a line naming another section (`Devices:`,
/// `Filters:`, `Streams:` or `Settings:`, and neither `Sinks:` nor
/// `Sources:`) is returned until a `Sinks:` or `Sources:` line opens a
/// device list again: the devices found in the first `q` lines are those
/// found up to that line. In particular, where no `Sinks:` or `Sources:`
/// line follows it, the devices of the whole status are those found up to
/// it (a `Streams:` section lists playback streams, not devices).
pub proof fn law_other_sections_end_devices(
    status: Seq<char>,
    sources: bool,
    p: int,
    q: int,
)
    requires
        0 <= p < q <= lines(status).len(),
        !contains(trim(lines(status)[p]), "Sinks:"@),
        !contains(trim(lines(status)[p]), "Sources:"@),
        contains(trim(lines(status)[p]), "Devices:"@) || contains(
            trim(lines(status)[p]),
            "Filters:"@,
        ) || contains(trim(lines(status)[p]), "Streams:"@) || contains(
            trim(lines(status)[p]),
            "Settings:"@,
        ),
        forall|k: int|
            p < k < q ==> !contains(trim(#[trigger] lines(status)[k]), "Sinks:"@) && !contains(
                trim(lines(status)[k]),
                "Sources:"@,
            ),
    ensures
        device_scan(lines(status).take(q), sources).2 == device_scan(
            lines(status).take(p + 1),
            sources,
        ).2,
        q == lines(status).len() ==> audio_devices(status, sources) == device_scan(
            lines(status).take(p + 1),
            sources,
        ).2,
{
    let ls = lines(status);
    lemma_scan_after_end(ls, sources, p, q);
    assert(ls.take(ls.len() as int) =~= ls);
}

/// Whether a trimmed line names no section at all.
pub open spec fn no_header(t: Seq<char>) -> bool {
    !contains(t, "Sinks:"@) && !contains(t, "Sources:"@) && !contains(t, "Devices:"@) && !contains(
        t,
        "Filters:"@,
    ) && !contains(t, "Streams:"@) && !contains(t, "Settings:"@)
}

proof fn lemma_scan_inside(ls: Seq<Seq<char>>, sources: bool, p: int, q: int)
    requires
        0 <= p < q <= ls.len(),
        if sources {
            contains(trim(ls[p]), "Sources:"@) && !contains(trim(ls[p]), "Sinks:"@)
        } else {
            contains(trim(ls[p]), "Sinks:"@)
        },
        forall|k: int| p < k < q ==> no_header(trim(#[trigger] ls[k])),
    ensures
        if sources {
            device_scan(ls.take(q), sources).1
        } else {
            device_scan(ls.take(q), sources).0
        },
    decreases q - p,
{
    if q == p + 1 {
        assert(ls.take(q).last() == ls[p]);
    } else {
        lemma_scan_inside(ls, sources, p, q - 1);
        assert(ls.take(q).drop_last() =~= ls.take(q - 1));
        assert(ls.take(q).last() == ls[q - 1]);
        assert(no_header(trim(ls[q - 1])));
    }
}

/// Inside the wanted list every device line is returned, in order: after
/// a `Sinks:` line (for outputs) or a `Sources:` line (for inputs, the
/// line not naming `Sinks:`), with no section named in between, a line
/// that describes a device and names no section adds that device.
pub proof fn law_device_inside_section_returned(
    ls: Seq<Seq<char>>,
    sources: bool,
    p: int,
    k: int,
)
    requires
        0 <= p < k < ls.len(),
        if sources {
            contains(trim(ls[p]), "Sources:"@) && !contains(trim(ls[p]), "Sinks:"@)
        } else {
            contains(trim(ls[p]), "Sinks:"@)
        },
        forall|j: int| p < j <= k ==> no_header(trim(#[trigger] ls[j])),
        device_line(ls[k]) is Some,
    ensures
        device_scan(ls.take(k + 1), sources).2 == device_scan(ls.take(k), sources).2.push(
            device_line(ls[k])->0,
        ),
{
    lemma_scan_inside(ls, sources, p, k);
    assert(ls.take(k + 1).drop_last() =~= ls.take(k));
    assert(ls.take(k + 1).last() == ls[k]);
    assert(no_header(trim(ls[k])));
}

} // verus!
