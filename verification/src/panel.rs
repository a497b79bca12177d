//! The panel's pop-up windows, its clock label, and the tracking of the
//! focused window, whose pictures the window switcher shows.
use vstd::prelude::*;

use crate::paths::{clock_time_shape, day_month_shape, local_time_texts, time_pattern};
use crate::text::{
    chars_eq_str, chars_of, ends_with, ends_with_exec, find, find_char, lines, skip_chars,
    split_lines, string_of, take_chars, trim, trim_chars, concat_chars, to_uppercase_str, uppercase,
};

verus! {

// ---------------------------------------------------------------------------
// Pop-up windows
// ---------------------------------------------------------------------------
/// Which of the panel's pop-up windows are open.
#[derive(Clone, Copy, Debug, PartialEq, Eq, Structural)]
pub struct Popups {
    pub launcher: bool,
    pub control_center: bool,
    pub calendar: bool,
}

/// The panel buttons that open pop-up windows.
#[derive(Clone, Copy, Debug, PartialEq, Eq, Structural)]
pub enum PanelButton {
    /// The logo: the application launcher.
    Logo,
    /// The status indicators: the control center.
    Status,
    /// The clock: the calendar.
    Clock,
}

/// The pop-up windows open after pressing `b`: the logo closes the control
/// center and the calendar and toggles the launcher; the status indicators
/// close the launcher and the calendar and toggle the control center; the
/// clock closes the control center and toggles the calendar.
pub open spec fn popups_after(p: Popups, b: PanelButton) -> Popups {
    match b {
        PanelButton::Logo => Popups { launcher: !p.launcher, control_center: false, calendar: false },
        PanelButton::Status => Popups {
            launcher: false,
            control_center: !p.control_center,
            calendar: false,
        },
        PanelButton::Clock => Popups {
            launcher: p.launcher,
            control_center: false,
            calendar: !p.calendar,
        },
    }
}

/// The windows to close and the one to open when `b` is pressed.
#[derive(Clone, Copy, Debug, PartialEq, Eq, Structural)]
pub struct PopupChange {
    pub close_launcher: bool,
    pub close_control_center: bool,
    pub close_calendar: bool,
    pub open_launcher: bool,
    pub open_control_center: bool,
    pub open_calendar: bool,
}

/// The change pressing `b` makes to the open windows `p`: every window
/// that is open and is not open afterwards is closed, every window that
/// is closed and is open afterwards is opened.
pub fn press_button(p: Popups, b: PanelButton) -> (r: (PopupChange, Popups))
    ensures
        r.1 == popups_after(p, b),
        r.0.close_launcher == (p.launcher && !r.1.launcher),
        r.0.close_control_center == (p.control_center && !r.1.control_center),
        r.0.close_calendar == (p.calendar && !r.1.calendar),
        r.0.open_launcher == (!p.launcher && r.1.launcher),
        r.0.open_control_center == (!p.control_center && r.1.control_center),
        r.0.open_calendar == (!p.calendar && r.1.calendar),
{
    let next = match b {
        PanelButton::Logo => Popups { launcher: !p.launcher, control_center: false, calendar: false },
        PanelButton::Status => Popups {
            launcher: false,
            control_center: !p.control_center,
            calendar: false,
        },
        PanelButton::Clock => Popups {
            launcher: p.launcher,
            control_center: false,
            calendar: !p.calendar,
        },
    };
    let change = PopupChange {
        close_launcher: p.launcher && !next.launcher,
        close_control_center: p.control_center && !next.control_center,
        close_calendar: p.calendar && !next.calendar,
        open_launcher: !p.launcher && next.launcher,
        open_control_center: !p.control_center && next.control_center,
        open_calendar: !p.calendar && next.calendar,
    };
    (change, next)
}

/// The control center and the calendar are never open together after a
/// press, whatever was open before; nor are the launcher and the control
/// center.
pub proof fn law_panels_exclusive(p: Popups, b: PanelButton)
    ensures
        !(popups_after(p, b).control_center && popups_after(p, b).calendar),
        !(popups_after(p, b).launcher && popups_after(p, b).control_center),
{
}

/// Pressing the same button twice opens its window and closes it again
/// (or the reverse), and leaves the other two windows closed where the
/// button closes them.
pub proof fn law_press_twice(p: Popups, b: PanelButton)
    ensures
        popups_after(popups_after(p, b), b) == (match b {
            PanelButton::Logo => Popups { launcher: p.launcher, control_center: false, calendar: false },
            PanelButton::Status => Popups {
                launcher: false,
                control_center: p.control_center,
                calendar: false,
            },
            PanelButton::Clock => Popups {
                launcher: p.launcher,
                control_center: false,
                calendar: p.calendar,
            },
        }),
{
}

// ---------------------------------------------------------------------------
// The clock
// ---------------------------------------------------------------------------
/// The clock's label: the day and month, three spaces, and the time in
/// capitals.
pub open spec fn clock_label_of(date: Seq<char>, time: Seq<char>) -> Seq<char> {
    date + "   "@ + uppercase(time)
}

/// The clock's label from the day and month (`date`) and the time of day
/// (`time`) as written by the clock.
pub fn clock_label(date: &str, time: &str) -> (r: String)
    ensures
        r@ == clock_label_of(date@, time@),
{
    let up = to_uppercase_str(time);
    let d = chars_of(date);
    let gap = chars_of("   ");
    let u = chars_of(up.as_str());
    let dg = concat_chars(&d, &gap);
    let all = concat_chars(&dg, &u);
    string_of(&all)
}

/// The clock's label now, as the panel refreshes it every second: the
/// local day and month (`%d/%m`) and time (`%I:%M %p`), read from one
/// reading of the clock, joined as `clock_label_of` says.
pub fn clock_text() -> (r: String)
    ensures
        exists|date: Seq<char>, time: Seq<char>|
            day_month_shape(date) && clock_time_shape(time) && r@ == clock_label_of(date, time),
{
    let date_pattern: &str = "%d/%m";
    let time_pattern_text: &str = "%I:%M %p";
    let fmts: Vec<&str> = vec![date_pattern, time_pattern_text];
    assert(time_pattern(fmts@[0]@) && time_pattern(fmts@[1]@));
    let texts = local_time_texts(&fmts);
    assert(day_month_shape(texts@[0]@));
    assert(clock_time_shape(texts@[1]@));
    clock_label(texts[0].as_str(), texts[1].as_str())
}

// ---------------------------------------------------------------------------
// The focused window
// ---------------------------------------------------------------------------
/// The focused window from the listing of focused windows: the app id
/// before the first `:` of the first line and the title after it, both
/// trimmed; none where the app id is empty.
pub open spec fn focused_window(listing: Seq<char>) -> Option<(Seq<char>, Seq<char>)> {
    let ls = lines(listing);
    if ls.len() > 0 {
        match find(ls[0], seq![':']) {
            Some(p) => {
                let id = trim(ls[0].take(p));
                if id.len() > 0 {
                    Some((id, trim(ls[0].skip(p + 1))))
                } else {
                    None
                }
            },
            None => None,
        }
    } else {
        None
    }
}

/// The focused window (see `focused_window`); `listing` is `None` where the
/// lister could not be run.
pub fn get_focused_window(listing: Option<&str>) -> (r: Option<(String, String)>)
    ensures
        match listing {
            Some(l) => match r {
                Some((id, title)) => focused_window(l@) == Some((id@, title@)),
                None => focused_window(l@) is None,
            },
            None => r is None,
        },
{
    match listing {
        None => None,
        Some(l) => {
            let cs = chars_of(l);
            let ls = split_lines(&cs);
            if ls.len() == 0 {
                return None;
            }
            let first = &ls[0];
            match find_char(first, ':') {
                None => None,
                Some(p) => {
                    let head = take_chars(first, p);
                    let id = trim_chars(&head);
                    if id.len() > 0 {
                        assert(p < first.len());
                        let tail = skip_chars(first, p + 1);
                        let title = trim_chars(&tail);
                        Some((string_of(&id), string_of(&title)))
                    } else {
                        None
                    }
                },
            }
        },
    }
}

/// The switcher's own window, which is not tracked.
pub open spec fn is_switcher_id(id: Seq<char>) -> bool {
    id == "archvnde-switcher"@ || id == "org.archvnde.switcher"@
}

/// What the tracker asks for after a tick.
pub struct TrackerActions {
    /// Keep the picture taken of this window (app id, title) in the cache.
    pub save_capture: Option<(String, String)>,
    /// Remove the cached pictures of windows that are gone.
    pub clean_cache: bool,
    /// Take a picture of the screen now.
    pub take_screenshot: bool,
    /// The focused window changed: its time starts now.
    pub restart_timer: bool,
}

/// The tracking of the focused window: a picture of the screen is taken
/// once a window has kept the focus for five seconds, and kept for it when
/// the focus moves on or the switcher opens.
pub struct FocusTracker {
    pub current: Option<(String, String)>,
    pub screenshot_taken: bool,
}

pub open spec fn window_view(w: Option<(String, String)>) -> Option<(Seq<char>, Seq<char>)> {
    match w {
        Some((a, t)) => Some((a@, t@)),
        None => None,
    }
}

fn copy_window(w: &Option<(String, String)>) -> (r: Option<(String, String)>)
    ensures
        window_view(r) == window_view(*w),
{
    match w {
        Some((a, t)) => Some((a.clone(), t.clone())),
        None => None,
    }
}

fn same_window(a: &Option<(String, String)>, b: &Option<(String, String)>) -> (r: bool)
    ensures
        r == (window_view(*a) == window_view(*b)),
{
    match (a, b) {
        (Some((a1, t1)), Some((a2, t2))) => {
            let x1 = chars_of(a1.as_str());
            let x2 = chars_of(a2.as_str());
            let y1 = chars_of(t1.as_str());
            let y2 = chars_of(t2.as_str());
            crate::text::chars_eq(&x1, &x2) && crate::text::chars_eq(&y1, &y2)
        },
        (None, None) => true,
        _ => false,
    }
}

impl FocusTracker {
    /// No window tracked yet.
    pub fn new() -> (t: Self)
        ensures
            t.current is None,
            !t.screenshot_taken,
    {
        FocusTracker { current: None, screenshot_taken: false }
    }

    /// One tick (every half second). `switcher_open`: the switcher is
    /// open; `active`: the focused window; `held_5s`: the tracked window
    /// has had the focus for five seconds or more.
    ///
    /// While the switcher is open, the picture of the tracked window is
    /// kept and tracking starts over. The switcher's own window is passed
    /// over. When the focus moves, the picture of the window left is kept,
    /// the cache is cleaned, and the new window is tracked from now. A
    /// window that kept the focus for five seconds without a picture gets
    /// one.
    pub fn tick(&mut self, switcher_open: bool, active: Option<(String, String)>, held_5s: bool) -> (r:
        TrackerActions)
        ensures
            switcher_open ==> {
                &&& window_view(r.save_capture) == (if old(self).screenshot_taken {
                    window_view(old(self).current)
                } else {
                    None
                })
                &&& final(self).current is None && !final(self).screenshot_taken
                &&& !r.clean_cache && !r.take_screenshot && !r.restart_timer
            },
            !switcher_open && (active matches Some((id, _)) && is_switcher_id(id@)) ==> {
                &&& r.save_capture is None && !r.clean_cache && !r.take_screenshot
                    && !r.restart_timer
                &&& window_view(final(self).current) == window_view(old(self).current)
                &&& final(self).screenshot_taken == old(self).screenshot_taken
            },
            !switcher_open && !(active matches Some((id, _)) && is_switcher_id(id@)) && window_view(
                active,
            ) != window_view(old(self).current) ==> {
                &&& window_view(r.save_capture) == (if old(self).screenshot_taken {
                    window_view(old(self).current)
                } else {
                    None
                })
                &&& r.clean_cache && r.restart_timer && !r.take_screenshot
                &&& window_view(final(self).current) == window_view(active)
                &&& !final(self).screenshot_taken
            },
            !switcher_open && !(active matches Some((id, _)) && is_switcher_id(id@)) && window_view(
                active,
            ) == window_view(old(self).current) ==> {
                &&& r.save_capture is None && !r.clean_cache && !r.restart_timer
                &&& r.take_screenshot == (old(self).current is Some && !old(self).screenshot_taken
                    && held_5s)
                &&& window_view(final(self).current) == window_view(old(self).current)
                &&& final(self).screenshot_taken == old(self).screenshot_taken
            },
    {
        let none = TrackerActions {
            save_capture: None,
            clean_cache: false,
            take_screenshot: false,
            restart_timer: false,
        };
        if switcher_open {
            let save = if self.screenshot_taken {
                copy_window(&self.current)
            } else {
                None
            };
            self.current = None;
            self.screenshot_taken = false;
            return TrackerActions { save_capture: save, ..none };
        }
        let is_switcher = match &active {
            Some((id, _)) => {
                let ic = chars_of(id.as_str());
                chars_eq_str(&ic, "archvnde-switcher") || chars_eq_str(&ic, "org.archvnde.switcher")
            },
            None => false,
        };
        if is_switcher {
            return none;
        }
        if !same_window(&active, &self.current) {
            let save = if self.screenshot_taken {
                copy_window(&self.current)
            } else {
                None
            };
            self.current = active;
            self.screenshot_taken = false;
            return TrackerActions {
                save_capture: save,
                clean_cache: true,
                take_screenshot: false,
                restart_timer: true,
            };
        }
        let take = self.current.is_some() && !self.screenshot_taken && held_5s;
        TrackerActions { take_screenshot: take, ..none }
    }

    /// The picture asked for was taken (or not).
    pub fn screenshot_result(&mut self, success: bool)
        ensures
            final(self).screenshot_taken == (old(self).screenshot_taken || success),
            window_view(final(self).current) == window_view(old(self).current),
    {
        if success {
            self.screenshot_taken = true;
        }
    }
}

/// A cached picture is stale when it is a `.png` other than the working
/// picture and its name, without `.png`, is none of the running windows'
/// keys.
pub open spec fn stale_picture(name: Seq<char>, running: Seq<Seq<char>>) -> bool {
    name != "temp_active.png"@ && ends_with(name, ".png"@) && !running.contains(
        strip_png(name),
    )
}

/// A file name without its trailing `.png` endings (`trim_end_matches`).
pub open spec fn strip_png(name: Seq<char>) -> Seq<char>
    decreases name.len(),
{
    if ends_with(name, ".png"@) && name.len() >= 4 {
        strip_png(name.take(name.len() - 4))
    } else {
        name
    }
}

fn strip_png_exec(name: &Vec<char>) -> (r: Vec<char>)
    ensures
        r@ == strip_png(name@),
{
    let png = chars_of(".png");
    proof {
        reveal_strlit(".png");
    }
    let mut n: usize = name.len();
    assert(name@.take(n as int) =~= name@);
    loop
        invariant
            n <= name@.len(),
            png@ == ".png"@,
            strip_png(name@) == strip_png(name@.take(n as int)),
        decreases n,
    {
        let cur = take_chars(name, n);
        if !(ends_with_exec(&cur, &png) && n >= 4) {
            return cur;
        }
        assert(name@.take(n as int).take(n - 4) =~= name@.take(n - 4));
        n = n - 4;
    }
}

/// Whether the cached picture `name` is stale, given the keys of the
/// running windows (see `stale_picture`).
pub fn is_stale_picture(name: &str, running: &Vec<String>) -> (b: bool)
    ensures
        b == stale_picture(name@, running@.map_values(|s: String| s@)),
{
    let nc = chars_of(name);
    let png = chars_of(".png");
    if chars_eq_str(&nc, "temp_active.png") || !ends_with_exec(&nc, &png) {
        return false;
    }
    let key = strip_png_exec(&nc);
    let ghost rv = running@.map_values(|s: String| s@);
    let mut i: usize = 0;
    while i < running.len()
        invariant
            i <= running@.len(),
            rv == running@.map_values(|s: String| s@),
            key@ == strip_png(name@),
            forall|k: int| 0 <= k < i ==> rv[k] != key@,
        decreases running@.len() - i,
    {
        let rc = chars_of(running[i].as_str());
        if crate::text::chars_eq(&rc, &key) {
            assert(rv[i as int] == key@);
            return false;
        }
        i += 1;
    }
    true
}

} // verus!
