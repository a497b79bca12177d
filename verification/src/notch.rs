//! The panel's notch: each second it shows an alert driven from the island
//! state file, or the playing track, or hides.
//!
//! Each poll is decided here in two steps. `notch_plan` says from the
//! island state and the player status whether the notch shows and what it
//! shows; the caller then asks the player for the track details where the
//! plan shows the track, and one of the `NotchTracker` methods says what
//! changes on the widgets.
use vstd::prelude::*;

use crate::island::{
    capitalize, capitalize_first, compact_label, notification_label, notification_text,
    track_label, track_text,
};
use crate::models::IslandState;
use crate::text::string_from;

verus! {

/// The text of an optional value, or `d` where there is none.
pub open spec fn text_or(o: Option<String>, d: Seq<char>) -> Seq<char> {
    match o {
        Some(s) => s@,
        None => d,
    }
}

/// The icon of an alert: its own, or the bell.
pub open spec fn alert_icon(icon: Seq<char>) -> Seq<char> {
    if icon.len() == 0 {
        "bell"@
    } else {
        icon
    }
}

/// What a poll shows.
#[derive(Clone, Copy, Debug, PartialEq, Eq, Structural)]
pub struct NotchPlan {
    /// The player reports `Playing`.
    pub playing: bool,
    /// The island state file holds an active alert.
    pub custom_active: bool,
    /// The notch shows: something plays or an alert is active.
    pub show: bool,
    /// The visualizer bars move: the notch shows, and a track plays or the
    /// alert's icon is `music`.
    pub animate_bars: bool,
}

/// Whether the notch shows, from the island state (none where the file
/// could not be read) and the player status (none where the player could
/// not be asked).
pub fn notch_plan(custom: &Option<IslandState>, status: &Option<String>) -> (p: NotchPlan)
    ensures
        p.playing == (status matches Some(s) && s@ == "Playing"@),
        p.custom_active == (custom matches Some(c) && c.active),
        p.show == (p.playing || p.custom_active),
        p.animate_bars == (p.show && (p.playing || (custom matches Some(c) && c.active && c.icon@
            == "music"@))),
{
    let playing_text = string_from("Playing");
    let playing = match status {
        Some(s) => *s == playing_text,
        None => false,
    };
    let custom_active = match custom {
        Some(c) => c.active,
        None => false,
    };
    let show = playing || custom_active;
    let music_text = string_from("music");
    let music_alert = match custom {
        Some(c) => c.active && c.icon == music_text,
        None => false,
    };
    NotchPlan { playing, custom_active, show, animate_bars: show && (playing || music_alert) }
}

/// The texts of the badge that slides down under the notch.
#[derive(Clone, Debug)]
pub struct BadgeText {
    pub title: String,
    pub desc: String,
    pub icon: String,
}

/// What the notch shows for an alert.
#[derive(Clone, Debug)]
pub struct AlertView {
    /// The label: title and subtitle, shortened.
    pub label: String,
    /// The icon name beside the label.
    pub icon: String,
    /// The badge to slide down: only on the first poll of an alert.
    pub badge: Option<BadgeText>,
    /// The notch zooms in: it was hidden.
    pub zoom_in: bool,
}

/// What the notch shows for the playing track.
#[derive(Clone, Debug)]
pub struct TrackView {
    /// The label: artist and title, shortened.
    pub label: String,
    pub title: String,
    pub artist: String,
    /// The player's name with a capital, shown in the popover.
    pub app_name: String,
    /// The icon of the play button.
    pub play_icon: String,
    /// The album art address to show, where it changed (empty: the
    /// generic music icon).
    pub new_art: Option<String>,
    /// The alert badge slides away: an alert was showing.
    pub badge_out: bool,
    /// The notch zooms in: it was hidden.
    pub zoom_in: bool,
}

/// What changes when the notch retracts.
#[derive(Clone, Copy, Debug, PartialEq, Eq, Structural)]
pub struct HideView {
    /// The notch zooms out: it was showing.
    pub zoom_out: bool,
    /// The alert badge slides away: an alert was showing.
    pub badge_out: bool,
}

/// What the notch remembers between polls.
#[derive(Clone, Debug)]
pub struct NotchTracker {
    /// The album art address last shown.
    pub last_art_url: String,
    /// The last poll showed an alert.
    pub was_custom_active: bool,
    /// The notch is showing.
    pub capsule_visible: bool,
}

/// A poll showing an alert took the notch from `old` to `new` and showed
/// `v`: the badge slides down exactly when no alert showed before, the
/// notch zooms in exactly when it was hidden; afterwards an alert shows,
/// the notch shows and the art address is kept.
pub open spec fn alert_step(old: NotchTracker, new: NotchTracker, v: AlertView) -> bool {
    &&& (v.badge is Some <==> !old.was_custom_active)
    &&& v.zoom_in == !old.capsule_visible
    &&& new.was_custom_active
    &&& new.capsule_visible
    &&& new.last_art_url@ == old.last_art_url@
}

/// A poll showing the track with art address `art_url` took the notch from
/// `old` to `new` and showed `v`: the art is shown anew exactly when its
/// address differs from the one last shown, and is then remembered; the
/// alert badge slides away exactly when an alert showed; the notch zooms in
/// exactly when it was hidden.
pub open spec fn track_step(
    old: NotchTracker,
    art_url: Option<String>,
    new: NotchTracker,
    v: TrackView,
) -> bool {
    &&& new.last_art_url@ == text_or(art_url, Seq::empty())
    &&& (v.new_art is Some <==> text_or(art_url, Seq::empty()) != old.last_art_url@)
    &&& (v.new_art matches Some(u) ==> u@ == text_or(art_url, Seq::empty()))
    &&& v.badge_out == old.was_custom_active
    &&& v.zoom_in == !old.capsule_visible
    &&& !new.was_custom_active
    &&& new.capsule_visible
}

/// A poll with nothing to show took the notch from `old` to `new`: it
/// zooms out exactly when it showed, the badge slides away exactly when
/// an alert showed; afterwards nothing shows and the art address is kept.
pub open spec fn retract_step(old: NotchTracker, new: NotchTracker, v: HideView) -> bool {
    &&& v.zoom_out == old.capsule_visible
    &&& v.badge_out == old.was_custom_active
    &&& !new.capsule_visible
    &&& !new.was_custom_active
    &&& new.last_art_url@ == old.last_art_url@
}

impl NotchTracker {
    /// The notch as the panel starts: hidden, no art shown, no alert.
    pub fn new() -> (t: Self)
        ensures
            t.last_art_url@ == Seq::<char>::empty(),
            !t.was_custom_active,
            !t.capsule_visible,
    {
        NotchTracker { last_art_url: String::new(), was_custom_active: false, capsule_visible: false }
    }

    /// A poll that shows the alert `state`. The label is its title and
    /// subtitle, shortened; the icon its own or the bell; the badge slides
    /// down with the title, subtitle and icon only when the previous poll
    /// showed no alert.
    pub fn show_alert(&mut self, state: &IslandState) -> (v: AlertView)
        ensures
            v.label@ == compact_label(notification_text(state.title@, state.subtitle@)),
            v.icon@ == alert_icon(state.icon@),
            v.badge is Some <==> !old(self).was_custom_active,
            v.badge matches Some(b) ==> b.title@ == state.title@ && b.desc@ == state.subtitle@
                && b.icon@ == alert_icon(state.icon@),
            v.zoom_in == !old(self).capsule_visible,
            final(self).was_custom_active,
            final(self).capsule_visible,
            final(self).last_art_url@ == old(self).last_art_url@,
            alert_step(*old(self), *final(self), v),
    {
        let label = notification_label(state.title.as_str(), state.subtitle.as_str());
        let icon = if state.icon.as_str().is_empty() {
            proof {
                reveal_strlit("bell");
            }
            string_from("bell")
        } else {
            state.icon.clone()
        };
        let badge = if !self.was_custom_active {
            Some(BadgeText { title: state.title.clone(), desc: state.subtitle.clone(), icon: icon.clone() })
        } else {
            None
        };
        let zoom_in = !self.capsule_visible;
        self.was_custom_active = true;
        self.capsule_visible = true;
        AlertView { label, icon, badge, zoom_in }
    }

    /// A poll that shows the track. Missing details read `Unknown Title`,
    /// `Unknown Artist` and `Music Player`; a missing art address reads as
    /// empty. The art is shown anew only where its address differs from
    /// the one last shown; an alert badge that was showing slides away.
    pub fn show_track(
        &mut self,
        playing: bool,
        title: Option<String>,
        artist: Option<String>,
        player_name: Option<String>,
        art_url: Option<String>,
    ) -> (v: TrackView)
        ensures
            v.title@ == text_or(title, "Unknown Title"@),
            v.artist@ == text_or(artist, "Unknown Artist"@),
            v.label@ == compact_label(track_text(v.title@, v.artist@)),
            v.app_name@ == (match player_name {
                Some(n) => capitalize(n@),
                None => "Music Player"@,
            }),
            v.play_icon@ == (if playing {
                "media-playback-pause-symbolic"@
            } else {
                "media-playback-start-symbolic"@
            }),
            final(self).last_art_url@ == text_or(art_url, Seq::empty()),
            v.new_art is Some <==> text_or(art_url, Seq::empty()) != old(self).last_art_url@,
            v.new_art matches Some(u) ==> u@ == text_or(art_url, Seq::empty()),
            v.badge_out == old(self).was_custom_active,
            v.zoom_in == !old(self).capsule_visible,
            !final(self).was_custom_active,
            final(self).capsule_visible,
            track_step(*old(self), art_url, *final(self), v),
    {
        let t = match title {
            Some(s) => s,
            None => string_from("Unknown Title"),
        };
        let a = match artist {
            Some(s) => s,
            None => string_from("Unknown Artist"),
        };
        let label = track_label(t.as_str(), a.as_str());
        let app_name = match player_name {
            Some(n) => capitalize_first(n.as_str()),
            None => string_from("Music Player"),
        };
        let play_icon = if playing {
            string_from("media-playback-pause-symbolic")
        } else {
            string_from("media-playback-start-symbolic")
        };
        let url = match art_url {
            Some(u) => u,
            None => String::new(),
        };
        let new_art = if url != self.last_art_url {
            self.last_art_url = url.clone();
            Some(url)
        } else {
            None
        };
        let badge_out = self.was_custom_active;
        let zoom_in = !self.capsule_visible;
        self.was_custom_active = false;
        self.capsule_visible = true;
        TrackView { label, title: t, artist: a, app_name, play_icon, new_art, badge_out, zoom_in }
    }

    /// A poll with nothing to show: the notch zooms out where it showed,
    /// the badge slides away where an alert showed.
    pub fn retract(&mut self) -> (v: HideView)
        ensures
            v.zoom_out == old(self).capsule_visible,
            v.badge_out == old(self).was_custom_active,
            !final(self).capsule_visible,
            !final(self).was_custom_active,
            final(self).last_art_url@ == old(self).last_art_url@,
            retract_step(*old(self), *final(self), v),
    {
        let v = HideView { zoom_out: self.capsule_visible, badge_out: self.was_custom_active };
        self.capsule_visible = false;
        self.was_custom_active = false;
        v
    }
}

/// The same album art is shown once: a second track poll with the same
/// art address right after the first shows no new art.
pub proof fn law_art_shown_once(
    t0: NotchTracker,
    t1: NotchTracker,
    t2: NotchTracker,
    art_url: Option<String>,
    v1: TrackView,
    v2: TrackView,
)
    requires
        track_step(t0, art_url, t1, v1),
        track_step(t1, art_url, t2, v2),
    ensures
        v2.new_art is None,
{
}

/// The badge slides down once per alert: a second alert poll right after
/// an alert poll shows no badge, while an alert poll right after a track
/// poll or an empty poll shows it.
pub proof fn law_badge_once_per_alert(
    t0: NotchTracker,
    t1: NotchTracker,
    t2: NotchTracker,
    a1: AlertView,
    a2: AlertView,
    art_url: Option<String>,
    tv: TrackView,
    h: HideView,
)
    ensures
        alert_step(t0, t1, a1) && alert_step(t1, t2, a2) ==> a2.badge is None,
        track_step(t0, art_url, t1, tv) && alert_step(t1, t2, a2) ==> a2.badge is Some,
        retract_step(t0, t1, h) && alert_step(t1, t2, a2) ==> a2.badge is Some,
{
}

/// The notch zooms in only when it was hidden and zooms out only when it
/// showed: after any poll that shows something the next showing poll does
/// not zoom in, and after an empty poll the next empty poll does not zoom
/// out.
pub proof fn law_zoom_only_on_change(
    t0: NotchTracker,
    t1: NotchTracker,
    t2: NotchTracker,
    a1: AlertView,
    a2: AlertView,
    art1: Option<String>,
    art2: Option<String>,
    tv1: TrackView,
    tv2: TrackView,
    h1: HideView,
    h2: HideView,
)
    ensures
        (alert_step(t0, t1, a1) || track_step(t0, art1, t1, tv1)) ==> (alert_step(t1, t2, a2)
            ==> !a2.zoom_in) && (track_step(t1, art2, t2, tv2) ==> !tv2.zoom_in),
        retract_step(t0, t1, h1) && retract_step(t1, t2, h2) ==> !h2.zoom_out && !h2.badge_out,
{
}

} // verus!
