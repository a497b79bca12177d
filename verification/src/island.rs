//! The dynamic island: what it shows for a notification or the media
//! player, and the bookkeeping around album art (one request per address,
//! retried until three failures).
//!
//! Each poll of the island is a step of `IslandTracker`: the caller reads
//! the notification and player state, hands them in, and carries out the
//! returned action on its widgets.
use vstd::prelude::*;

use crate::desktop::{apps_view, DesktopApp, DesktopAppView};
use crate::models::{ActiveNotification, IslandState};
use crate::text::{
    char_to_uppercase, chars_eq, chars_eq_str, chars_of, concat_chars, contains, contains_exec,
    lines, lowercase, lowercase_chars, skip_chars, split_lines, split_on, split_on_exec,
    strip_char, strip_char_exec, string_from, string_of, take_chars, trim, trim_chars, uppercase_char,
};

verus! {

// ---------------------------------------------------------------------------
// Texts
// ---------------------------------------------------------------------------
/// A label shortened for the island: texts of more than 18 characters keep
/// their first 15 followed by `...`.
pub open spec fn compact_label(s: Seq<char>) -> Seq<char> {
    if s.len() > 18 {
        s.take(15) + "..."@
    } else {
        s
    }
}

/// `a - b`.
pub open spec fn dash_join(a: Seq<char>, b: Seq<char>) -> Seq<char> {
    a + " - "@ + b
}

/// The text of a notification: its title, followed by its body if any.
pub open spec fn notification_text(title: Seq<char>, body: Seq<char>) -> Seq<char> {
    if body.len() == 0 {
        title
    } else {
        dash_join(title, body)
    }
}

/// The text of a track: the artist (if any) followed by the title.
pub open spec fn track_text(title: Seq<char>, artist: Seq<char>) -> Seq<char> {
    if artist.len() == 0 {
        title
    } else {
        dash_join(artist, title)
    }
}

/// `s` with its first character in upper case.
pub open spec fn capitalize(s: Seq<char>) -> Seq<char> {
    if s.len() == 0 {
        s
    } else {
        uppercase_char(s[0]) + s.drop_first()
    }
}

/// Shortens a label for the island (see `compact_label`).
pub fn compact(s: &[char]) -> (r: Vec<char>)
    ensures
        r@ == compact_label(s@),
{
    if s.len() > 18 {
        let head = take_chars(s, 15);
        let dots = chars_of("...");
        concat_chars(&head, &dots)
    } else {
        take_chars(s, s.len())
    }
}

fn dash(a: &[char], b: &[char]) -> (r: Vec<char>)
    ensures
        r@ == dash_join(a@, b@),
{
    let sep = chars_of(" - ");
    let ab = concat_chars(a, &sep);
    concat_chars(&ab, b)
}

/// The label shown for a notification.
pub fn notification_label(title: &str, body: &str) -> (r: String)
    ensures
        r@ == compact_label(notification_text(title@, body@)),
{
    let t = chars_of(title);
    let b = chars_of(body);
    let full = if b.len() == 0 {
        t
    } else {
        dash(&t, &b)
    };
    let c = compact(&full);
    string_of(&c)
}

/// The label shown for a track.
pub fn track_label(title: &str, artist: &str) -> (r: String)
    ensures
        r@ == compact_label(track_text(title@, artist@)),
{
    let t = chars_of(title);
    let a = chars_of(artist);
    let full = if a.len() == 0 {
        t
    } else {
        dash(&a, &t)
    };
    let c = compact(&full);
    string_of(&c)
}

/// `s` with its first character in upper case.
pub fn capitalize_first(s: &str) -> (r: String)
    ensures
        r@ == capitalize(s@),
{
    let cs = chars_of(s);
    if cs.len() == 0 {
        return string_of(&cs);
    }
    let up = char_to_uppercase(cs[0]);
    let upc = chars_of(up.as_str());
    let rest = skip_chars(&cs, 1);
    assert(cs@.skip(1) =~= cs@.drop_first());
    let all = concat_chars(&upc, &rest);
    string_of(&all)
}

// ---------------------------------------------------------------------------
// Player metadata
// ---------------------------------------------------------------------------
/// The fields of a player report `status|//|title|//|artist|//|player|//|art`.
pub struct PlayerInfo {
    pub playing: bool,
    pub title: String,
    pub artist: String,
    pub player: String,
    pub art_url: String,
}

pub struct PlayerInfoView {
    pub playing: bool,
    pub title: Seq<char>,
    pub artist: Seq<char>,
    pub player: Seq<char>,
    pub art_url: Seq<char>,
}

/// What a player report says: `None` unless it has five fields and a
/// status of `Playing` or `Paused`; the fields trimmed.
pub open spec fn player_info(line: Seq<char>) -> Option<PlayerInfoView> {
    let parts = split_on(line, "|//|"@);
    if parts.len() >= 5 && (trim(parts[0]) == "Playing"@ || trim(parts[0]) == "Paused"@) {
        Some(
            PlayerInfoView {
                playing: trim(parts[0]) == "Playing"@,
                title: trim(parts[1]),
                artist: trim(parts[2]),
                player: trim(parts[3]),
                art_url: trim(parts[4]),
            },
        )
    } else {
        None
    }
}

impl View for PlayerInfo {
    type V = PlayerInfoView;

    open spec fn view(&self) -> PlayerInfoView {
        PlayerInfoView {
            playing: self.playing,
            title: self.title@,
            artist: self.artist@,
            player: self.player@,
            art_url: self.art_url@,
        }
    }
}

/// Reads a player report.
pub fn parse_player_info(line: &str) -> (r: Option<PlayerInfo>)
    ensures
        r matches Some(i) ==> player_info(line@) == Some(i@),
        r is None ==> player_info(line@) is None,
{
    let cs = chars_of(line);
    let sep = chars_of("|//|");
    proof {
        reveal_strlit("|//|");
    }
    let parts = split_on_exec(&cs, &sep);
    if parts.len() < 5 {
        return None;
    }
    let status = trim_chars(&parts[0]);
    let playing = chars_eq_str(&status, "Playing");
    if !playing && !chars_eq_str(&status, "Paused") {
        return None;
    }
    let title = trim_chars(&parts[1]);
    let artist = trim_chars(&parts[2]);
    let player = trim_chars(&parts[3]);
    let art = trim_chars(&parts[4]);
    Some(
        PlayerInfo {
            playing,
            title: string_of(&title),
            artist: string_of(&artist),
            player: string_of(&player),
            art_url: string_of(&art),
        },
    )
}

/// The icon of a player: the icon of the first application whose command
/// or name (in lower case) contains the player's lower-case name and that
/// has an icon; else that lower-case name; `music` for an unnamed player.
pub open spec fn player_icon_name(raw: Seq<char>, apps: Seq<DesktopAppView>) -> Seq<char> {
    if lowercase(raw).len() == 0 {
        "music"@
    } else {
        player_icon_from(lowercase(raw), apps)
    }
}

pub open spec fn player_app_matches(lower: Seq<char>, a: DesktopAppView) -> bool {
    (contains(lowercase(a.exec_cmd), lower) || contains(lowercase(a.name), lower)) && a.icon is Some
}

pub open spec fn player_icon_from(lower: Seq<char>, apps: Seq<DesktopAppView>) -> Seq<char>
    decreases apps.len(),
{
    if apps.len() == 0 {
        lower
    } else if player_app_matches(lower, apps[0]) {
        apps[0].icon->0
    } else {
        player_icon_from(lower, apps.drop_first())
    }
}

/// The icon of a player (see `player_icon_name`).
pub fn get_player_icon_name(player_name_raw: &str, apps: &Vec<DesktopApp>) -> (r: String)
    ensures
        r@ == player_icon_name(player_name_raw@, apps_view(apps@)),
{
    let raw = chars_of(player_name_raw);
    let lower = lowercase_chars(&raw);
    if lower.len() == 0 {
        return string_from("music");
    }
    let mut i: usize = 0;
    let ghost av = apps_view(apps@);
    assert(av.skip(0) =~= av);
    while i < apps.len()
        invariant
            i <= apps@.len(),
            av == apps_view(apps@),
            lower@ == lowercase(player_name_raw@),
            lower@.len() > 0,
            player_icon_name(player_name_raw@, av) == player_icon_from(lower@, av.skip(i as int)),
        decreases apps@.len() - i,
    {
        let app = &apps[i];
        let ghost rest = av.skip(i as int);
        assert(rest[0] == app@);
        assert(rest.drop_first() =~= av.skip(i + 1));
        let e = chars_of(app.exec_cmd.as_str());
        let el = lowercase_chars(&e);
        let n = chars_of(app.name.as_str());
        let nl = lowercase_chars(&n);
        if contains_exec(&el, &lower) || contains_exec(&nl, &lower) {
            if let Some(icon) = &app.icon {
                return icon.clone();
            }
        }
        i += 1;
    }
    string_of(&lower)
}

// ---------------------------------------------------------------------------
// The island state machine
// ---------------------------------------------------------------------------
/// The icon shown for a notification: its own, or the generic
/// notification symbol.
pub open spec fn notification_icon(icon: Seq<char>) -> Seq<char> {
    if icon.len() == 0 {
        "preferences-system-notifications-symbolic"@
    } else {
        icon
    }
}

/// What the island shows for a notification.
pub struct NotificationView {
    pub track_text: String,
    pub icon: String,
    /// The badge under the island slides in (the notification is new).
    pub show_badge: bool,
    /// The island zooms in: it was hidden.
    pub zoom_in: bool,
}

/// The icon of the play button: pause while playing, play otherwise.
pub open spec fn play_icon_name(playing: bool) -> Seq<char> {
    if playing {
        "media-playback-pause-symbolic"@
    } else {
        "media-playback-start-symbolic"@
    }
}

/// The texts of the player popover.
pub struct PlayerLabels {
    pub track_text: String,
    pub title: String,
    pub artist: String,
    pub app_name: String,
}

/// What happens to the album art.
pub enum ArtUpdate {
    Unchanged,
    /// Show the player's icon in place of album art.
    ShowAppIcon(String),
    /// Load the art at `url` (its icon standing in if loading fails).
    Load { url: String, app_icon: String },
}

/// What the island shows for an active player.
pub struct PlayerView {
    pub playing: bool,
    /// The icon of the play button.
    pub play_icon: String,
    /// The island zooms in: it was hidden.
    pub zoom_in: bool,
    /// New texts, when they are due.
    pub labels: Option<PlayerLabels>,
    pub art: ArtUpdate,
}

/// What changes when nothing is to be shown.
pub struct InactiveView {
    /// The icon the play button returns to.
    pub play_icon: String,
    /// The album art (small and large) is removed.
    pub clear_art: bool,
    /// The island zooms out and hides: it was showing.
    pub zoom_out: bool,
}

/// The action for one poll of the island.
pub enum IslandAction {
    Notification(NotificationView),
    /// A player is active; `hide_badge` slides the notification badge out.
    Player { hide_badge: bool, view: PlayerView },
    /// Nothing to show: the island closes.
    Inactive { hide_badge: bool, view: InactiveView },
}

/// The outcome of an album-art load, as it is to be shown.
pub enum ArtOutcome {
    /// The loaded art is shown.
    ShowArt,
    /// Loading failed three times: the player's icon is shown.
    ShowAppIcon(String),
    /// Loading failed; it will be asked again at the next poll.
    Retry,
    /// The result is for an address no longer wanted.
    Ignore,
}

/// The state the island keeps between polls.
pub struct IslandTracker {
    pub last_art_url: String,
    pub last_attempted_url: String,
    pub fail_count: u32,
    pub was_custom_active: bool,
    pub poll_counter: u32,
    pub last_title: String,
    pub art_loaded_for_current_song: bool,
    pub is_playing: bool,
    /// The island is showing.
    pub capsule_visible: bool,
}

/// A poll with player report `info` would count past `u32::MAX` polls of
/// one song.
pub open spec fn poll_overflows(t: IslandTracker, info: PlayerInfoView) -> bool {
    info.title == t.last_title@ && t.poll_counter == u32::MAX
}

/// A player poll with report `info` asks for the album art: the art of
/// the song is not shown yet, the report names an address, and that
/// address is not the one last asked for.
pub open spec fn art_request(t: IslandTracker, info: PlayerInfoView) -> bool {
    let changed = info.title != t.last_title@;
    let loaded = !changed && t.art_loaded_for_current_song;
    !loaded && info.art_url.len() > 0 && info.art_url != t.last_attempted_url@
}

/// One player poll with report `info` takes the tracker from `old` to
/// `new` and shows `v`: the texts are refreshed when the song changes and
/// every fifth poll, and album art is asked for once per address until it
/// is shown.
pub open spec fn player_step(
    old: IslandTracker,
    new: IslandTracker,
    info: PlayerInfoView,
    apps: Seq<DesktopAppView>,
    v: PlayerView,
) -> bool {
    &&& v.playing == info.playing
    &&& v.play_icon@ == play_icon_name(info.playing)
    &&& v.zoom_in == !old.capsule_visible
    &&& new.capsule_visible
    &&& new.is_playing == info.playing
    &&& new.last_title@ == info.title
    &&& ({
            let changed = info.title != old.last_title@;
            let count = if changed {
                0
            } else {
                old.poll_counter
            };
            &&& new.poll_counter == count + 1
            &&& v.labels is Some <==> (changed || count % 5 == 0)
            &&& (v.labels matches Some(l) ==> {
                &&& l.track_text@ == compact_label(track_text(info.title, info.artist))
                &&& l.title@ == info.title
                &&& l.artist@ == info.artist
                &&& l.app_name@ == (if info.player.len() > 0 {
                    capitalize(info.player)
                } else {
                    "Music Player"@
                })
            })
            &&& {
                let loaded = !changed && old.art_loaded_for_current_song;
                let icon = player_icon_name(info.player, apps);
                if loaded {
                    &&& v.art is Unchanged
                    &&& new.art_loaded_for_current_song
                    &&& new.last_art_url == old.last_art_url
                    &&& new.last_attempted_url == old.last_attempted_url
                    &&& new.fail_count == old.fail_count
                } else if info.art_url.len() == 0 {
                    &&& v.art matches ArtUpdate::ShowAppIcon(i) && i@ == icon
                    &&& new.art_loaded_for_current_song
                    &&& new.last_art_url@ == Seq::<char>::empty()
                    &&& new.last_attempted_url == old.last_attempted_url
                    &&& new.fail_count == old.fail_count
                } else if info.art_url != old.last_attempted_url@ {
                    &&& v.art matches ArtUpdate::Load { url, app_icon } && url@ == info.art_url
                        && app_icon@ == icon
                    &&& !new.art_loaded_for_current_song
                    &&& new.last_attempted_url@ == info.art_url
                    &&& new.fail_count == 0
                    &&& new.last_art_url == old.last_art_url
                } else {
                    &&& v.art is Unchanged
                    &&& !new.art_loaded_for_current_song
                    &&& new.last_attempted_url == old.last_attempted_url
                    &&& new.fail_count == old.fail_count
                    &&& new.last_art_url == old.last_art_url
                }
            }
        })
    &&& new.was_custom_active == old.was_custom_active
    &&& (v.art is Load) == art_request(old, info)
    &&& art_request(old, info) ==> new.last_attempted_url@ == info.art_url
            && new.last_title@ == info.title
}

/// One poll with notification `n` on display takes the tracker from `old`
/// to `new` and shows `v`: its text replaces the track, the visualizer
/// stops, the cached art is forgotten (so that it is loaded again
/// afterwards), and the badge slides in once.
pub open spec fn notification_step(
    old: IslandTracker,
    new: IslandTracker,
    n: ActiveNotification,
    v: NotificationView,
) -> bool {
    &&& v.track_text@ == compact_label(notification_text(n.title@, n.body@))
    &&& v.icon@ == notification_icon(n.icon@)
    &&& v.show_badge == !old.was_custom_active
    &&& v.zoom_in == !old.capsule_visible
    &&& new.capsule_visible
    &&& new.was_custom_active
    &&& !new.is_playing
    &&& new.last_art_url@ == Seq::<char>::empty()
    &&& new.last_attempted_url@ == Seq::<char>::empty()
    &&& new.fail_count == old.fail_count
    &&& new.poll_counter == old.poll_counter
    &&& new.last_title == old.last_title
    &&& new.art_loaded_for_current_song == old.art_loaded_for_current_song
}

/// One poll with neither notification nor active player takes the tracker
/// from `old` to `new` and changes `v`: everything about the current song
/// is forgotten, the play button shows play again, the album art is
/// removed, and the island zooms out and hides where it was showing.
pub open spec fn inactive_step(old: IslandTracker, new: IslandTracker, v: InactiveView) -> bool {
    &&& v.play_icon@ == play_icon_name(false)
    &&& v.clear_art
    &&& v.zoom_out == old.capsule_visible
    &&& !new.capsule_visible
    &&& !new.is_playing
    &&& new.poll_counter == 0
    &&& new.last_title@ == Seq::<char>::empty()
    &&& !new.art_loaded_for_current_song
    &&& new.last_art_url == old.last_art_url
    &&& new.last_attempted_url == old.last_attempted_url
    &&& new.fail_count == old.fail_count
    &&& new.was_custom_active == old.was_custom_active
}

/// The same report twice in a row never asks for the album art twice:
/// after any player poll, a poll with the same report asks for none.
pub proof fn law_art_requested_once(
    t0: IslandTracker,
    t1: IslandTracker,
    info: PlayerInfoView,
    apps: Seq<DesktopAppView>,
    v: PlayerView,
)
    requires
        player_step(t0, t1, info, apps, v),
    ensures
        !art_request(t1, info),
{
}

/// The notification badge slides in once: a second notification poll in
/// a row does not slide it in again, and the poll that follows them
/// without a notification slides it out (the tracker remembers it shown).
pub proof fn law_badge_once(
    t0: IslandTracker,
    t1: IslandTracker,
    t2: IslandTracker,
    n1: ActiveNotification,
    v1: NotificationView,
    n2: ActiveNotification,
    v2: NotificationView,
)
    requires
        notification_step(t0, t1, n1, v1),
        notification_step(t1, t2, n2, v2),
    ensures
        !v2.show_badge,
        t2.was_custom_active,
{
}

/// The island zooms in only when hidden and out only when showing: after
/// a poll that shows a player or a notification, the next showing poll
/// does not zoom in and the next empty poll zooms out; after an empty
/// poll, the next empty poll does not zoom out and the next showing poll
/// zooms in.
pub proof fn law_island_zoom_on_change(
    t0: IslandTracker,
    t1: IslandTracker,
    t2: IslandTracker,
    info1: PlayerInfoView,
    info2: PlayerInfoView,
    apps: Seq<DesktopAppView>,
    p1: PlayerView,
    p2: PlayerView,
    i1: InactiveView,
    i2: InactiveView,
)
    ensures
        player_step(t0, t1, info1, apps, p1) ==> (player_step(t1, t2, info2, apps, p2)
            ==> !p2.zoom_in) && (inactive_step(t1, t2, i2) ==> i2.zoom_out),
        inactive_step(t0, t1, i1) ==> (inactive_step(t1, t2, i2) ==> !i2.zoom_out) && (
        player_step(t1, t2, info2, apps, p2) ==> p2.zoom_in),
{
}

impl IslandTracker {
    /// The state before the first poll.
    pub fn new() -> (t: Self)
        ensures
            t.last_art_url@ == Seq::<char>::empty(),
            t.last_attempted_url@ == Seq::<char>::empty(),
            t.fail_count == 0,
            !t.was_custom_active,
            t.poll_counter == 0,
            t.last_title@ == Seq::<char>::empty(),
            !t.art_loaded_for_current_song,
            !t.is_playing,
            !t.capsule_visible,
    {
        IslandTracker {
            last_art_url: String::new(),
            last_attempted_url: String::new(),
            fail_count: 0,
            was_custom_active: false,
            poll_counter: 0,
            last_title: String::new(),
            art_loaded_for_current_song: false,
            is_playing: false,
            capsule_visible: false,
        }
    }

    /// A poll while a notification is on display: its text replaces the
    /// track, the visualizer stops, the cached art is forgotten (so that it
    /// is loaded again afterwards), and the badge slides in once.
    pub fn update_notification_view(&mut self, notif: &ActiveNotification) -> (v: NotificationView)
        ensures
            notification_step(*old(self), *final(self), *notif, v),
    {
        self.is_playing = false;
        let track_text = notification_label(notif.title.as_str(), notif.body.as_str());
        let ic = chars_of(notif.icon.as_str());
        let icon = if ic.len() == 0 {
            string_from("preferences-system-notifications-symbolic")
        } else {
            notif.icon.clone()
        };
        self.last_art_url = String::new();
        self.last_attempted_url = String::new();
        let show_badge = !self.was_custom_active;
        self.was_custom_active = true;
        let zoom_in = !self.capsule_visible;
        self.capsule_visible = true;
        NotificationView { track_text, icon, show_badge, zoom_in }
    }

    /// A poll while the player reports `info`: the texts are refreshed when
    /// the song changes and every fifth poll, and album art is asked for
    /// once per address until it is shown.
    pub fn update_player_view(&mut self, info: &PlayerInfo, apps: &Vec<DesktopApp>) -> (v:
        PlayerView)
        requires
            !poll_overflows(*old(self), info@),
        ensures
            player_step(*old(self), *final(self), info@, apps_view(apps@), v),
    {
        self.is_playing = info.playing;
        let tv = chars_of(info.title.as_str());
        let lv = chars_of(self.last_title.as_str());
        let changed = !chars_eq(&tv, &lv);
        if changed {
            self.last_title = info.title.clone();
            self.art_loaded_for_current_song = false;
            self.poll_counter = 0;
        }
        let count = self.poll_counter;
        self.poll_counter = count + 1;
        let labels = if changed || count % 5 == 0 {
            let pv = chars_of(info.player.as_str());
            let app_name = if pv.len() > 0 {
                capitalize_first(info.player.as_str())
            } else {
                string_from("Music Player")
            };
            Some(
                PlayerLabels {
                    track_text: track_label(info.title.as_str(), info.artist.as_str()),
                    title: info.title.clone(),
                    artist: info.artist.clone(),
                    app_name,
                },
            )
        } else {
            None
        };
        let art = if !self.art_loaded_for_current_song {
            let app_icon = get_player_icon_name(info.player.as_str(), apps);
            let uv = chars_of(info.art_url.as_str());
            if uv.len() == 0 {
                assert(info.art_url@ =~= Seq::<char>::empty());
                self.last_art_url = info.art_url.clone();
                self.art_loaded_for_current_song = true;
                ArtUpdate::ShowAppIcon(app_icon)
            } else {
                let av = chars_of(self.last_attempted_url.as_str());
                if !chars_eq(&uv, &av) {
                    self.last_attempted_url = info.art_url.clone();
                    self.fail_count = 0;
                    ArtUpdate::Load { url: info.art_url.clone(), app_icon }
                } else {
                    ArtUpdate::Unchanged
                }
            }
        } else {
            ArtUpdate::Unchanged
        };
        let play_icon = if info.playing {
            string_from("media-playback-pause-symbolic")
        } else {
            string_from("media-playback-start-symbolic")
        };
        let zoom_in = !self.capsule_visible;
        self.capsule_visible = true;
        PlayerView { playing: info.playing, play_icon, zoom_in, labels, art }
    }

    /// A poll with neither notification nor active player: everything
    /// about the current song is forgotten, the play button shows play, the
    /// album art is removed, and the island zooms out where it showed.
    pub fn handle_inactive_player(&mut self) -> (v: InactiveView)
        ensures
            inactive_step(*old(self), *final(self), v),
    {
        self.is_playing = false;
        self.poll_counter = 0;
        self.last_title = String::new();
        self.art_loaded_for_current_song = false;
        let zoom_out = self.capsule_visible;
        self.capsule_visible = false;
        InactiveView {
            play_icon: string_from("media-playback-start-symbolic"),
            clear_art: true,
            zoom_out,
        }
    }

    /// One poll of the island: a notification on display takes precedence;
    /// otherwise the player report decides between the player view and
    /// closing the island.
    pub fn poll(
        &mut self,
        notification: Option<&ActiveNotification>,
        metadata: Option<&str>,
        apps: &Vec<DesktopApp>,
    ) -> (a: IslandAction)
        requires
            notification is None ==> (metadata matches Some(m) ==> (player_info(m@) matches Some(
                i,
            ) ==> !poll_overflows(*old(self), i))),
        ensures
            notification matches Some(n) ==> (a matches IslandAction::Notification(v)
                && notification_step(*old(self), *final(self), *n, v)),
            notification is None ==> ({
                let mid = IslandTracker { was_custom_active: false, ..*old(self) };
                match a {
                    IslandAction::Player { hide_badge, view } => hide_badge == old(
                        self,
                    ).was_custom_active && (metadata matches Some(m) && player_info(m@) matches Some(
                        i,
                    ) && player_step(mid, *final(self), i, apps_view(apps@), view)),
                    IslandAction::Inactive { hide_badge, view } => hide_badge == old(
                        self,
                    ).was_custom_active && !(metadata matches Some(m) && player_info(m@) is Some)
                        && inactive_step(mid, *final(self), view),
                    IslandAction::Notification(_) => false,
                }
            }),
    {
        match notification {
            Some(n) => IslandAction::Notification(self.update_notification_view(n)),
            None => {
                let hide_badge = self.was_custom_active;
                self.was_custom_active = false;
                let info = match metadata {
                    Some(m) => parse_player_info(m),
                    None => None,
                };
                match info {
                    Some(i) => {
                        let view = self.update_player_view(&i, apps);
                        IslandAction::Player { hide_badge, view }
                    },
                    None => {
                        let view = self.handle_inactive_player();
                        IslandAction::Inactive { hide_badge, view }
                    },
                }
            },
        }
    }

    /// Takes in the result of loading the art at `url`: results for an
    /// address no longer wanted are ignored; a success is shown; failures
    /// are retried until the third, after which the player's icon stays.
    pub fn art_result(&mut self, url: &str, app_icon: &str, loaded: bool) -> (o: ArtOutcome)
        requires
            !loaded && url@ == old(self).last_attempted_url@ ==> old(self).fail_count < u32::MAX,
        ensures
            url@ != old(self).last_attempted_url@ ==> o is Ignore && final(self).last_art_url
                == old(self).last_art_url && final(self).last_attempted_url == old(
                self,
            ).last_attempted_url && final(self).fail_count == old(self).fail_count
                && final(self).art_loaded_for_current_song == old(
                self,
            ).art_loaded_for_current_song,
            url@ == old(self).last_attempted_url@ && loaded ==> o is ShowArt
                && final(self).last_art_url@ == url@ && final(self).art_loaded_for_current_song
                && final(self).fail_count == old(self).fail_count,
            url@ == old(self).last_attempted_url@ && !loaded ==> final(self).fail_count == old(
                self,
            ).fail_count + 1 && if old(self).fail_count + 1 >= 3 {
                &&& o matches ArtOutcome::ShowAppIcon(i) && i@ == app_icon@
                &&& final(self).last_art_url@ == url@
                &&& final(self).art_loaded_for_current_song
            } else {
                &&& o is Retry
                &&& final(self).last_attempted_url@ == Seq::<char>::empty()
                &&& final(self).art_loaded_for_current_song == old(
                    self,
                ).art_loaded_for_current_song
            },
            final(self).poll_counter == old(self).poll_counter,
            final(self).last_title == old(self).last_title,
            final(self).is_playing == old(self).is_playing,
            final(self).was_custom_active == old(self).was_custom_active,
            final(self).capsule_visible == old(self).capsule_visible,
    {
        let uv = chars_of(url);
        let av = chars_of(self.last_attempted_url.as_str());
        if !chars_eq(&uv, &av) {
            return ArtOutcome::Ignore;
        }
        if loaded {
            self.last_art_url = string_from(url);
            self.art_loaded_for_current_song = true;
            ArtOutcome::ShowArt
        } else {
            let fails = self.fail_count + 1;
            self.fail_count = fails;
            if fails >= 3 {
                self.last_art_url = string_from(url);
                self.art_loaded_for_current_song = true;
                ArtOutcome::ShowAppIcon(string_from(app_icon))
            } else {
                self.last_attempted_url = String::new();
                ArtOutcome::Retry
            }
        }
    }
}

// ---------------------------------------------------------------------------
// The island state file
// ---------------------------------------------------------------------------
/// The island state written in `key = value` lines: `active` (true when
/// the value is `true`), `title`, `subtitle` and `icon`; values are trimmed
/// and stripped of surrounding quotes; later lines win; other lines are
/// ignored.
pub open spec fn island_state_of(ls: Seq<Seq<char>>) -> (bool, Seq<char>, Seq<char>, Seq<char>)
    decreases ls.len(),
{
    if ls.len() == 0 {
        (false, Seq::empty(), Seq::empty(), Seq::empty())
    } else {
        let prev = island_state_of(ls.drop_last());
        let parts = split_on(ls.last(), "="@);
        if parts.len() >= 2 {
            let key = trim(parts[0]);
            let val = strip_char(trim(ls.last().skip((parts[0].len() + 1) as int)), '"');
            if key == "active"@ {
                (val == "true"@, prev.1, prev.2, prev.3)
            } else if key == "title"@ {
                (prev.0, val, prev.2, prev.3)
            } else if key == "subtitle"@ {
                (prev.0, prev.1, val, prev.3)
            } else if key == "icon"@ {
                (prev.0, prev.1, prev.2, val)
            } else {
                prev
            }
        } else {
            prev
        }
    }
}

/// Reads the island state file.
pub fn parse_island_state(content: &str) -> (s: IslandState)
    ensures
        (s.active, s.title@, s.subtitle@, s.icon@) == island_state_of(lines(content@)),
{
    let cs = chars_of(content);
    let ls = split_lines(&cs);
    let eq = chars_of("=");
    proof {
        reveal_strlit("=");
    }
    assert(eq@.len() == 1);
    let mut active = false;
    let mut title: Vec<char> = Vec::new();
    let mut subtitle: Vec<char> = Vec::new();
    let mut icon: Vec<char> = Vec::new();
    let ghost all = lines(content@);
    let mut i: usize = 0;
    while i < ls.len()
        invariant
            ls@.len() == all.len(),
            all == lines(content@),
            forall|k: int| 0 <= k < ls@.len() ==> #[trigger] ls@[k]@ == all[k],
            eq@ == "="@,
            eq@.len() == 1,
            i <= ls@.len(),
            (active, title@, subtitle@, icon@) == island_state_of(all.take(i as int)),
        decreases ls@.len() - i,
    {
        assert(all.take(i + 1).drop_last() =~= all.take(i as int));
        let line = &ls[i];
        let parts = split_on_exec(line, &eq);
        if parts.len() >= 2 {
            let key = trim_chars(&parts[0]);
            let p0 = parts[0].len();
            proof {
                lemma_split_first_piece(line@, "="@);
                assert(parts@[0]@ == split_on(line@, "="@)[0]);
            }
            let ll = line.len();
            assert(p0 + 1 <= ll);
            let after = skip_chars(line, p0 + 1);
            let at = trim_chars(&after);
            let val = strip_char_exec(&at, '"');
            if chars_eq_str(&key, "active") {
                active = chars_eq_str(&val, "true");
            } else if chars_eq_str(&key, "title") {
                title = val;
            } else if chars_eq_str(&key, "subtitle") {
                subtitle = val;
            } else if chars_eq_str(&key, "icon") {
                icon = val;
            }
        }
        i += 1;
    }
    assert(all.take(all.len() as int) =~= all);
    IslandState {
        active,
        title: string_of(&title),
        subtitle: string_of(&subtitle),
        icon: string_of(&icon),
    }
}

/// When a split gives two or more pieces, the first is followed by the
/// separator in the text.
proof fn lemma_split_first_piece(s: Seq<char>, p: Seq<char>)
    requires
        p.len() > 0,
        split_on(s, p).len() >= 2,
    ensures
        split_on(s, p)[0].len() + p.len() <= s.len(),
{
    crate::text::lemma_find(s, p);
}

} // verus!
