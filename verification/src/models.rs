//! Shared data models: the dock's pinned applications, the island state
//! and the notification types.
use vstd::prelude::*;

use crate::text::string_from;

verus! {

/// A dock launcher entry.
#[derive(Debug, Clone)]
pub struct PinnedApp {
    pub name: String,
    pub icon: String,
    pub command: String,
    pub args: Vec<String>,
}

/// The model of a pinned application: name, icon, command and arguments.
pub struct PinnedAppView {
    pub name: Seq<char>,
    pub icon: Seq<char>,
    pub command: Seq<char>,
    pub args: Seq<Seq<char>>,
}

impl View for PinnedApp {
    type V = PinnedAppView;

    open spec fn view(&self) -> PinnedAppView {
        PinnedAppView {
            name: self.name@,
            icon: self.icon@,
            command: self.command@,
            args: self.args@.map_values(|a: String| a@),
        }
    }
}

/// A pinned application without arguments.
pub open spec fn plain_app(name: Seq<char>, icon: Seq<char>, command: Seq<char>) -> PinnedAppView {
    PinnedAppView { name, icon, command, args: Seq::empty() }
}

/// The dock configuration.
#[derive(Debug, Clone)]
pub struct DockConfig {
    pub pinned_apps: Vec<PinnedApp>,
}

/// The applications pinned in the default dock, in order.
pub open spec fn default_pinned_apps() -> Seq<PinnedAppView> {
    seq![
        plain_app("Terminal"@, "terminal"@, "foot"@),
        plain_app("Files"@, "folder"@, "pcmanfm"@),
        plain_app("Web Browser"@, "search"@, "firefox"@),
        plain_app("Music Player"@, "music"@, "amberol"@),
        plain_app("System Settings"@, "settings"@, "gnome-control-center"@),
    ]
}

fn plain(name: &str, icon: &str, command: &str) -> (p: PinnedApp)
    ensures
        p@ == plain_app(name@, icon@, command@),
{
    let p = PinnedApp {
        name: string_from(name),
        icon: string_from(icon),
        command: string_from(command),
        args: Vec::new(),
    };
    assert(p@.args =~= Seq::<Seq<char>>::empty());
    p
}

impl Default for DockConfig {
    /// The default dock: terminal, files, web browser, music player and
    /// system settings.
    fn default() -> (d: Self)
        ensures
            d.pinned_apps@.map_values(|p: PinnedApp| p@) == default_pinned_apps(),
    {
        let mut v: Vec<PinnedApp> = Vec::new();
        v.push(plain("Terminal", "terminal", "foot"));
        v.push(plain("Files", "folder", "pcmanfm"));
        v.push(plain("Web Browser", "search", "firefox"));
        v.push(plain("Music Player", "music", "amberol"));
        v.push(plain("System Settings", "settings", "gnome-control-center"));
        assert(v@.map_values(|p: PinnedApp| p@) =~= default_pinned_apps());
        DockConfig { pinned_apps: v }
    }
}

/// What the dynamic island shows when it is driven from outside.
#[derive(Debug, Clone)]
pub struct IslandState {
    pub active: bool,
    pub title: String,
    pub subtitle: String,
    pub icon: String,
}

impl Default for IslandState {
    /// An inactive island with empty texts.
    fn default() -> (s: Self)
        ensures
            !s.active,
            s.title@ == Seq::<char>::empty(),
            s.subtitle@ == Seq::<char>::empty(),
            s.icon@ == Seq::<char>::empty(),
    {
        IslandState {
            active: false,
            title: String::new(),
            subtitle: String::new(),
            icon: String::new(),
        }
    }
}

#[verifier::external_type_specification]
#[verifier::external_body]
pub struct ExInstant(std::time::Instant);

/// A notification on display, with the moment it arrived.
#[derive(Debug)]
pub struct ActiveNotification {
    pub title: String,
    pub body: String,
    pub icon: String,
    pub app_name: String,
    pub timestamp: std::time::Instant,
}

/// A message from the notification daemon to the island.
#[derive(Debug)]
pub enum NotificationMsg {
    New { summary: String, body: String, icon: String, app_name: String, timeout: i32 },
    Close,
}

} // verus!
