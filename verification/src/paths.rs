//! Where the shell keeps its files: its configuration folder, the saved
//! wallpaper, and the screenshots; and how a wallpaper is set.
use vstd::prelude::*;

use crate::text::{chars_of, concat_chars, string_of, trim, trim_chars};

verus! {

// ---------------------------------------------------------------------------
// Joining paths
// ---------------------------------------------------------------------------
/// `base` with the relative path `rel` appended (`PathBuf::join` with a
/// path that does not start with `/`): a `/` goes between them unless
/// `base` is empty or already ends with one.
pub open spec fn path_join(base: Seq<char>, rel: Seq<char>) -> Seq<char> {
    if base.len() > 0 && base.last() != '/' {
        base + "/"@ + rel
    } else {
        base + rel
    }
}

/// `base` joined with the relative path `rel` (see `path_join`).
pub fn join_path(base: &str, rel: &str) -> (r: String)
    requires
        rel@.len() == 0 || rel@[0] != '/',
    ensures
        r@ == path_join(base@, rel@),
{
    let b = chars_of(base);
    let rc = chars_of(rel);
    if b.len() > 0 && b[b.len() - 1] != '/' {
        let slash = chars_of("/");
        let with = concat_chars(&b, &slash);
        let all = concat_chars(&with, &rc);
        string_of(&all)
    } else {
        let all = concat_chars(&b, &rc);
        string_of(&all)
    }
}

// ---------------------------------------------------------------------------
// The configuration folder
// ---------------------------------------------------------------------------
/// The user's configuration folder (`dirs::config_dir`), its path as text
/// (`to_string_lossy`). It depends on the environment and the platform;
/// what the `dirs` source shows of every outcome is stated: a folder it
/// gives is never the empty path (an absolute `$XDG_CONFIG_HOME`, or
/// `.config` joined to the home folder).
#[verifier::external_body]
fn user_config_dir() -> (r: Option<String>)
    ensures
        r matches Some(p) ==> p@.len() > 0,
{
    dirs::config_dir().map(|p| p.to_string_lossy().into_owned())
}

/// Whether a path is absolute: it begins with `/`.
pub open spec fn is_absolute(p: Seq<char>) -> bool {
    p.len() > 0 && p[0] == '/'
}

/// The shell's configuration folder, given the user's configuration folder
/// (where known) and `$HOME` (where set): `archvnde` in the former where it
/// is absolute, else in `.config` under the latter where that is absolute;
/// none where neither gives an absolute folder.
pub open spec fn archvnde_config_dir(config: Option<Seq<char>>, home: Option<Seq<char>>) -> Option<
    Seq<char>,
> {
    match config {
        Some(c) if is_absolute(c) => Some(path_join(c, "archvnde"@)),
        _ => match home {
            Some(h) if is_absolute(h) => Some(path_join(path_join(h, ".config"@), "archvnde"@)),
            _ => None,
        },
    }
}

pub open spec fn opt_string_view(o: Option<String>) -> Option<Seq<char>> {
    match o {
        Some(s) => Some(s@),
        None => None,
    }
}

pub open spec fn opt_str_view(o: Option<&str>) -> Option<Seq<char>> {
    match o {
        Some(s) => Some(s@),
        None => None,
    }
}

/// The shell's configuration folder from the given folders (see
/// `archvnde_config_dir`); a folder it gives is absolute.
pub fn config_dir_from(config: Option<String>, home: Option<&str>) -> (r: Option<String>)
    ensures
        opt_string_view(r) == archvnde_config_dir(opt_string_view(config), opt_str_view(home)),
        r matches Some(p) ==> is_absolute(p@),
{
    proof {
        reveal_strlit(".config");
        reveal_strlit("archvnde");
    }
    if let Some(c) = config {
        let cc = chars_of(c.as_str());
        if cc.len() > 0 && cc[0] == '/' {
            return Some(join_path(c.as_str(), "archvnde"));
        }
    }
    match home {
        Some(h) => {
            let hc = chars_of(h);
            if hc.len() > 0 && hc[0] == '/' {
                let base = join_path(h, ".config");
                Some(join_path(base.as_str(), "archvnde"))
            } else {
                None
            }
        },
        None => None,
    }
}

/// The shell's configuration folder: `archvnde` in the user's
/// configuration folder, else under `$HOME/.config` (`home` is the value
/// of `$HOME`, where set); always absolute, and none where no absolute
/// folder is known.
pub fn get_archvnde_config_dir(home: Option<&str>) -> (r: Option<String>)
    ensures
        exists|config: Option<Seq<char>>|
            opt_string_view(r) == archvnde_config_dir(config, opt_str_view(home)),
        r matches Some(p) ==> is_absolute(p@),
        opt_str_view(home) matches Some(h) && is_absolute(h) ==> r is Some,
{
    let config = user_config_dir();
    let r = config_dir_from(config, home);
    assert(opt_string_view(r) == archvnde_config_dir(opt_string_view(config), opt_str_view(home)));
    r
}

// ---------------------------------------------------------------------------
// The saved wallpaper
// ---------------------------------------------------------------------------
/// The file that records the wallpaper in use, in the user's
/// configuration folder.
pub open spec fn wallpaper_link(config: Seq<char>) -> Seq<char> {
    path_join(config, "archvnde/current_wallpaper"@)
}

/// The file that records the wallpaper in use (see `wallpaper_link`).
pub fn wallpaper_link_path(config_dir: &str) -> (r: String)
    ensures
        r@ == wallpaper_link(config_dir@),
{
    proof {
        reveal_strlit("archvnde/current_wallpaper");
    }
    join_path(config_dir, "archvnde/current_wallpaper")
}

/// The wallpaper path that the record holds: its text, trimmed.
pub fn wallpaper_from_link(content: &str) -> (r: String)
    ensures
        r@ == trim(content@),
{
    let c = chars_of(content);
    let t = trim_chars(&c);
    string_of(&t)
}

/// A way of setting the wallpaper.
#[derive(Clone, Copy, Debug, PartialEq, Eq, Structural)]
pub enum WallpaperBackend {
    /// The `swww` daemon (Wayland, animated).
    Swww,
    /// `swaybg` (Wayland).
    Swaybg,
    /// `feh` (X11).
    Feh,
}

/// The backends tried for setting a wallpaper, in order.
pub open spec fn backend_order() -> Seq<WallpaperBackend> {
    seq![WallpaperBackend::Swww, WallpaperBackend::Swaybg, WallpaperBackend::Feh]
}

/// The backends tried for setting a wallpaper, in order: `swww`, `swaybg`,
/// `feh`; each only where its program is installed.
pub fn wallpaper_backends() -> (r: Vec<WallpaperBackend>)
    ensures
        r@ == backend_order(),
{
    let r = vec![WallpaperBackend::Swww, WallpaperBackend::Swaybg, WallpaperBackend::Feh];
    assert(r@ =~= backend_order());
    r
}

/// The commands a backend runs for setting the wallpaper at `path`: first
/// one whose outcome does not matter (starting the daemon, or stopping a
/// running `swaybg`), then the one that sets it.
pub open spec fn backend_commands(b: WallpaperBackend, path: Seq<char>) -> (
    Option<Seq<Seq<char>>>,
    Seq<Seq<char>>,
) {
    match b {
        WallpaperBackend::Swww => (Some(seq!["swww-daemon"@]), seq!["swww"@, "img"@, path]),
        WallpaperBackend::Swaybg => (
            Some(seq!["killall"@, "swaybg"@]),
            seq!["swaybg"@, "-i"@, path, "-m"@, "fill"@],
        ),
        WallpaperBackend::Feh => (None, seq!["feh"@, "--bg-fill"@, path]),
    }
}

/// The program a backend needs.
pub open spec fn backend_program(b: WallpaperBackend) -> Seq<char> {
    match b {
        WallpaperBackend::Swww => "swww"@,
        WallpaperBackend::Swaybg => "swaybg"@,
        WallpaperBackend::Feh => "feh"@,
    }
}

pub open spec fn strs_view(v: Seq<String>) -> Seq<Seq<char>> {
    v.map_values(|s: String| s@)
}

fn text(s: &str) -> (r: String)
    ensures
        r@ == s@,
{
    let c = chars_of(s);
    string_of(&c)
}

/// The program a backend needs (see `backend_program`).
pub fn backend_program_name(b: WallpaperBackend) -> (r: &'static str)
    ensures
        r@ == backend_program(b),
{
    match b {
        WallpaperBackend::Swww => "swww",
        WallpaperBackend::Swaybg => "swaybg",
        WallpaperBackend::Feh => "feh",
    }
}

/// The commands of a backend (see `backend_commands`).
pub fn wallpaper_commands(b: WallpaperBackend, path: &str) -> (r: (Option<Vec<String>>, Vec<
    String,
>))
    ensures
        ({
            let (pre, set) = backend_commands(b, path@);
            &&& match r.0 {
                Some(p) => pre == Some(strs_view(p@)),
                None => pre is None,
            }
            &&& strs_view(r.1@) == set
        }),
{
    match b {
        WallpaperBackend::Swww => {
            let pre = vec![text("swww-daemon")];
            let set = vec![text("swww"), text("img"), text(path)];
            assert(strs_view(pre@) =~= seq!["swww-daemon"@]);
            assert(strs_view(set@) =~= seq!["swww"@, "img"@, path@]);
            (Some(pre), set)
        },
        WallpaperBackend::Swaybg => {
            let pre = vec![text("killall"), text("swaybg")];
            let set = vec![text("swaybg"), text("-i"), text(path), text("-m"), text("fill")];
            assert(strs_view(pre@) =~= seq!["killall"@, "swaybg"@]);
            assert(strs_view(set@) =~= seq!["swaybg"@, "-i"@, path@, "-m"@, "fill"@]);
            (Some(pre), set)
        },
        WallpaperBackend::Feh => {
            let set = vec![text("feh"), text("--bg-fill"), text(path)];
            assert(strs_view(set@) =~= seq!["feh"@, "--bg-fill"@, path@]);
            (None, set)
        },
    }
}

/// How the command that sets the wallpaper went.
pub enum CommandOutcome {
    /// It could not be started; the error's text.
    NotRun(String),
    /// It ran and exited, successfully or not.
    Exited(bool),
    /// It was started in the background.
    Started,
}

/// What follows the command that sets the wallpaper.
pub enum BackendResult {
    /// The wallpaper is set: record it and stop.
    Done,
    /// Try the next backend.
    TryNext,
    /// Stop with this error.
    Failed(String),
}

/// What follows the setting command of backend `b`: `swww` and `feh` wait
/// for it, and it must exit successfully (an error starting it ends the
/// attempt with that error); `swaybg` is started in the background, and
/// only a failure to start it moves on.
pub fn backend_result(b: WallpaperBackend, outcome: CommandOutcome) -> (r: BackendResult)
    ensures
        match b {
            WallpaperBackend::Swaybg => match outcome {
                CommandOutcome::Started => r is Done,
                _ => r is TryNext,
            },
            _ => match outcome {
                CommandOutcome::NotRun(e) => r matches BackendResult::Failed(f) && f@ == e@,
                CommandOutcome::Exited(true) => r is Done,
                _ => r is TryNext,
            },
        },
{
    match b {
        WallpaperBackend::Swaybg => match outcome {
            CommandOutcome::Started => BackendResult::Done,
            _ => BackendResult::TryNext,
        },
        _ => match outcome {
            CommandOutcome::NotRun(e) => BackendResult::Failed(e),
            CommandOutcome::Exited(true) => BackendResult::Done,
            _ => BackendResult::TryNext,
        },
    }
}

/// The error where no backend set the wallpaper.
pub fn no_backend_error() -> (r: String)
    ensures
        r@ == "No compatible wallpaper backend (swww, swaybg, or feh) was found in PATH"@,
{
    text("No compatible wallpaper backend (swww, swaybg, or feh) was found in PATH")
}

// ---------------------------------------------------------------------------
// Screenshots
// ---------------------------------------------------------------------------
/// The user's pictures folder (`dirs::picture_dir`), as text. It depends
/// on the environment: nothing is stated of it.
#[verifier::external_body]
fn user_picture_dir() -> (r: Option<String>) {
    dirs::picture_dir().map(|p| p.to_string_lossy().into_owned())
}

/// The user's home folder (`dirs::home_dir`), as text. It depends on the
/// environment: nothing is stated of it.
#[verifier::external_body]
fn user_home_dir() -> (r: Option<String>) {
    dirs::home_dir().map(|p| p.to_string_lossy().into_owned())
}

/// Whether `f` is one of the patterns the shell writes the time with: the
/// screenshot stamp, the clock's day and month, the clock's time.
pub open spec fn time_pattern(f: Seq<char>) -> bool {
    f == "%Y-%m-%d_%H-%M-%S"@ || f == "%d/%m"@ || f == "%I:%M %p"@
}

pub open spec fn is_digit(c: char) -> bool {
    '0' <= c && c <= '9'
}

/// The shape chrono writes `%d/%m` in: two digits, `/`, two digits.
pub open spec fn day_month_shape(t: Seq<char>) -> bool {
    t.len() == 5 && is_digit(t[0]) && is_digit(t[1]) && t[2] == '/' && is_digit(t[3]) && is_digit(
        t[4],
    )
}

/// The shape chrono writes `%I:%M %p` in: two digits, `:`, two digits, a
/// space, and `AM` or `PM`.
pub open spec fn clock_time_shape(t: Seq<char>) -> bool {
    &&& t.len() == 8
    &&& is_digit(t[0]) && is_digit(t[1]) && t[2] == ':' && is_digit(t[3]) && is_digit(t[4])
    &&& t[5] == ' '
    &&& (t.subrange(6, 8) == "AM"@ || t.subrange(6, 8) == "PM"@)
}

/// The shape chrono writes `%Y-%m-%d_%H-%M-%S` in: the year in four
/// characters or more, then `-`, month, `-`, day, `_`, hour, `-`, minute,
/// `-`, second, each of these two digits.
pub open spec fn stamp_shape(t: Seq<char>) -> bool {
    &&& t.len() >= 19
    &&& {
        let e = t.skip(t.len() - 15);
        &&& e[0] == '-' && is_digit(e[1]) && is_digit(e[2])
        &&& e[3] == '-' && is_digit(e[4]) && is_digit(e[5])
        &&& e[6] == '_' && is_digit(e[7]) && is_digit(e[8])
        &&& e[9] == '-' && is_digit(e[10]) && is_digit(e[11])
        &&& e[12] == '-' && is_digit(e[13]) && is_digit(e[14])
    }
}

/// The local time (`chrono::Local::now`), read once and written with
/// `format` in each of the patterns `fmts`. The time depends on the clock;
/// what chrono's source fixes of every outcome is stated: month, day, hour,
/// minute and second are written as two zero-padded digits (a leap second
/// as `60`), the year in at least four characters (four digits, or a sign
/// and at least four digits outside 0 to 9999), and `%p` as `AM` or `PM`
/// (the crate's unlocalised names).
#[verifier::external_body]
pub(crate) fn local_time_texts(fmts: &Vec<&str>) -> (r: Vec<String>)
    requires
        forall|k: int| 0 <= k < fmts@.len() ==> time_pattern(#[trigger] fmts@[k]@),
    ensures
        r@.len() == fmts@.len(),
        forall|k: int|
            0 <= k < fmts@.len() && fmts@[k]@ == "%d/%m"@ ==> day_month_shape(#[trigger] r@[k]@),
        forall|k: int|
            0 <= k < fmts@.len() && fmts@[k]@ == "%Y-%m-%d_%H-%M-%S"@ ==> stamp_shape(
                #[trigger] r@[k]@,
            ),
        forall|k: int|
            0 <= k < fmts@.len() && fmts@[k]@ == "%I:%M %p"@ ==> clock_time_shape(
                #[trigger] r@[k]@,
            ),
{
    let now = chrono::Local::now();
    fmts.iter().map(|f| now.format(f).to_string()).collect()
}

/// The folder screenshots are saved in: `Screenshots` in the pictures
/// folder, else in `Pictures` of the home folder, else of `/tmp`.
pub open spec fn screenshots_dir(pictures: Option<Seq<char>>, home: Option<Seq<char>>) -> Seq<
    char,
> {
    let pics = match pictures {
        Some(p) => p,
        None => path_join(
            match home {
                Some(h) => h,
                None => "/tmp"@,
            },
            "Pictures"@,
        ),
    };
    path_join(pics, "Screenshots"@)
}

/// The file a screenshot taken at `stamp` is saved as.
pub open spec fn screenshot_file(dir: Seq<char>, stamp: Seq<char>) -> Seq<char> {
    path_join(dir, "Screenshot_"@ + stamp + ".png"@)
}

/// The folder and file of a screenshot taken at `stamp`, given the
/// pictures and home folders where known (see `screenshots_dir` and
/// `screenshot_file`).
pub fn screenshot_paths(pictures: Option<String>, home: Option<String>, stamp: &str) -> (r: (
    String,
    String,
))
    ensures
        r.0@ == screenshots_dir(opt_string_view(pictures), opt_string_view(home)),
        r.1@ == screenshot_file(r.0@, stamp@),
{
    proof {
        reveal_strlit("Pictures");
        reveal_strlit("Screenshots");
        reveal_strlit("Screenshot_");
    }
    let pics: String = match pictures {
        Some(p) => p,
        None => {
            let h: String = match home {
                Some(h) => h,
                None => text("/tmp"),
            };
            join_path(h.as_str(), "Pictures")
        },
    };
    let dir = join_path(pics.as_str(), "Screenshots");
    let pre = chars_of("Screenshot_");
    let sc = chars_of(stamp);
    let png = chars_of(".png");
    let a = concat_chars(&pre, &sc);
    let name = concat_chars(&a, &png);
    let name_s = string_of(&name);
    assert(name@[0] == 'S');
    let file = join_path(dir.as_str(), name_s.as_str());
    (dir, file)
}

/// Where a screenshot taken now is saved: the folder (to be created where
/// missing) and the file, `Screenshot_` and the local time.
pub fn get_screenshot_save_path() -> (r: (String, String))
    ensures
        exists|pictures: Option<Seq<char>>, home: Option<Seq<char>>|
            r.0@ == screenshots_dir(pictures, home),
        exists|stamp: Seq<char>| stamp_shape(stamp) && r.1@ == screenshot_file(r.0@, stamp),
{
    let pictures = user_picture_dir();
    let home = if pictures.is_none() {
        user_home_dir()
    } else {
        None
    };
    let pattern: &str = "%Y-%m-%d_%H-%M-%S";
    proof {
        reveal_strlit("%Y-%m-%d_%H-%M-%S");
    }
    let fmts: Vec<&str> = vec![pattern];
    let texts = local_time_texts(&fmts);
    assert(stamp_shape(texts@[0]@));
    screenshot_paths(pictures, home, texts[0].as_str())
}

} // verus!
