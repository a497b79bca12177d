//! Icons: the stroke icons bundled with the shell and their colouring,
//! and how an icon named by an application or a path is found.
use vstd::prelude::*;

use crate::desktop::{apps_view, DesktopApp, DesktopAppView};
use crate::text::{
    chars_eq, chars_eq_str, chars_of, ends_with, ends_with_exec, lowercase, lowercase_chars,
    replace_all, replace_chars, starts_with, string_of, sub_chars, utf8_width,
};

verus! {

// ---------------------------------------------------------------------------
// Bundled icons
// ---------------------------------------------------------------------------
/// The names of the stroke icons bundled with the shell.
pub open spec fn bundled_names() -> Seq<Seq<char>> {
    seq![
        "activity"@,
        "airplane"@,
        "battery"@,
        "bell"@,
        "bell-off"@,
        "bluetooth"@,
        "brightness"@,
        "caffeine"@,
        "camera"@,
        "clock"@,
        "dark-mode"@,
        "display"@,
        "download"@,
        "ethernet"@,
        "folder"@,
        "gsconnect"@,
        "info"@,
        "lock"@,
        "logo"@,
        "logout"@,
        "microphone"@,
        "music"@,
        "night-light"@,
        "performance"@,
        "plus"@,
        "power"@,
        "privacy"@,
        "restart"@,
        "search"@,
        "server"@,
        "settings"@,
        "shield"@,
        "terminal"@,
        "text"@,
        "trash"@,
        "unlock"@,
        "user"@,
        "volume"@,
        "wifi"@,
    ]
}

fn bundled_names_exec() -> (r: Vec<&'static str>)
    ensures
        r@.map_values(|s: &str| s@) == bundled_names(),
{
    let r: Vec<&'static str> = vec![
        "activity",
        "airplane",
        "battery",
        "bell",
        "bell-off",
        "bluetooth",
        "brightness",
        "caffeine",
        "camera",
        "clock",
        "dark-mode",
        "display",
        "download",
        "ethernet",
        "folder",
        "gsconnect",
        "info",
        "lock",
        "logo",
        "logout",
        "microphone",
        "music",
        "night-light",
        "performance",
        "plus",
        "power",
        "privacy",
        "restart",
        "search",
        "server",
        "settings",
        "shield",
        "terminal",
        "text",
        "trash",
        "unlock",
        "user",
        "volume",
        "wifi",
    ];
    assert(r@.map_values(|s: &str| s@) =~= bundled_names());
    r
}

/// Whether `name` is one of the bundled stroke icons (which are drawn in
/// the colour asked for; other names go to the icon theme).
pub fn is_bundled_icon(name: &str) -> (b: bool)
    ensures
        b == bundled_names().contains(name@),
{
    let names = bundled_names_exec();
    let nc = chars_of(name);
    let ghost nv = names@.map_values(|s: &str| s@);
    let mut i: usize = 0;
    while i < names.len()
        invariant
            i <= names@.len(),
            nv == names@.map_values(|s: &str| s@),
            nv == bundled_names(),
            nc@ == name@,
            forall|k: int| 0 <= k < i ==> nv[k] != name@,
        decreases names@.len() - i,
    {
        if chars_eq_str(&nc, names[i]) {
            assert(nv[i as int] == name@);
            return true;
        }
        i += 1;
    }
    false
}

/// A bundled icon drawn in `color`: each `currentColor` of its SVG source
/// becomes the colour.
pub fn recolor_svg(svg: &str, color: &str) -> (r: String)
    ensures
        r@ == replace_all(svg@, "currentColor"@, color@),
{
    let sc = chars_of(svg);
    let pat = chars_of("currentColor");
    proof {
        reveal_strlit("currentColor");
    }
    let cc = chars_of(color);
    let out = replace_chars(&sc, &pat, &cc);
    string_of(&out)
}

/// The colour icons are drawn in by default: white on a dark theme, near
/// black on a light one.
pub fn default_icon_color(is_dark: bool) -> (r: &'static str)
    ensures
        r@ == if is_dark {
            "#ffffff"@
        } else {
            "#1c1c1e"@
        },
{
    if is_dark {
        "#ffffff"
    } else {
        "#1c1c1e"
    }
}

// ---------------------------------------------------------------------------
// Icons named by applications
// ---------------------------------------------------------------------------
/// The byte length of the image extension `name` ends with, letter case
/// aside, checked in the order `.png`, `.svg`, `.xpm`, `.jpg`, `.jpeg`,
/// `.gif`.
pub open spec fn image_ext_len(name: Seq<char>) -> Option<nat> {
    let l = lowercase(name);
    if ends_with(l, ".png"@) || ends_with(l, ".svg"@) || ends_with(l, ".xpm"@) || ends_with(
        l,
        ".jpg"@,
    ) {
        Some(4)
    } else if ends_with(l, ".jpeg"@) {
        Some(5)
    } else if ends_with(l, ".gif"@) {
        Some(4)
    } else {
        None
    }
}

/// `s` without its last `b` bytes, where that cut falls between two
/// characters.
pub open spec fn drop_bytes(s: Seq<char>, b: nat) -> Option<Seq<char>>
    decreases s.len(),
{
    if b == 0 {
        Some(s)
    } else if s.len() == 0 {
        None
    } else if utf8_width(s.last()) <= b {
        drop_bytes(s.drop_last(), (b - utf8_width(s.last())) as nat)
    } else {
        None
    }
}

/// An icon name without its image extension: `None` where the extension
/// matched in lowercase does not span the name's last bytes as whole
/// characters (the name cannot be cut there).
pub open spec fn clean_icon(name: Seq<char>) -> Option<Seq<char>> {
    match image_ext_len(name) {
        Some(b) => drop_bytes(name, b),
        None => Some(name),
    }
}

fn drop_bytes_exec(s: &[char], b: usize) -> (r: Option<Vec<char>>)
    ensures
        match r {
            Some(v) => drop_bytes(s@, b as nat) == Some(v@),
            None => drop_bytes(s@, b as nat) is None,
        },
{
    let mut n: usize = s.len();
    let mut left: usize = b;
    assert(s@.take(n as int) =~= s@);
    while left > 0
        invariant
            n <= s@.len(),
            drop_bytes(s@, b as nat) == drop_bytes(s@.take(n as int), left as nat),
        decreases n,
    {
        if n == 0 {
            return None;
        }
        let c = s[n - 1];
        let w: usize = if (c as u32) < 0x80 {
            1
        } else if (c as u32) < 0x800 {
            2
        } else if (c as u32) < 0x10000 {
            3
        } else {
            4
        };
        assert(s@.take(n as int).last() == c);
        assert(w as nat == utf8_width(c));
        if w > left {
            return None;
        }
        assert(s@.take(n as int).drop_last() =~= s@.take(n - 1));
        left = left - w;
        n = n - 1;
    }
    Some(sub_chars(s, 0, n))
}

fn ends_with_str(l: &Vec<char>, ext: &str) -> (b: bool)
    ensures
        b == ends_with(l@, ext@),
{
    let e = chars_of(ext);
    ends_with_exec(l, &e)
}

/// The name under which an icon is looked up in the theme: without an
/// image extension (see `clean_icon`). `None` where that cut is not
/// between characters.
pub fn clean_icon_name(name: &str) -> (r: Option<String>)
    ensures
        match r {
            Some(c) => clean_icon(name@) == Some(c@),
            None => clean_icon(name@) is None,
        },
{
    let nc = chars_of(name);
    let l = lowercase_chars(&nc);
    let cut: usize = if ends_with_str(&l, ".png") || ends_with_str(&l, ".svg") || ends_with_str(
        &l,
        ".xpm",
    ) || ends_with_str(&l, ".jpg") {
        4
    } else if ends_with_str(&l, ".jpeg") {
        5
    } else if ends_with_str(&l, ".gif") {
        4
    } else {
        0
    };
    if cut == 0 {
        return Some(string_of(&nc));
    }
    match drop_bytes_exec(&nc, cut) {
        Some(v) => Some(string_of(&v)),
        None => None,
    }
}

/// Where an icon comes from.
pub enum IconSource {
    /// The icon theme's icon of this name.
    Themed(String),
    /// The image file at this path.
    File(String),
}

pub enum IconSourceView {
    Themed(Seq<char>),
    File(Seq<char>),
}

impl View for IconSource {
    type V = IconSourceView;

    open spec fn view(&self) -> IconSourceView {
        match self {
            IconSource::Themed(s) => IconSourceView::Themed(s@),
            IconSource::File(s) => IconSourceView::File(s@),
        }
    }
}

/// The icon of the first application whose lowercase name is `lname`:
/// `Some(None)` where that application has no icon, `None` where no name
/// matches.
pub open spec fn app_icon_for(apps: Seq<DesktopAppView>, lname: Seq<char>) -> Option<
    Option<Seq<char>>,
>
    decreases apps.len(),
{
    if apps.len() == 0 {
        None
    } else if lowercase(apps[0].name) == lname {
        Some(apps[0].icon)
    } else {
        app_icon_for(apps.drop_first(), lname)
    }
}

/// Where the icon named `name` comes from, given what the icon theme
/// holds: `clean` is the name without its image extension, `theme_has_clean`
/// whether the theme has an icon of that name, `apps` the installed
/// applications, and `fallback_available` whether the theme has
/// `fallback`.
///
/// An empty name gives the fallback; a path gives that file; a name the
/// theme knows gives that icon; else the icon of the installed application
/// of that name (letter case aside, its image extension cut), else the
/// fallback where the theme has it, else `image-missing`.
pub open spec fn icon_source_spec(
    name: Seq<char>,
    fallback: Seq<char>,
    clean: Seq<char>,
    theme_has_clean: bool,
    apps: Seq<DesktopAppView>,
    fallback_available: bool,
) -> Option<IconSourceView> {
    if name.len() == 0 {
        Some(IconSourceView::Themed(fallback))
    } else if starts_with(name, "/"@) {
        Some(IconSourceView::File(name))
    } else if theme_has_clean {
        Some(IconSourceView::Themed(clean))
    } else {
        match app_icon_for(apps, lowercase(clean)) {
            Some(Some(icon)) => match clean_icon(icon) {
                Some(c) => Some(IconSourceView::Themed(c)),
                None => None,
            },
            _ => if fallback_available {
                Some(IconSourceView::Themed(fallback))
            } else {
                Some(IconSourceView::Themed("image-missing"@))
            },
        }
    }
}

/// Where the icon named `name` comes from (see `icon_source_spec`; `clean`
/// must be `clean_icon_name(name)`). `None` where the application's icon
/// name cannot be cut before its extension.
pub fn icon_source(
    name: &str,
    fallback: &str,
    clean: &str,
    theme_has_clean: bool,
    apps: &Vec<DesktopApp>,
    fallback_available: bool,
) -> (r: Option<IconSource>)
    ensures
        match r {
            Some(s) => icon_source_spec(
                name@,
                fallback@,
                clean@,
                theme_has_clean,
                apps_view(apps@),
                fallback_available,
            ) == Some(s@),
            None => icon_source_spec(
                name@,
                fallback@,
                clean@,
                theme_has_clean,
                apps_view(apps@),
                fallback_available,
            ) is None,
        },
{
    let nc = chars_of(name);
    if nc.len() == 0 {
        return Some(IconSource::Themed(string_of(&chars_of(fallback))));
    }
    proof {
        reveal_strlit("/");
        assert("/"@ =~= seq!['/']);
        if nc@[0] == '/' {
            assert(nc@.take(1) =~= "/"@);
        } else {
            assert(nc@.take(1)[0] != "/"@[0]);
        }
    }
    if nc[0] == '/' {
        return Some(IconSource::File(string_of(&nc)));
    }
    if theme_has_clean {
        return Some(IconSource::Themed(string_of(&chars_of(clean))));
    }
    let cc = chars_of(clean);
    let lc = lowercase_chars(&cc);
    let ghost av = apps_view(apps@);
    let mut i: usize = 0;
    let mut found: Option<Option<String>> = None;
    assert(av.skip(0) =~= av);
    while i < apps.len()
        invariant_except_break
            found is None,
        invariant
            i <= apps@.len(),
            av == apps_view(apps@),
            lc@ == lowercase(clean@),
            app_icon_for(av, lc@) == app_icon_for(av.skip(i as int), lc@),
        ensures
            match found {
                Some(Some(ic)) => app_icon_for(av, lc@) == Some(Some(ic@)),
                Some(None) => app_icon_for(av, lc@) == Some(None::<Seq<char>>),
                None => app_icon_for(av, lc@) is None,
            },
        decreases apps@.len() - i,
    {
        assert(av.skip(i as int)[0] == apps@[i as int]@);
        assert(av.skip(i as int).drop_first() =~= av.skip(i + 1));
        let an = chars_of(apps[i].name.as_str());
        let al = lowercase_chars(&an);
        if chars_eq(&al, &lc) {
            found = match &apps[i].icon {
                Some(ic) => Some(Some(ic.clone())),
                None => Some(None),
            };
            break;
        }
        i += 1;
    }
    match found {
        Some(Some(icon)) => match clean_icon_name(icon.as_str()) {
            Some(c) => Some(IconSource::Themed(c)),
            None => None,
        },
        _ => {
            if fallback_available {
                Some(IconSource::Themed(string_of(&chars_of(fallback))))
            } else {
                Some(IconSource::Themed(string_of(&chars_of("image-missing"))))
            }
        },
    }
}

} // verus!
