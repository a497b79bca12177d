//! The window switcher: running windows matched to desktop applications,
//! ordered by most recent use, the recent-use history, and the order in
//! which focusing a window is attempted.
use vstd::prelude::*;

use crate::desktop::{apps_view, copy_app, DesktopApp, DesktopAppView};
use crate::island::capitalize;
use crate::order::{is_permutation, stable_order_by_num, stably_sorted_by_num};
use crate::text::{
    chars_eq, chars_eq_str, chars_of, concat_chars, contains, contains_exec, file_name,
    file_name_exec, find, find_char, lines, lines_scan, strip_cr, lowercase, lowercase_chars, rfind, rfind_exec,
    skip_chars, split_lines, split_words, string_from, string_of, take_chars, trim, trim_chars,
    words,
};

verus! {

// ---------------------------------------------------------------------------
// Running windows
// ---------------------------------------------------------------------------
/// The window a line of `wlrctl toplevel list` describes: the application
/// id before the first `:` and the title after it, both trimmed; lines
/// without `:` or with an empty id describe none.
pub open spec fn toplevel_entry(line: Seq<char>) -> Option<(Seq<char>, Seq<char>)> {
    match find(line, seq![':']) {
        Some(pos) => if trim(line.take(pos)).len() > 0 {
            Some((trim(line.take(pos)), trim(line.skip(pos + 1))))
        } else {
            None
        },
        None => None,
    }
}

/// The windows a listing describes, in order.
pub open spec fn toplevels(ls: Seq<Seq<char>>) -> Seq<(Seq<char>, Seq<char>)>
    decreases ls.len(),
{
    if ls.len() == 0 {
        Seq::empty()
    } else {
        match toplevel_entry(ls.last()) {
            Some(e) => toplevels(ls.drop_last()).push(e),
            None => toplevels(ls.drop_last()),
        }
    }
}

/// The key identifying a window: `app_id::title`.
pub open spec fn window_key(w: (Seq<char>, Seq<char>)) -> Seq<char> {
    w.0 + "::"@ + w.1
}

/// The windows without repeats of a key, each kept at its first listing.
pub open spec fn distinct_windows(ws: Seq<(Seq<char>, Seq<char>)>) -> Seq<(Seq<char>, Seq<char>)>
    decreases ws.len(),
{
    if ws.len() == 0 {
        Seq::empty()
    } else {
        let prev = distinct_windows(ws.drop_last());
        if exists|i: int| 0 <= i < prev.len() && window_key(#[trigger] prev[i]) == window_key(ws.last()) {
            prev
        } else {
            prev.push(ws.last())
        }
    }
}

/// The executable named by a command line, in lower case: the file name of
/// its first word (empty when that has none).
pub open spec fn exec_name(cmd: Seq<char>) -> Seq<char> {
    lowercase(
        match file_name(words(cmd)[0]) {
            Some(n) => n,
            None => Seq::empty(),
        },
    )
}

/// First pass: the executable or the name equals the window's id.
pub open spec fn exact_match(a: DesktopAppView, id_lower: Seq<char>) -> bool {
    words(a.exec_cmd).len() > 0 && (exec_name(a.exec_cmd) == id_lower || lowercase(a.name)
        == id_lower)
}

/// Second pass: the id and the executable contain one another, or the
/// title contains the name, or the name contains the id.
pub open spec fn loose_match(a: DesktopAppView, id_lower: Seq<char>, title_lower: Seq<char>) -> bool {
    words(a.exec_cmd).len() > 0 && (contains(id_lower, exec_name(a.exec_cmd)) || contains(
        exec_name(a.exec_cmd),
        id_lower,
    ) || contains(title_lower, lowercase(a.name)) || contains(lowercase(a.name), id_lower))
}

/// Third pass: a Firefox window matches the first application with
/// `firefox` in its name.
pub open spec fn firefox_match(a: DesktopAppView) -> bool {
    contains(lowercase(a.name), "firefox"@)
}

/// The index of the first application satisfying `pred`.
pub open spec fn first_index(apps: Seq<DesktopAppView>, pred: spec_fn(DesktopAppView) -> bool) -> Option<int>
    decreases apps.len(),
{
    if apps.len() == 0 {
        None
    } else if pred(apps[0]) {
        Some(0)
    } else {
        match first_index(apps.drop_first(), pred) {
            Some(i) => Some(i + 1),
            None => None,
        }
    }
}

/// The application a window is matched to, by the three passes in turn.
pub open spec fn matched_app(apps: Seq<DesktopAppView>, id: Seq<char>, title: Seq<char>) -> Option<
    int,
> {
    let il = lowercase(id);
    let tl = lowercase(title);
    match first_index(apps, |a: DesktopAppView| exact_match(a, il)) {
        Some(i) => Some(i),
        None => match first_index(apps, |a: DesktopAppView| loose_match(a, il, tl)) {
            Some(i) => Some(i),
            None => if il == "navigator"@ || contains(tl, "firefox"@) {
                first_index(apps, |a: DesktopAppView| firefox_match(a))
            } else {
                None
            },
        },
    }
}

/// The entry shown for a window: its application with the window's id and
/// title, or, for an unmatched window, an entry named after its id.
pub open spec fn window_entry(apps: Seq<DesktopAppView>, w: (Seq<char>, Seq<char>)) -> DesktopAppView {
    match matched_app(apps, w.0, w.1) {
        Some(i) => DesktopAppView { app_id: Some(w.0), window_title: Some(w.1), ..apps[i] },
        None => DesktopAppView {
            name: capitalize(w.0),
            exec_cmd: w.0,
            icon: Some(w.0),
            app_id: Some(w.0),
            window_title: Some(w.1),
        },
    }
}

/// The rank of a key in the history: its first position, or after every
/// listed key when it is not there.
pub open spec fn history_rank(history: Seq<Seq<char>>, key: Seq<char>) -> int
    decreases history.len(),
{
    if history.len() == 0 {
        0
    } else if history[0] == key {
        0
    } else {
        1 + history_rank(history.drop_first(), key)
    }
}

/// The key by which recent use is looked up: the window title, else the
/// name.
pub open spec fn recency_key(a: DesktopAppView) -> Seq<char> {
    match a.window_title {
        Some(t) => t,
        None => a.name,
    }
}

/// The entries of the running windows before ordering.
pub open spec fn window_entries(apps: Seq<DesktopAppView>, listing: Seq<char>) -> Seq<
    DesktopAppView,
> {
    distinct_windows(toplevels(lines(listing))).map_values(
        |w: (Seq<char>, Seq<char>)| window_entry(apps, w),
    )
}

// ---------------------------------------------------------------------------
// Executable parts
// ---------------------------------------------------------------------------
fn parse_toplevels(listing: &str) -> (r: Vec<(Vec<char>, Vec<char>)>)
    ensures
        r@.len() == toplevels(lines(listing@)).len(),
        forall|k: int|
            0 <= k < r@.len() ==> (#[trigger] r@[k]).0@ == toplevels(lines(listing@))[k].0
                && r@[k].1@ == toplevels(lines(listing@))[k].1,
{
    let cs = chars_of(listing);
    let ls = split_lines(&cs);
    let ghost all = lines(listing@);
    let mut r: Vec<(Vec<char>, Vec<char>)> = Vec::new();
    let mut i: usize = 0;
    while i < ls.len()
        invariant
            ls@.len() == all.len(),
            all == lines(listing@),
            forall|k: int| 0 <= k < ls@.len() ==> #[trigger] ls@[k]@ == all[k],
            i <= ls@.len(),
            r@.len() == toplevels(all.take(i as int)).len(),
            forall|k: int|
                0 <= k < r@.len() ==> (#[trigger] r@[k]).0@ == toplevels(all.take(i as int))[k].0
                    && r@[k].1@ == toplevels(all.take(i as int))[k].1,
        decreases ls@.len() - i,
    {
        assert(all.take(i + 1).drop_last() =~= all.take(i as int));
        let line = &ls[i];
        if let Some(pos) = find_char(line, ':') {
            let head = take_chars(line, pos);
            let id = trim_chars(&head);
            if id.len() > 0 {
                let ll = line.len();
                assert(pos < ll);
                let tail = skip_chars(line, pos + 1);
                let title = trim_chars(&tail);
                r.push((id, title));
            }
        }
        i += 1;
    }
    assert(all.take(all.len() as int) =~= all);
    r
}

fn key_of(w: &(Vec<char>, Vec<char>)) -> (k: Vec<char>)
    ensures
        k@ == window_key((w.0@, w.1@)),
{
    let sep = chars_of("::");
    let a = concat_chars(&w.0, &sep);
    concat_chars(&a, &w.1)
}

fn exec_name_exec(cmd: &String) -> (r: Option<Vec<char>>)
    ensures
        r is None <==> words(cmd@).len() == 0,
        r matches Some(n) ==> n@ == exec_name(cmd@),
{
    let cs = chars_of(cmd.as_str());
    let ws = split_words(&cs);
    if ws.len() == 0 {
        return None;
    }
    let name = match file_name_exec(&ws[0]) {
        Some(n) => n,
        None => Vec::new(),
    };
    Some(lowercase_chars(&name))
}

fn first_exact(apps: &Vec<DesktopApp>, il: &Vec<char>) -> (r: Option<usize>)
    ensures
        r matches Some(i) ==> i < apps@.len(),
        r matches Some(i) ==> first_index(apps_view(apps@), |a: DesktopAppView| exact_match(a, il@))
            == Some(i as int),
        r is None ==> first_index(apps_view(apps@), |a: DesktopAppView| exact_match(a, il@)) is None,
{
    let ghost av = apps_view(apps@);
    let ghost pred = |a: DesktopAppView| exact_match(a, il@);
    let mut i: usize = 0;
    assert(av.skip(0) =~= av);
    while i < apps.len()
        invariant
            av == apps_view(apps@),
            pred == (|a: DesktopAppView| exact_match(a, il@)),
            i <= apps@.len(),
            first_index(av, pred) == match first_index(av.skip(i as int), pred) {
                Some(j) => Some(j + i),
                None => None,
            },
        decreases apps@.len() - i,
    {
        let ghost rest = av.skip(i as int);
        assert(rest[0] == apps@[i as int]@);
        assert(rest.drop_first() =~= av.skip(i + 1));
        let app = &apps[i];
        if let Some(en) = exec_name_exec(&app.exec_cmd) {
            let nc = chars_of(app.name.as_str());
            let nl = lowercase_chars(&nc);
            if chars_eq(&en, il) || chars_eq(&nl, il) {
                return Some(i);
            }
        }
        i += 1;
    }
    None
}

fn first_loose(apps: &Vec<DesktopApp>, il: &Vec<char>, tl: &Vec<char>) -> (r: Option<usize>)
    ensures
        r matches Some(i) ==> i < apps@.len(),
        r matches Some(i) ==> first_index(
            apps_view(apps@),
            |a: DesktopAppView| loose_match(a, il@, tl@),
        ) == Some(i as int),
        r is None ==> first_index(apps_view(apps@), |a: DesktopAppView| loose_match(a, il@, tl@))
            is None,
{
    let ghost av = apps_view(apps@);
    let ghost pred = |a: DesktopAppView| loose_match(a, il@, tl@);
    let mut i: usize = 0;
    assert(av.skip(0) =~= av);
    while i < apps.len()
        invariant
            av == apps_view(apps@),
            pred == (|a: DesktopAppView| loose_match(a, il@, tl@)),
            i <= apps@.len(),
            first_index(av, pred) == match first_index(av.skip(i as int), pred) {
                Some(j) => Some(j + i),
                None => None,
            },
        decreases apps@.len() - i,
    {
        let ghost rest = av.skip(i as int);
        assert(rest[0] == apps@[i as int]@);
        assert(rest.drop_first() =~= av.skip(i + 1));
        let app = &apps[i];
        if let Some(en) = exec_name_exec(&app.exec_cmd) {
            let nc = chars_of(app.name.as_str());
            let nl = lowercase_chars(&nc);
            if contains_exec(il, &en) || contains_exec(&en, il) || contains_exec(tl, &nl)
                || contains_exec(&nl, il) {
                return Some(i);
            }
        }
        i += 1;
    }
    None
}

fn first_firefox(apps: &Vec<DesktopApp>) -> (r: Option<usize>)
    ensures
        r matches Some(i) ==> i < apps@.len(),
        r matches Some(i) ==> first_index(apps_view(apps@), |a: DesktopAppView| firefox_match(a))
            == Some(i as int),
        r is None ==> first_index(apps_view(apps@), |a: DesktopAppView| firefox_match(a)) is None,
{
    let ghost av = apps_view(apps@);
    let ghost pred = |a: DesktopAppView| firefox_match(a);
    let ff = chars_of("firefox");
    let mut i: usize = 0;
    assert(av.skip(0) =~= av);
    while i < apps.len()
        invariant
            av == apps_view(apps@),
            pred == (|a: DesktopAppView| firefox_match(a)),
            ff@ == "firefox"@,
            i <= apps@.len(),
            first_index(av, pred) == match first_index(av.skip(i as int), pred) {
                Some(j) => Some(j + i),
                None => None,
            },
        decreases apps@.len() - i,
    {
        let ghost rest = av.skip(i as int);
        assert(rest[0] == apps@[i as int]@);
        assert(rest.drop_first() =~= av.skip(i + 1));
        let nc = chars_of(apps[i].name.as_str());
        let nl = lowercase_chars(&nc);
        if contains_exec(&nl, &ff) {
            return Some(i);
        }
        i += 1;
    }
    None
}

fn entry_for(apps: &Vec<DesktopApp>, w: &(Vec<char>, Vec<char>)) -> (r: DesktopApp)
    ensures
        r@ == window_entry(apps_view(apps@), (w.0@, w.1@)),
{
    let id = string_of(&w.0);
    let title = string_of(&w.1);
    let il = lowercase_chars(&w.0);
    let tl = lowercase_chars(&w.1);
    let ghost av = apps_view(apps@);
    let m = match first_exact(apps, &il) {
        Some(i) => Some(i),
        None => match first_loose(apps, &il, &tl) {
            Some(i) => Some(i),
            None => {
                if chars_eq_str(&il, "navigator") || contains_exec(&tl, &chars_of("firefox")) {
                    first_firefox(apps)
                } else {
                    None
                }
            },
        },
    };
    assert(m matches Some(i) ==> matched_app(av, w.0@, w.1@) == Some(i as int));
    assert(m is None ==> matched_app(av, w.0@, w.1@) is None);
    match m {
        Some(i) => {
            let mut a = copy_app(&apps[i]);
            a.app_id = Some(id);
            a.window_title = Some(title);
            a
        },
        None => {
            let name = crate::island::capitalize_first(id.as_str());
            DesktopApp {
                name,
                exec_cmd: id.clone(),
                icon: Some(id.clone()),
                app_id: Some(id),
                window_title: Some(title),
            }
        },
    }
}

fn rank_in(history: &Vec<String>, key: &Vec<char>) -> (r: u64)
    ensures
        r as int == history_rank(history@.map_values(|h: String| h@), key@),
{
    let ghost hv = history@.map_values(|h: String| h@);
    let mut i: usize = 0;
    assert(hv.skip(0) =~= hv);
    while i < history.len()
        invariant
            hv == history@.map_values(|h: String| h@),
            i <= history@.len(),
            history_rank(hv, key@) == i + history_rank(hv.skip(i as int), key@),
        decreases history@.len() - i,
    {
        let ghost rest = hv.skip(i as int);
        assert(rest[0] == history@[i as int]@);
        assert(rest.drop_first() =~= hv.skip(i + 1));
        let hc = chars_of(history[i].as_str());
        if chars_eq(&hc, key) {
            return i as u64;
        }
        i += 1;
    }
    assert(hv.skip(i as int).len() == 0);
    i as u64
}

/// The running windows as the switcher lists them: one entry per distinct
/// window of `listing` (the output of `wlrctl toplevel list`; empty when it
/// could not be run), matched to `desktop_apps`, in order of most recent
/// use according to `history` (windows of equal rank in listing order).
pub fn get_running_apps(desktop_apps: &Vec<DesktopApp>, listing: &str, history: &Vec<String>) -> (r:
    Vec<DesktopApp>)
    ensures
        ({
            let entries = window_entries(apps_view(desktop_apps@), listing@);
            let hv = history@.map_values(|h: String| h@);
            &&& r@.len() == entries.len()
            &&& exists|order: Seq<usize>|
                {
                    &&& is_permutation(order, entries.len())
                    &&& stably_sorted_by_num(
                        Seq::new(
                            entries.len(),
                            |i: int| history_rank(hv, recency_key(entries[i])) as u64,
                        ),
                        order,
                    )
                    &&& forall|k: int|
                        0 <= k < r@.len() ==> (#[trigger] r@[k])@ == entries[order[k] as int]
                }
        }),
{
    let ghost av = apps_view(desktop_apps@);
    let ghost hv = history@.map_values(|h: String| h@);
    let wins = parse_toplevels(listing);
    let ghost tops = toplevels(lines(listing@));
    let ghost dist = distinct_windows(tops);
    let ghost entries = window_entries(av, listing@);
    // distinct windows, matched
    let mut keys: Vec<Vec<char>> = Vec::new();
    let mut found: Vec<DesktopApp> = Vec::new();
    let mut i: usize = 0;
    while i < wins.len()
        invariant
            wins@.len() == tops.len(),
            tops == toplevels(lines(listing@)),
            av == apps_view(desktop_apps@),
            forall|k: int|
                0 <= k < wins@.len() ==> (#[trigger] wins@[k]).0@ == tops[k].0 && wins@[k].1@
                    == tops[k].1,
            i <= wins@.len(),
            keys@.len() == distinct_windows(tops.take(i as int)).len(),
            found@.len() == keys@.len(),
            forall|k: int|
                0 <= k < keys@.len() ==> #[trigger] keys@[k]@ == window_key(
                    distinct_windows(tops.take(i as int))[k],
                ),
            forall|k: int|
                0 <= k < found@.len() ==> (#[trigger] found@[k])@ == window_entry(
                    av,
                    distinct_windows(tops.take(i as int))[k],
                ),
        decreases wins@.len() - i,
    {
        let ghost prev = distinct_windows(tops.take(i as int));
        assert(tops.take(i + 1).drop_last() =~= tops.take(i as int));
        assert(tops.take(i + 1).last() == tops[i as int]);
        let w = &wins[i];
        assert((w.0@, w.1@) == tops[i as int]);
        let key = key_of(w);
        let mut k: usize = 0;
        let mut dup = false;
        while k < keys.len() && !dup
            invariant
                k <= keys@.len(),
                keys@.len() == prev.len(),
                forall|m: int| 0 <= m < keys@.len() ==> #[trigger] keys@[m]@ == window_key(prev[m]),
                !dup ==> forall|m: int| 0 <= m < k ==> window_key(#[trigger] prev[m]) != key@,
                dup ==> k > 0 && window_key(prev[k - 1]) == key@,
            decreases keys@.len() - k, if dup { 0int } else { 1int },
        {
            if chars_eq(&keys[k], &key) {
                dup = true;
            }
            k += 1;
        }
        if !dup {
            let e = entry_for(desktop_apps, w);
            keys.push(key);
            found.push(e);
            proof {
                assert(!exists|m: int| 0 <= m < prev.len() && window_key(#[trigger] prev[m])
                    == window_key(tops[i as int]));
            }
        } else {
            proof {
                assert(window_key(prev[k - 1]) == window_key(tops[i as int]));
            }
        }
        i += 1;
    }
    assert(tops.take(tops.len() as int) =~= tops);
    assert(entries =~= dist.map_values(|w: (Seq<char>, Seq<char>)| window_entry(av, w)));
    // ranks and stable order
    let mut ranks: Vec<u64> = Vec::new();
    let mut j: usize = 0;
    while j < found.len()
        invariant
            j <= found@.len(),
            found@.len() == entries.len(),
            forall|k: int| 0 <= k < found@.len() ==> (#[trigger] found@[k])@ == entries[k],
            hv == history@.map_values(|h: String| h@),
            ranks@.len() == j,
            forall|k: int|
                0 <= k < j ==> #[trigger] ranks@[k] as int == history_rank(hv, recency_key(entries[k])),
        decreases found@.len() - j,
    {
        let f = &found[j];
        let rk = match &f.window_title {
            Some(t) => chars_of(t.as_str()),
            None => chars_of(f.name.as_str()),
        };
        assert(rk@ == recency_key(entries[j as int]));
        let rank = rank_in(history, &rk);
        ranks.push(rank);
        j += 1;
    }
    let order = stable_order_by_num(&ranks);
    assert(ranks@ =~= Seq::new(
        entries.len(),
        |i: int| history_rank(hv, recency_key(entries[i])) as u64,
    ));
    let mut r: Vec<DesktopApp> = Vec::new();
    let mut m: usize = 0;
    while m < order.len()
        invariant
            is_permutation(order@, ranks@.len()),
            ranks@.len() == found@.len(),
            found@.len() == entries.len(),
            forall|k: int| 0 <= k < found@.len() ==> (#[trigger] found@[k])@ == entries[k],
            m <= order@.len(),
            r@.len() == m,
            forall|k: int| 0 <= k < m ==> (#[trigger] r@[k])@ == entries[order@[k] as int],
        decreases order@.len() - m,
    {
        r.push(copy_app(&found[order[m]]));
        m += 1;
    }
    r
}

// ---------------------------------------------------------------------------
// History of recent use
// ---------------------------------------------------------------------------
/// The history file's entries: one per line.
pub fn get_history(content: &str) -> (r: Vec<String>)
    ensures
        r@.map_values(|h: String| h@) == lines(content@),
{
    let cs = chars_of(content);
    let ls = split_lines(&cs);
    let mut r: Vec<String> = Vec::new();
    let mut i: usize = 0;
    while i < ls.len()
        invariant
            i <= ls@.len(),
            ls@.len() == lines(content@).len(),
            forall|k: int| 0 <= k < ls@.len() ==> #[trigger] ls@[k]@ == lines(content@)[k],
            r@.map_values(|h: String| h@) == lines(content@).take(i as int),
        decreases ls@.len() - i,
    {
        let ghost prev = r@;
        let st = string_of(&ls[i]);
        r.push(st);
        assert(r@ == prev.push(st));
        assert(r@.map_values(|h: String| h@) =~= prev.map_values(|h: String| h@).push(st@));
        assert(r@.map_values(|h: String| h@) =~= lines(content@).take(i + 1));
        i += 1;
    }
    assert(lines(content@).take(ls@.len() as int) =~= lines(content@));
    r
}

/// The most entries the history keeps.
pub const HISTORY_LIMIT: usize = 20;

/// `h` without the entries equal to `a`, the others in their order.
pub open spec fn without_entry(h: Seq<Seq<char>>, a: Seq<char>) -> Seq<Seq<char>>
    decreases h.len(),
{
    if h.len() == 0 {
        h
    } else if h.last() == a {
        without_entry(h.drop_last(), a)
    } else {
        without_entry(h.drop_last(), a).push(h.last())
    }
}

/// The history after `active` was used: `active` first, then the other
/// entries in their order without it, at most `HISTORY_LIMIT` in all.
pub open spec fn history_after(history: Seq<Seq<char>>, active: Seq<char>) -> Seq<Seq<char>> {
    let all = seq![active] + without_entry(history, active);
    if all.len() > HISTORY_LIMIT {
        all.take(HISTORY_LIMIT as int)
    } else {
        all
    }
}

/// Records that `active_name` was just used (see `history_after`).
pub fn save_history(history: &Vec<String>, active_name: &str) -> (r: Vec<String>)
    ensures
        r@.map_values(|h: String| h@) == history_after(
            history@.map_values(|h: String| h@),
            active_name@,
        ),
{
    let ghost hv = history@.map_values(|h: String| h@);
    let av = chars_of(active_name);
    let mut r: Vec<String> = Vec::new();
    let first = string_from(active_name);
    r.push(first);
    assert(r@.map_values(|h: String| h@) =~= seq![active_name@] + without_entry(
        hv.take(0),
        active_name@,
    ));
    let mut i: usize = 0;
    while i < history.len()
        invariant
            hv == history@.map_values(|h: String| h@),
            av@ == active_name@,
            i <= history@.len(),
            r@.map_values(|h: String| h@) == seq![active_name@] + without_entry(
                hv.take(i as int),
                active_name@,
            ),
        decreases history@.len() - i,
    {
        assert(hv.take(i + 1).drop_last() =~= hv.take(i as int));
        assert(hv.take(i + 1).last() == history@[i as int]@);
        let hc = chars_of(history[i].as_str());
        let ghost prev = r@;
        if !chars_eq(&hc, &av) {
            let hi = history[i].clone();
            r.push(hi);
            assert(r@ == prev.push(hi));
            assert(r@.map_values(|h: String| h@) =~= prev.map_values(|h: String| h@).push(hi@));
            assert(r@.map_values(|h: String| h@) =~= seq![active_name@] + without_entry(
                hv.take(i + 1),
                active_name@,
            ));
        }
        i += 1;
    }
    assert(hv.take(history@.len() as int) =~= hv);
    r.truncate(HISTORY_LIMIT);
    proof {
        let all = seq![active_name@] + without_entry(hv, active_name@);
        if all.len() > HISTORY_LIMIT {
            assert(r@.map_values(|h: String| h@) =~= all.take(HISTORY_LIMIT as int));
        }
    }
    r
}

/// The history file's text: each entry followed by a line feed.
pub open spec fn history_text(h: Seq<Seq<char>>) -> Seq<char>
    decreases h.len(),
{
    if h.len() == 0 {
        Seq::empty()
    } else {
        history_text(h.drop_last()) + h.last() + seq!['\n']
    }
}

/// An entry that reads back as itself from its own line: no line feed in
/// it, and no carriage return at its end.
pub open spec fn plain_entry(e: Seq<char>) -> bool {
    !e.contains('\n') && !(e.len() > 0 && e.last() == '\r')
}

/// The text of the history file holding `entries` (see `history_text`).
pub fn history_file_text(entries: &Vec<String>) -> (r: String)
    ensures
        r@ == history_text(entries@.map_values(|h: String| h@)),
{
    let ghost hv = entries@.map_values(|h: String| h@);
    let mut out: Vec<char> = Vec::new();
    let mut i: usize = 0;
    while i < entries.len()
        invariant
            i <= entries@.len(),
            hv == entries@.map_values(|h: String| h@),
            out@ == history_text(hv.take(i as int)),
        decreases entries@.len() - i,
    {
        assert(hv.take(i + 1).drop_last() =~= hv.take(i as int));
        assert(hv.take(i + 1).last() == entries@[i as int]@);
        let e = chars_of(entries[i].as_str());
        let with = concat_chars(&out, &e);
        let lf = vec!['\n'];
        out = concat_chars(&with, &lf);
        i += 1;
    }
    assert(hv.take(entries@.len() as int) =~= hv);
    string_of(&out)
}

/// Reading on past characters that hold no line feed only extends the
/// current line.
proof fn lemma_scan_append(p: Seq<char>, e: Seq<char>)
    requires
        !e.contains('\n'),
    ensures
        lines_scan(p + e) == (lines_scan(p).0, lines_scan(p).1 + e),
    decreases e.len(),
{
    if e.len() == 0 {
        assert(p + e =~= p);
        assert(lines_scan(p).1 + e =~= lines_scan(p).1);
    } else {
        let init = e.drop_last();
        assert(!init.contains('\n')) by {
            if init.contains('\n') {
                let j = choose|j: int| 0 <= j < init.len() && init[j] == '\n';
                assert(e[j] == '\n');
            }
        }
        lemma_scan_append(p, init);
        assert((p + e).drop_last() =~= p + init);
        assert(e[e.len() - 1] != '\n');
        assert(lines_scan(p).1 + init.push(e.last()) =~= lines_scan(p).1 + e);
        assert(init.push(e.last()) =~= e);
        assert((lines_scan(p).1 + init).push(e.last()) =~= lines_scan(p).1 + e);
    }
}

/// The entries as they read back from their own lines: a carriage return
/// at the end of an entry is taken for part of the line ending.
pub open spec fn read_back(h: Seq<Seq<char>>) -> Seq<Seq<char>> {
    h.map_values(|e: Seq<char>| strip_cr(e))
}

proof fn lemma_scan_history(h: Seq<Seq<char>>)
    requires
        forall|k: int| 0 <= k < h.len() ==> !(#[trigger] h[k]).contains('\n'),
    ensures
        lines_scan(history_text(h)) == (read_back(h), Seq::<char>::empty()),
    decreases h.len(),
{
    if h.len() > 0 {
        let init = h.drop_last();
        assert forall|k: int| 0 <= k < init.len() implies !(#[trigger] init[k]).contains('\n') by {
            assert(init[k] == h[k]);
        }
        lemma_scan_history(init);
        let e = h.last();
        assert(!h[h.len() - 1].contains('\n'));
        let p = history_text(init);
        lemma_scan_append(p, e);
        assert(Seq::<char>::empty() + e =~= e);
        let t = p + e + seq!['\n'];
        assert(t.drop_last() =~= p + e);
        assert(t.last() == '\n');
        assert(read_back(init).push(strip_cr(e)) =~= read_back(h));
    }
}

/// Every line of a text is free of line feeds.
proof fn lemma_lines_no_lf(s: Seq<char>)
    ensures
        forall|k: int| 0 <= k < lines(s).len() ==> !(#[trigger] lines(s)[k]).contains('\n'),
{
    lemma_scan_no_lf(s);
    let (done, cur) = lines_scan(s);
    if cur.len() > 0 {
        assert forall|k: int| 0 <= k < lines(s).len() implies !(#[trigger] lines(s)[k]).contains(
            '\n',
        ) by {
            if k < done.len() {
                assert(lines(s)[k] == done[k]);
            } else {
                assert(lines(s)[k] == cur);
            }
        }
    }
}

proof fn lemma_scan_no_lf(s: Seq<char>)
    ensures
        forall|k: int|
            0 <= k < lines_scan(s).0.len() ==> !(#[trigger] lines_scan(s).0[k]).contains('\n'),
        !lines_scan(s).1.contains('\n'),
    decreases s.len(),
{
    if s.len() > 0 {
        lemma_scan_no_lf(s.drop_last());
        let (done, cur) = lines_scan(s.drop_last());
        if s.last() == '\n' {
            let l = strip_cr(cur);
            assert(!l.contains('\n')) by {
                if l.contains('\n') {
                    let j = choose|j: int| 0 <= j < l.len() && l[j] == '\n';
                    assert(cur[j] == l[j]);
                }
            }
            let d2 = done.push(l);
            assert forall|k: int| 0 <= k < d2.len() implies !(#[trigger] d2[k]).contains('\n') by {
                if k < done.len() {
                    assert(d2[k] == done[k]);
                }
            }
            assert(!Seq::<char>::empty().contains('\n'));
        } else {
            let c2 = cur.push(s.last());
            assert(!c2.contains('\n')) by {
                if c2.contains('\n') {
                    let j = choose|j: int| 0 <= j < c2.len() && c2[j] == '\n';
                    if j < cur.len() {
                        assert(cur[j] == c2[j]);
                    }
                }
            }
        }
    }
}

/// Written to its file, a history reads back entry by entry, where no
/// entry holds a line feed; each entry comes back as itself unless it
/// ends with a carriage return, which is then taken for part of the line
/// ending (so entries that end in none read back exactly).
pub proof fn law_history_round_trip(h: Seq<Seq<char>>)
    requires
        forall|k: int| 0 <= k < h.len() ==> !(#[trigger] h[k]).contains('\n'),
    ensures
        lines(history_text(h)) == read_back(h),
        (forall|k: int| 0 <= k < h.len() ==> plain_entry(#[trigger] h[k])) ==> lines(
            history_text(h),
        ) == h,
{
    lemma_scan_history(h);
    if forall|k: int| 0 <= k < h.len() ==> plain_entry(#[trigger] h[k]) {
        assert(read_back(h) =~= h);
    }
}

/// Saving a use and reading the file back, whatever history the file held:
/// the entry just used comes first, there are at most `HISTORY_LIMIT`
/// entries, and it comes back once, unless an earlier entry was the same
/// name followed by a carriage return.
pub proof fn law_saved_history_reads_back(content: Seq<char>, active: Seq<char>)
    requires
        plain_entry(active),
    ensures
        ({
            let after = history_after(lines(content), active);
            let back = lines(history_text(after));
            &&& back == read_back(after)
            &&& 1 <= back.len() <= HISTORY_LIMIT
            &&& back[0] == active
            &&& (forall|k: int| 0 <= k < lines(content).len() ==> #[trigger] lines(content)[k]
                != active.push('\r')) ==> forall|k: int| 1 <= k < back.len() ==> #[trigger] back[k]
                != active
        }),
{
    let prev = lines(content);
    let after = history_after(prev, active);
    lemma_lines_no_lf(content);
    law_history_most_recent_first(prev, active);
    assert forall|k: int| 0 <= k < after.len() implies !(#[trigger] after[k]).contains('\n') by {
        if k > 0 {
            let j = choose|j: int| 0 <= j < prev.len() && prev[j] == after[k];
            assert(!prev[j].contains('\n'));
        }
    }
    law_history_round_trip(after);
    let back = lines(history_text(after));
    assert(back[0] == strip_cr(after[0]));
    if forall|k: int| 0 <= k < prev.len() ==> #[trigger] prev[k] != active.push('\r') {
        assert forall|k: int| 1 <= k < back.len() implies #[trigger] back[k] != active by {
            let e = after[k];
            assert(back[k] == strip_cr(e));
            assert(e != active);
            let j = choose|j: int| 0 <= j < prev.len() && prev[j] == e;
            if e.len() > 0 && e.last() == '\r' && e.drop_last() == active {
                assert(e =~= active.push('\r'));
                assert(prev[j] == active.push('\r'));
            }
        }
    }
}

proof fn lemma_without_entry(h: Seq<Seq<char>>, a: Seq<char>)
    ensures
        without_entry(h, a).len() <= h.len(),
        forall|k: int|
            0 <= k < without_entry(h, a).len() ==> #[trigger] without_entry(h, a)[k] != a
                && h.contains(without_entry(h, a)[k]),
    decreases h.len(),
{
    if h.len() > 0 {
        let init = h.drop_last();
        lemma_without_entry(init, a);
        let w = without_entry(h, a);
        assert forall|k: int| 0 <= k < w.len() implies #[trigger] w[k] != a && h.contains(w[k]) by {
            let wi = without_entry(init, a);
            if k < wi.len() {
                assert(w[k] == wi[k]);
                let j = choose|j: int| 0 <= j < init.len() && init[j] == wi[k];
                assert(h[j] == init[j]);
            } else {
                assert(w[k] == h.last());
                assert(h[h.len() - 1] == h.last());
            }
        }
    }
}

/// After recording `active`, it heads the history, is listed once, and the
/// history holds at most `HISTORY_LIMIT` entries; no other entry is added.
pub proof fn law_history_most_recent_first(history: Seq<Seq<char>>, active: Seq<char>)
    ensures
        history_after(history, active).len() >= 1,
        history_after(history, active)[0] == active,
        history_after(history, active).len() <= HISTORY_LIMIT,
        forall|k: int|
            1 <= k < history_after(history, active).len() ==> #[trigger] history_after(
                history,
                active,
            )[k] != active && history.contains(history_after(history, active)[k]),
{
    lemma_without_entry(history, active);
    let rest = without_entry(history, active);
    let all = seq![active] + rest;
    let h = history_after(history, active);
    assert forall|k: int| 1 <= k < h.len() implies #[trigger] h[k] != active && history.contains(
        h[k],
    ) by {
        assert(h[k] == all[k]);
        assert(all[k] == rest[k - 1]);
    }
}

// ---------------------------------------------------------------------------
// Focusing a window
// ---------------------------------------------------------------------------
/// One `wlrctl window focus` attempt: its target, and whether success ends
/// the activation.
pub struct FocusAttempt {
    pub target: String,
    pub stop_on_success: bool,
}

/// `title:` followed by `t`.
pub open spec fn title_target(t: Seq<char>) -> Seq<char> {
    "title:"@ + t
}

/// The shortened titles tried after the full one: the title before the
/// last ` — ` and before the last ` - `, trimmed, where that is not empty.
pub open spec fn short_titles(title: Seq<char>) -> Seq<Seq<char>> {
    let by_dash = short_title(title, " — "@);
    let by_hyphen = short_title(title, " - "@);
    let a: Seq<Seq<char>> = match by_dash {
        Some(t) => seq![t],
        None => seq![],
    };
    let b: Seq<Seq<char>> = match by_hyphen {
        Some(t) => seq![t],
        None => seq![],
    };
    a + b
}

pub open spec fn short_title(title: Seq<char>, delim: Seq<char>) -> Option<Seq<char>> {
    match rfind(title, delim) {
        Some(pos) => if trim(title.take(pos)).len() > 0 {
            Some(trim(title.take(pos)))
        } else {
            None
        },
        None => None,
    }
}

/// The attempts that end the activation on success: the window title, its
/// shortened forms, the application id and its lower-case form.
pub open spec fn decisive_targets(app: DesktopAppView) -> Seq<Seq<char>> {
    let by_title: Seq<Seq<char>> = match app.window_title {
        Some(t) => seq![title_target(t)] + short_titles(t).map_values(|s: Seq<char>| title_target(s)),
        None => seq![],
    };
    let by_id: Seq<Seq<char>> = match app.app_id {
        Some(id) => seq![id, lowercase(id)],
        None => seq![],
    };
    by_title + by_id
}

/// The fallback attempts, all made: the executable's file name (as is and
/// as a title) where it has one, the command line where it is not empty,
/// and the name (as is and as a title).
pub open spec fn fallback_targets(app: DesktopAppView) -> Seq<Seq<char>> {
    let ws = words(app.exec_cmd);
    let en: Seq<char> = if ws.len() > 0 {
        match file_name(ws[0]) {
            Some(n) => n,
            None => Seq::empty(),
        }
    } else {
        Seq::empty()
    };
    let by_exec: Seq<Seq<char>> = if en.len() > 0 {
        seq![en, title_target(en)]
    } else {
        seq![]
    };
    let by_cmd: Seq<Seq<char>> = if app.exec_cmd.len() > 0 {
        seq![app.exec_cmd]
    } else {
        seq![]
    };
    by_exec + by_cmd + seq![app.name, title_target(app.name)]
}

fn title_target_exec(t: &[char]) -> (r: Vec<char>)
    ensures
        r@ == title_target(t@),
{
    let pre = chars_of("title:");
    concat_chars(&pre, t)
}

fn short_title_exec(title: &[char], delim: &str) -> (r: Option<Vec<char>>)
    ensures
        r matches Some(v) ==> short_title(title@, delim@) == Some(v@),
        r is None ==> short_title(title@, delim@) is None,
{
    let d = chars_of(delim);
    match rfind_exec(title, &d) {
        Some(pos) => {
            proof {
                crate::text::lemma_rfind_bound(title@, d@);
            }
            let head = take_chars(title, pos);
            let t = trim_chars(&head);
            if t.len() > 0 {
                Some(t)
            } else {
                None
            }
        },
        None => None,
    }
}

fn push_target(plan: &mut Vec<FocusAttempt>, t: &[char], stop: bool)
    ensures
        final(plan)@.len() == old(plan)@.len() + 1,
        forall|k: int| 0 <= k < old(plan)@.len() ==> #[trigger] final(plan)@[k] == old(plan)@[k],
        final(plan)@[old(plan)@.len() as int].target@ == t@,
        final(plan)@[old(plan)@.len() as int].stop_on_success == stop,
{
    plan.push(FocusAttempt { target: string_of(t), stop_on_success: stop });
}

spec fn targets(p: Seq<FocusAttempt>) -> Seq<Seq<char>> {
    p.map_values(|a: FocusAttempt| a.target@)
}

proof fn lemma_targets_push(p: Seq<FocusAttempt>, x: FocusAttempt)
    ensures
        targets(p.push(x)) == targets(p).push(x.target@),
{
    assert(targets(p.push(x)) =~= targets(p).push(x.target@));
}

fn push_title_targets(plan: &mut Vec<FocusAttempt>, title: &String)
    ensures
        targets(final(plan)@) == targets(old(plan)@) + (seq![title_target(title@)] + short_titles(
            title@,
        ).map_values(|s: Seq<char>| title_target(s))),
        final(plan)@.len() >= old(plan)@.len(),
        forall|k: int| 0 <= k < old(plan)@.len() ==> #[trigger] final(plan)@[k] == old(plan)@[k],
        forall|k: int| old(plan)@.len() <= k < final(plan)@.len() ==> (#[trigger] final(plan)@[k]).stop_on_success,
{
    let ghost start = plan@;
    let tc = chars_of(title.as_str());
    let full = title_target_exec(&tc);
    push_target(plan, &full, true);
    let ghost mut want: Seq<Seq<char>> = seq![title_target(title@)];
    proof {
        lemma_targets_push(start, plan@.last());
    }
    if let Some(sh) = short_title_exec(&tc, " — ") {
        let t = title_target_exec(&sh);
        let ghost before = plan@;
        push_target(plan, &t, true);
        proof {
            lemma_targets_push(before, plan@.last());
            want = want.push(title_target(sh@));
        }
    }
    if let Some(sh) = short_title_exec(&tc, " - ") {
        let t = title_target_exec(&sh);
        let ghost before = plan@;
        push_target(plan, &t, true);
        proof {
            lemma_targets_push(before, plan@.last());
            want = want.push(title_target(sh@));
        }
    }
    proof {
        assert(want =~= seq![title_target(title@)] + short_titles(title@).map_values(
            |s: Seq<char>| title_target(s),
        ));
        assert(targets(plan@) =~= targets(start) + want);
    }
}

fn push_decisive(plan: &mut Vec<FocusAttempt>, app: &DesktopApp)
    ensures
        targets(final(plan)@) == targets(old(plan)@) + decisive_targets(app@),
        final(plan)@.len() >= old(plan)@.len(),
        forall|k: int| 0 <= k < old(plan)@.len() ==> #[trigger] final(plan)@[k] == old(plan)@[k],
        forall|k: int| old(plan)@.len() <= k < final(plan)@.len() ==> (#[trigger] final(plan)@[k]).stop_on_success,
{
    let ghost start = plan@;
    let ghost by_title: Seq<Seq<char>> = match app@.window_title {
        Some(t) => seq![title_target(t)] + short_titles(t).map_values(|s: Seq<char>| title_target(s)),
        None => seq![],
    };
    if let Some(title) = &app.window_title {
        push_title_targets(plan, title);
    }
    let ghost mid = plan@;
    assert(targets(mid) =~= targets(start) + by_title);
    if let Some(id) = &app.app_id {
        let ic = chars_of(id.as_str());
        push_target(plan, &ic, true);
        proof {
            lemma_targets_push(mid, plan@.last());
        }
        let ghost m2 = plan@;
        let il = lowercase_chars(&ic);
        push_target(plan, &il, true);
        proof {
            lemma_targets_push(m2, plan@.last());
            assert(targets(plan@) =~= targets(mid) + seq![id@, lowercase(id@)]);
        }
    }
    proof {
        assert(targets(plan@) =~= targets(start) + decisive_targets(app@));
    }
}

fn push_fallbacks(plan: &mut Vec<FocusAttempt>, app: &DesktopApp)
    ensures
        targets(final(plan)@) == targets(old(plan)@) + fallback_targets(app@),
        final(plan)@.len() >= old(plan)@.len(),
        forall|k: int| 0 <= k < old(plan)@.len() ==> #[trigger] final(plan)@[k] == old(plan)@[k],
        forall|k: int| old(plan)@.len() <= k < final(plan)@.len() ==> !(#[trigger] final(plan)@[k]).stop_on_success,
{
    let ghost start = plan@;
    let cmd = chars_of(app.exec_cmd.as_str());
    let ws = split_words(&cmd);
    let en: Vec<char> = if ws.len() > 0 {
        match file_name_exec(&ws[0]) {
            Some(n) => n,
            None => Vec::new(),
        }
    } else {
        Vec::new()
    };
    if en.len() > 0 {
        let ghost b1 = plan@;
        push_target(plan, &en, false);
        proof {
            lemma_targets_push(b1, plan@.last());
        }
        let t = title_target_exec(&en);
        let ghost b2 = plan@;
        push_target(plan, &t, false);
        proof {
            lemma_targets_push(b2, plan@.last());
        }
    }
    if cmd.len() > 0 {
        let ghost b3 = plan@;
        push_target(plan, &cmd, false);
        proof {
            lemma_targets_push(b3, plan@.last());
        }
    }
    let nc = chars_of(app.name.as_str());
    let ghost b4 = plan@;
    push_target(plan, &nc, false);
    proof {
        lemma_targets_push(b4, plan@.last());
    }
    let nt = title_target_exec(&nc);
    let ghost b5 = plan@;
    push_target(plan, &nt, false);
    proof {
        lemma_targets_push(b5, plan@.last());
        assert(targets(plan@) =~= targets(start) + fallback_targets(app@));
    }
}

/// The `wlrctl window focus` attempts for activating `app`, in order: the
/// decisive ones (see `decisive_targets`), each ending the activation on
/// success, then the fallbacks (see `fallback_targets`), all made.
pub fn activation_plan(app: &DesktopApp) -> (r: Vec<FocusAttempt>)
    ensures
        r@.map_values(|a: FocusAttempt| a.target@) == decisive_targets(app@) + fallback_targets(
            app@,
        ),
        forall|k: int|
            0 <= k < r@.len() ==> (#[trigger] r@[k]).stop_on_success == (k < decisive_targets(
                app@,
            ).len()),
{
    let mut plan: Vec<FocusAttempt> = Vec::new();
    assert(targets(plan@) =~= Seq::<Seq<char>>::empty());
    push_decisive(&mut plan, app);
    let ghost mid = plan@;
    assert(targets(mid) =~= decisive_targets(app@));
    assert(mid.len() == decisive_targets(app@).len()) by {
        assert(targets(mid).len() == mid.len());
    }
    push_fallbacks(&mut plan, app);
    assert(targets(plan@) =~= decisive_targets(app@) + fallback_targets(app@));
    plan
}


/// The windows of a listing of windows (`app_id: title` lines), each as
/// its app id and title, in order; lines without `:` or with an empty app
/// id are passed over.
pub fn list_windows(listing: &str) -> (r: Vec<(String, String)>)
    ensures
        r@.len() == toplevels(lines(listing@)).len(),
        forall|k: int|
            0 <= k < r@.len() ==> (#[trigger] r@[k]).0@ == toplevels(lines(listing@))[k].0
                && r@[k].1@ == toplevels(lines(listing@))[k].1,
{
    let ws = parse_toplevels(listing);
    let mut r: Vec<(String, String)> = Vec::new();
    let mut i: usize = 0;
    while i < ws.len()
        invariant
            i <= ws@.len(),
            ws@.len() == toplevels(lines(listing@)).len(),
            forall|k: int|
                0 <= k < ws@.len() ==> (#[trigger] ws@[k]).0@ == toplevels(lines(listing@))[k].0
                    && ws@[k].1@ == toplevels(lines(listing@))[k].1,
            r@.len() == i,
            forall|k: int|
                0 <= k < i ==> (#[trigger] r@[k]).0@ == toplevels(lines(listing@))[k].0
                    && r@[k].1@ == toplevels(lines(listing@))[k].1,
        decreases ws@.len() - i,
    {
        r.push((string_of(&ws[i].0), string_of(&ws[i].1)));
        i += 1;
    }
    r
}

// ---------------------------------------------------------------------------
// Switcher cards
// ---------------------------------------------------------------------------
/// The cached window pictures a card may show, in order of preference:
/// the one named by the app id, then the one named by the command (where
/// it is not empty). The first that exists is shown.
pub open spec fn preview_paths(a: DesktopAppView) -> Seq<Seq<char>> {
    let by_id: Seq<Seq<char>> = match a.app_id {
        Some(id) => seq!["/tmp/archvnde-switcher-cache/"@ + id + ".png"@],
        None => Seq::empty(),
    };
    let by_exec: Seq<Seq<char>> = if a.exec_cmd.len() > 0 {
        seq!["/tmp/archvnde-switcher-cache/"@ + a.exec_cmd + ".png"@]
    } else {
        Seq::empty()
    };
    by_id + by_exec
}

fn cache_path(name: &str) -> (r: String)
    ensures
        r@ == "/tmp/archvnde-switcher-cache/"@ + name@ + ".png"@,
{
    let dir = chars_of("/tmp/archvnde-switcher-cache/");
    let n = chars_of(name);
    let ext = chars_of(".png");
    let a = concat_chars(&dir, &n);
    let b = concat_chars(&a, &ext);
    string_of(&b)
}

/// The cached window pictures a switcher card may show (see
/// `preview_paths`).
pub fn preview_candidates(app: &DesktopApp) -> (r: Vec<String>)
    ensures
        r@.map_values(|s: String| s@) == preview_paths(app@),
{
    let mut r: Vec<String> = Vec::new();
    if let Some(id) = &app.app_id {
        r.push(cache_path(id.as_str()));
    }
    let ec = chars_of(app.exec_cmd.as_str());
    if ec.len() > 0 {
        r.push(cache_path(app.exec_cmd.as_str()));
    }
    assert(r@.map_values(|s: String| s@) =~= preview_paths(app@));
    r
}

/// The icon of a switcher card: the application's, else the generic
/// executable icon.
pub fn card_icon(app: &DesktopApp) -> (r: String)
    ensures
        r@ == match app@.icon {
            Some(i) => i,
            None => "application-x-executable"@,
        },
{
    match &app.icon {
        Some(i) => i.clone(),
        None => string_from("application-x-executable"),
    }
}

/// The first application satisfying `pred` is found where one does, at
/// or before any that does.
proof fn lemma_first_index_found(apps: Seq<DesktopAppView>, pred: spec_fn(DesktopAppView) -> bool, i: int)
    requires
        0 <= i < apps.len(),
        pred(apps[i]),
    ensures
        first_index(apps, pred) matches Some(j) && 0 <= j <= i && pred(apps[j]),
    decreases apps.len(),
{
    if !pred(apps[0]) {
        assert(apps.drop_first()[i - 1] == apps[i]);
        lemma_first_index_found(apps.drop_first(), pred, i - 1);
        let j = first_index(apps.drop_first(), pred)->0;
        assert(apps[j + 1] == apps.drop_first()[j]);
    }
}

/// A first index, where there is one, points at an application.
proof fn lemma_first_index_range(apps: Seq<DesktopAppView>, pred: spec_fn(DesktopAppView) -> bool)
    ensures
        first_index(apps, pred) matches Some(j) ==> 0 <= j < apps.len() && pred(apps[j]),
    decreases apps.len(),
{
    if apps.len() > 0 && !pred(apps[0]) {
        lemma_first_index_range(apps.drop_first(), pred);
        if let Some(j) = first_index(apps.drop_first(), pred) {
            assert(apps[j + 1] == apps.drop_first()[j]);
        }
    }
}

/// A window whose id (in lower case) contains the executable file name of
/// an application with a command is recognised: its entry is an installed
/// application (with the window's id and title), never the entry made up
/// for an unknown window; and where no application's executable or name
/// equals the id, it is that application or one listed before it.
pub proof fn law_executable_in_id_matches(
    apps: Seq<DesktopAppView>,
    id: Seq<char>,
    title: Seq<char>,
    i: int,
)
    requires
        0 <= i < apps.len(),
        words(apps[i].exec_cmd).len() > 0,
        contains(lowercase(id), exec_name(apps[i].exec_cmd)),
    ensures
        matched_app(apps, id, title) matches Some(j) && 0 <= j < apps.len() && window_entry(
            apps,
            (id, title),
        ) == (DesktopAppView { app_id: Some(id), window_title: Some(title), ..apps[j] }),
        (forall|k: int|
            0 <= k < apps.len() ==> !(words((#[trigger] apps[k]).exec_cmd).len() > 0 && (exec_name(
                apps[k].exec_cmd,
            ) == lowercase(id) || lowercase(apps[k].name) == lowercase(id)))) ==> (matched_app(
            apps,
            id,
            title,
        ) matches Some(j) && j <= i),
{
    let il = lowercase(id);
    let tl = lowercase(title);
    let ex = |a: DesktopAppView| exact_match(a, il);
    let lo = |a: DesktopAppView| loose_match(a, il, tl);
    lemma_first_index_range(apps, ex);
    assert(lo(apps[i]));
    lemma_first_index_found(apps, lo, i);
    if forall|k: int|
        0 <= k < apps.len() ==> !(words((#[trigger] apps[k]).exec_cmd).len() > 0 && (exec_name(
            apps[k].exec_cmd,
        ) == il || lowercase(apps[k].name) == il)) {
        if let Some(j) = first_index(apps, ex) {
            assert(ex(apps[j]));
        }
    }
}

/// A window is recognised by the loose pass in every way it allows: where
/// an application with a command has an executable that contains the id,
/// or a name contained in the title or containing the id (all in lower
/// case), the window's entry is an installed application.
pub proof fn law_loose_pass_recognises(
    apps: Seq<DesktopAppView>,
    id: Seq<char>,
    title: Seq<char>,
    i: int,
)
    requires
        0 <= i < apps.len(),
        words(apps[i].exec_cmd).len() > 0,
        contains(exec_name(apps[i].exec_cmd), lowercase(id)) || contains(
            lowercase(title),
            lowercase(apps[i].name),
        ) || contains(lowercase(apps[i].name), lowercase(id)),
    ensures
        matched_app(apps, id, title) matches Some(j) && 0 <= j < apps.len() && window_entry(
            apps,
            (id, title),
        ) == (DesktopAppView { app_id: Some(id), window_title: Some(title), ..apps[j] }),
{
    let il = lowercase(id);
    let tl = lowercase(title);
    let ex = |a: DesktopAppView| exact_match(a, il);
    let lo = |a: DesktopAppView| loose_match(a, il, tl);
    lemma_first_index_range(apps, ex);
    assert(lo(apps[i]));
    lemma_first_index_found(apps, lo, i);
}

/// The exact pass comes first: where an application with a command has an
/// executable or a name equal to the window's id (in lower case), the
/// window's entry is that application or one listed before it that also
/// has a command and an executable or name equal to the id.
pub proof fn law_exact_pass_first(apps: Seq<DesktopAppView>, id: Seq<char>, title: Seq<char>, i: int)
    requires
        0 <= i < apps.len(),
        words(apps[i].exec_cmd).len() > 0,
        exec_name(apps[i].exec_cmd) == lowercase(id) || lowercase(apps[i].name) == lowercase(id),
    ensures
        matched_app(apps, id, title) matches Some(j) && 0 <= j <= i && words(
            apps[j].exec_cmd,
        ).len() > 0 && (exec_name(apps[j].exec_cmd) == lowercase(id) || lowercase(apps[j].name)
            == lowercase(id)) && window_entry(apps, (id, title)) == (DesktopAppView {
            app_id: Some(id),
            window_title: Some(title),
            ..apps[j]
        }),
{
    let il = lowercase(id);
    let ex = |a: DesktopAppView| exact_match(a, il);
    assert(ex(apps[i]));
    lemma_first_index_found(apps, ex, i);
}

} // verus!
