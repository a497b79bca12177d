//! The taskbar: running windows grouped by the application they belong
//! to, the signature that tells when the bar has to be rebuilt, and what
//! a click on a group does.
use vstd::prelude::*;

use crate::desktop::{apps_view, copy_app, DesktopApp, DesktopAppView};
use crate::order::{
    is_permutation, key_index_lt, lemma_lex_leq_total, lex_le, lex_leq, sort_char_seqs,
    stable_order_by_chars,
    stably_sorted_by_chars,
};
use crate::text::{
    char_views, chars_eq, chars_of, concat_chars, dec_chars, dec_str, dec_value, find, find_char, is_digit, join,
    lemma_dec_str_value,
    join_chars, lines, lowercase, lowercase_chars, split_lines, split_words, string_from,
    string_of, take_chars, trim, trim_chars, words,
};

verus! {

// ---------------------------------------------------------------------------
// The focused window
// ---------------------------------------------------------------------------
/// The application id of the focused window, from the listing of focused
/// windows: the text before the first `:` of the first line, trimmed, if
/// that is not empty.
pub open spec fn active_app_id(listing: Seq<char>) -> Option<Seq<char>> {
    let ls = lines(listing);
    if ls.len() > 0 {
        match find(ls[0], seq![':']) {
            Some(p) => {
                let id = trim(ls[0].take(p));
                if id.len() > 0 {
                    Some(id)
                } else {
                    None
                }
            },
            None => None,
        }
    } else {
        None
    }
}

/// The application id of the focused window. `listing` is what the window
/// lister printed for the focused window, `None` where it could not be run.
pub fn get_active_app_id(listing: Option<&str>) -> (r: Option<String>)
    ensures
        match listing {
            Some(l) => match r {
                Some(s) => active_app_id(l@) == Some(s@),
                None => active_app_id(l@) is None,
            },
            None => r is None,
        },
{
    match listing {
        None => None,
        Some(l) => {
            let cs = chars_of(l);
            let ls = split_lines(&cs);
            if ls.len() == 0 {
                return None;
            }
            let first = &ls[0];
            match find_char(first, ':') {
                None => None,
                Some(p) => {
                    let head = take_chars(first, p);
                    let id = trim_chars(&head);
                    if id.len() > 0 {
                        Some(string_of(&id))
                    } else {
                        None
                    }
                },
            }
        },
    }
}

// ---------------------------------------------------------------------------
// Groups of windows
// ---------------------------------------------------------------------------
/// The application a window is grouped under: its app id, else its name.
pub open spec fn group_key(a: DesktopAppView) -> Seq<char> {
    match a.app_id {
        Some(id) => id,
        None => a.name,
    }
}

/// How many of `apps` are grouped under `k`.
pub open spec fn key_count(apps: Seq<DesktopAppView>, k: Seq<char>) -> nat
    decreases apps.len(),
{
    if apps.len() == 0 {
        0
    } else {
        key_count(apps.drop_last(), k) + if group_key(apps.last()) == k {
            1nat
        } else {
            0nat
        }
    }
}

/// The group keys of `apps`, each once, in order of first appearance.
pub open spec fn group_keys(apps: Seq<DesktopAppView>) -> Seq<Seq<char>>
    decreases apps.len(),
{
    if apps.len() == 0 {
        Seq::empty()
    } else {
        let prev = group_keys(apps.drop_last());
        let k = group_key(apps.last());
        if prev.contains(k) {
            prev
        } else {
            prev.push(k)
        }
    }
}

/// The windows of `apps` grouped under `k`, in order.
pub open spec fn group_windows(apps: Seq<DesktopAppView>, k: Seq<char>) -> Seq<DesktopAppView>
    decreases apps.len(),
{
    if apps.len() == 0 {
        Seq::empty()
    } else {
        let prev = group_windows(apps.drop_last(), k);
        if group_key(apps.last()) == k {
            prev.push(apps.last())
        } else {
            prev
        }
    }
}

proof fn lemma_absent_key_count(apps: Seq<DesktopAppView>, k: Seq<char>)
    requires
        !group_keys(apps).contains(k),
    ensures
        key_count(apps, k) == 0,
    decreases apps.len(),
{
    if apps.len() > 0 {
        let prev = group_keys(apps.drop_last());
        if prev.contains(group_key(apps.last())) {
            lemma_absent_key_count(apps.drop_last(), k);
        } else {
            assert(prev.push(group_key(apps.last())).last() == group_key(apps.last()));
            if prev.contains(k) {
                let i = choose|i: int| 0 <= i < prev.len() && prev[i] == k;
                assert(prev.push(group_key(apps.last()))[i] == k);
            }
            lemma_absent_key_count(apps.drop_last(), k);
        }
    }
}

proof fn lemma_group_keys_distinct(apps: Seq<DesktopAppView>)
    ensures
        forall|a: int, b: int|
            0 <= a < b < group_keys(apps).len() ==> #[trigger] group_keys(apps)[a]
                != #[trigger] group_keys(apps)[b],
    decreases apps.len(),
{
    if apps.len() > 0 {
        lemma_group_keys_distinct(apps.drop_last());
        let prev = group_keys(apps.drop_last());
        let k = group_key(apps.last());
        if !prev.contains(k) {
            let gk = group_keys(apps);
            assert forall|a: int, b: int| 0 <= a < b < gk.len() implies #[trigger] gk[a]
                != #[trigger] gk[b] by {
                if b == prev.len() {
                    assert(gk[a] == prev[a]);
                }
            }
        }
    }
}

/// The keys of the groups of `apps` and the number of windows in each,
/// in order of first appearance.
fn count_groups(apps: &[DesktopApp]) -> (r: (Vec<Vec<char>>, Vec<u64>))
    ensures
        char_views(r.0@) == group_keys(apps_view(apps@)),
        r.1@.len() == r.0@.len(),
        forall|g: int|
            0 <= g < r.1@.len() ==> #[trigger] r.1@[g] as nat == key_count(
                apps_view(apps@),
                r.0@[g]@,
            ),
        forall|g: int| 0 <= g < r.1@.len() ==> #[trigger] r.1@[g] <= apps@.len(),
{
    let ghost av = apps_view(apps@);
    let mut keys: Vec<Vec<char>> = Vec::new();
    let mut counts: Vec<u64> = Vec::new();
    let mut i: usize = 0;
    assert(av.take(0) =~= Seq::<DesktopAppView>::empty());
    while i < apps.len()
        invariant
            i <= apps@.len(),
            av == apps_view(apps@),
            char_views(keys@) == group_keys(av.take(i as int)),
            counts@.len() == keys@.len(),
            forall|g: int|
                0 <= g < counts@.len() ==> #[trigger] counts@[g] as nat == key_count(
                    av.take(i as int),
                    keys@[g]@,
                ),
            forall|g: int| 0 <= g < counts@.len() ==> #[trigger] counts@[g] <= i,
        decreases apps@.len() - i,
    {
        let ghost pre = av.take(i as int);
        let ghost post = av.take(i + 1);
        assert(post.drop_last() =~= pre);
        assert(post.last() == apps@[i as int]@);
        let key: Vec<char> = match &apps[i].app_id {
            Some(id) => chars_of(id.as_str()),
            None => chars_of(apps[i].name.as_str()),
        };
        assert(key@ == group_key(post.last()));
        proof {
            lemma_group_keys_distinct(pre);
        }
        let mut g: usize = 0;
        let mut found: bool = false;
        while g < keys.len()
            invariant_except_break
                !found,
            invariant
                g <= keys@.len(),
                forall|h: int| 0 <= h < g ==> #[trigger] keys@[h]@ != key@,
            ensures
                g <= keys@.len(),
                forall|h: int| 0 <= h < g ==> #[trigger] keys@[h]@ != key@,
                found ==> g < keys@.len() && keys@[g as int]@ == key@,
                !found ==> g == keys@.len(),
            decreases keys@.len() - g,
        {
            if chars_eq(&keys[g], &key) {
                found = true;
                break;
            }
            g += 1;
        }
        if found {
            assert(char_views(keys@)[g as int] == key@);
            assert(group_keys(pre).contains(key@));
            let c = counts[g];
            counts.set(g, c + 1);
            assert forall|h: int| 0 <= h < counts@.len() implies #[trigger] counts@[h] as nat
                == key_count(post, keys@[h]@) by {
                if h != g {
                    assert(char_views(keys@)[h] != char_views(keys@)[g as int]);
                }
            }
        } else {
            assert forall|h: int| 0 <= h < keys@.len() implies char_views(keys@)[h] != key@ by {
                assert(keys@[h]@ != key@);
            }
            assert(!group_keys(pre).contains(key@));
            proof {
                lemma_absent_key_count(pre, key@);
            }
            keys.push(key);
            counts.push(1);
            assert(char_views(keys@) =~= group_keys(pre).push(group_keys(post).last()));
            assert forall|h: int| 0 <= h < counts@.len() implies #[trigger] counts@[h] as nat
                == key_count(post, keys@[h]@) by {
                if h < counts@.len() - 1 {
                    assert(char_views(keys@)[h] == group_keys(pre)[h]);
                }
            }
        }
        i += 1;
    }
    assert(av.take(apps@.len() as int) =~= av);
    (keys, counts)
}

// ---------------------------------------------------------------------------
// The signature of the bar
// ---------------------------------------------------------------------------
/// The entry of one group in the signature: `key:count`.
pub open spec fn sig_entry(k: Seq<char>, n: nat) -> Seq<char> {
    k + ":"@ + dec_str(n)
}

/// The entries of the groups of `apps`, in order of first appearance.
pub open spec fn sig_entries(apps: Seq<DesktopAppView>) -> Seq<Seq<char>> {
    group_keys(apps).map_values(entry_of(apps))
}

/// The entry of the group `k` of `apps`.
pub open spec fn entry_of(apps: Seq<DesktopAppView>) -> spec_fn(Seq<char>) -> Seq<char> {
    |k: Seq<char>| sig_entry(k, key_count(apps, k))
}

/// The text standing for the focused application (empty where none is).
pub open spec fn active_text(active: Option<Seq<char>>) -> Seq<char> {
    match active {
        Some(a) => a,
        None => Seq::empty(),
    }
}

/// The signature of the bar: the group entries in ascending order joined
/// with `||`, then `//active:` and the focused application.
pub open spec fn taskbar_signature(apps: Seq<DesktopAppView>, active: Option<Seq<char>>) -> Seq<
    char,
> {
    join(sig_entries(apps).sort_by(lex_leq()), "||"@) + "//active:"@ + active_text(active)
}

pub open spec fn opt_str_view(o: Option<&str>) -> Option<Seq<char>> {
    match o {
        Some(s) => Some(s@),
        None => None,
    }
}

/// A text that changes when windows are opened or closed, or when the
/// focused application changes. (The windows of one application are
/// counted in an `i32`: more than `i32::MAX` of them overflow.)
pub fn get_taskbar_signature(running_apps: &[DesktopApp], active_app_id: Option<&str>) -> (r:
    String)
    requires
        forall|k: Seq<char>| #[trigger] key_count(apps_view(running_apps@), k) <= i32::MAX,
    ensures
        r@ == taskbar_signature(apps_view(running_apps@), opt_str_view(active_app_id)),
{
    let ghost av = apps_view(running_apps@);
    let (keys, counts) = count_groups(running_apps);
    let colon = chars_of(":");
    let mut entries: Vec<Vec<char>> = Vec::new();
    let mut g: usize = 0;
    while g < keys.len()
        invariant
            g <= keys@.len(),
            counts@.len() == keys@.len(),
            colon@ == ":"@,
            entries@.len() == g,
            forall|h: int|
                0 <= h < g ==> #[trigger] entries@[h]@ == sig_entry(
                    keys@[h]@,
                    counts@[h] as nat,
                ),
        decreases keys@.len() - g,
    {
        let with_colon = concat_chars(&keys[g], &colon);
        let num = dec_chars(counts[g]);
        let e = concat_chars(&with_colon, &num);
        entries.push(e);
        g += 1;
    }
    assert(char_views(entries@) =~= sig_entries(av)) by {
        assert forall|h: int| 0 <= h < entries@.len() implies char_views(entries@)[h]
            == sig_entries(av)[h] by {
            assert(char_views(keys@)[h] == keys@[h]@);
        }
    }
    let sorted = sort_char_seqs(&entries);
    let bars = chars_of("||");
    let joined = join_chars(&sorted, &bars);
    let tag = chars_of("//active:");
    let with_tag = concat_chars(&joined, &tag);
    let active: Vec<char> = match active_app_id {
        Some(a) => chars_of(a),
        None => Vec::new(),
    };
    let all = concat_chars(&with_tag, &active);
    assert(active@ == active_text(opt_str_view(active_app_id)));
    string_of(&all)
}


/// The signature tells focus changes apart: for the same windows, two
/// different focused applications give two different signatures.
pub proof fn law_signature_tracks_focus(
    apps: Seq<DesktopAppView>,
    a1: Option<Seq<char>>,
    a2: Option<Seq<char>>,
)
    requires
        active_text(a1) != active_text(a2),
    ensures
        taskbar_signature(apps, a1) != taskbar_signature(apps, a2),
{
    let p = join(sig_entries(apps).sort_by(lex_leq()), "||"@) + "//active:"@;
    let s1 = taskbar_signature(apps, a1);
    let s2 = taskbar_signature(apps, a2);
    assert(s1 == p + active_text(a1));
    assert(s2 == p + active_text(a2));
    if s1 == s2 {
        assert(s1.skip(p.len() as int) =~= active_text(a1));
        assert(s2.skip(p.len() as int) =~= active_text(a2));
    }
}

proof fn lemma_present_key_count(apps: Seq<DesktopAppView>, k: Seq<char>)
    requires
        group_keys(apps).contains(k),
    ensures
        key_count(apps, k) > 0,
    decreases apps.len(),
{
    if apps.len() > 0 {
        let prev = group_keys(apps.drop_last());
        if prev.contains(k) {
            lemma_present_key_count(apps.drop_last(), k);
        } else if !prev.contains(group_key(apps.last())) {
            let i = choose|i: int| 0 <= i < group_keys(apps).len() && group_keys(apps)[i] == k;
            if i < prev.len() {
                assert(prev.push(group_key(apps.last()))[i] == prev[i]);
            }
        }
    }
}

proof fn lemma_nodup_map_multiset(
    s1: Seq<Seq<char>>,
    s2: Seq<Seq<char>>,
    f: spec_fn(Seq<char>) -> Seq<char>,
)
    requires
        forall|i: int, j: int| 0 <= i < j < s1.len() ==> #[trigger] s1[i] != #[trigger] s1[j],
        forall|i: int, j: int| 0 <= i < j < s2.len() ==> #[trigger] s2[i] != #[trigger] s2[j],
        forall|x: Seq<char>| s1.contains(x) <==> s2.contains(x),
    ensures
        s1.map_values(f).to_multiset() == s2.map_values(f).to_multiset(),
    decreases s1.len(),
{
    broadcast use vstd::seq_lib::group_to_multiset_ensures;
    broadcast use vstd::multiset::group_multiset_axioms;

    if s1.len() == 0 {
        if s2.len() > 0 {
            assert(s2.contains(s2[0]));
        }
        assert(s1.map_values(f) =~= Seq::<Seq<char>>::empty());
        assert(s2.map_values(f) =~= Seq::<Seq<char>>::empty());
    } else {
        let x = s1.last();
        assert(s1.contains(x)) by {
            assert(s1[s1.len() - 1] == x);
        }
        let j = choose|j: int| 0 <= j < s2.len() && s2[j] == x;
        let t1 = s1.drop_last();
        let t2 = s2.remove(j);
        assert forall|y: Seq<char>| t1.contains(y) <==> t2.contains(y) by {
            if t1.contains(y) {
                let i = choose|i: int| 0 <= i < t1.len() && t1[i] == y;
                assert(s1[i] == y);
                assert(y != x) by {
                    assert(s1[i] != s1[s1.len() - 1]);
                }
                assert(s1.contains(y));
                let m = choose|m: int| 0 <= m < s2.len() && s2[m] == y;
                assert(m != j);
                if m < j {
                    assert(t2[m] == y);
                } else {
                    assert(t2[m - 1] == y);
                }
            }
            if t2.contains(y) {
                let i = choose|i: int| 0 <= i < t2.len() && t2[i] == y;
                let m = if i < j {
                    i
                } else {
                    i + 1
                };
                assert(s2[m] == y);
                assert(y != x) by {
                    if m < j {
                        assert(s2[m] != s2[j]);
                    } else {
                        assert(s2[j] != s2[m]);
                    }
                }
                assert(s2.contains(y));
                let k = choose|k: int| 0 <= k < s1.len() && s1[k] == y;
                assert(k != s1.len() - 1);
                assert(t1[k] == y);
            }
        }
        assert forall|a: int, b: int| 0 <= a < b < t2.len() implies #[trigger] t2[a]
            != #[trigger] t2[b] by {
            let a2 = if a < j {
                a
            } else {
                a + 1
            };
            let b2 = if b < j {
                b
            } else {
                b + 1
            };
            assert(t2[a] == s2[a2] && t2[b] == s2[b2]);
            assert(s2[a2] != s2[b2]);
        }
        lemma_nodup_map_multiset(t1, t2, f);
        let m1 = s1.map_values(f);
        let m2 = s2.map_values(f);
        assert(m1 =~= t1.map_values(f).push(f(x)));
        assert(m2.remove(j) =~= t2.map_values(f));
        assert(m2[j] == f(x));
        assert(m2.to_multiset().count(f(x)) > 0) by {
            assert(m2.contains(f(x)));
        }
        assert(m2.to_multiset() =~= m2.remove(j).to_multiset().insert(f(x)));
    }
}

/// The signature depends only on how many windows each application has
/// and on the focused application: two window lists with the same number
/// of windows for every application, in whatever order, give the same
/// signature.
pub proof fn law_signature_depends_on_counts(
    apps1: Seq<DesktopAppView>,
    apps2: Seq<DesktopAppView>,
    active: Option<Seq<char>>,
)
    requires
        forall|k: Seq<char>| key_count(apps1, k) == key_count(apps2, k),
    ensures
        taskbar_signature(apps1, active) == taskbar_signature(apps2, active),
{
    let g1 = group_keys(apps1);
    let g2 = group_keys(apps2);
    lemma_group_keys_distinct(apps1);
    lemma_group_keys_distinct(apps2);
    assert forall|k: Seq<char>| g1.contains(k) <==> g2.contains(k) by {
        if g1.contains(k) {
            lemma_present_key_count(apps1, k);
            if !g2.contains(k) {
                lemma_absent_key_count(apps2, k);
            }
        }
        if g2.contains(k) {
            lemma_present_key_count(apps2, k);
            if !g1.contains(k) {
                lemma_absent_key_count(apps1, k);
            }
        }
    }
    assert(entry_of(apps1) =~= entry_of(apps2));
    lemma_nodup_map_multiset(g1, g2, entry_of(apps1));
    lemma_lex_leq_total();
    sig_entries(apps1).lemma_sort_by_ensures(lex_leq());
    sig_entries(apps2).lemma_sort_by_ensures(lex_leq());
    vstd::seq_lib::lemma_sorted_unique(
        sig_entries(apps1).sort_by(lex_leq()),
        sig_entries(apps2).sort_by(lex_leq()),
        lex_leq(),
    );
}

proof fn lemma_key_count_remove(s: Seq<DesktopAppView>, j: int, k: Seq<char>)
    requires
        0 <= j < s.len(),
    ensures
        key_count(s, k) == key_count(s.remove(j), k) + if group_key(s[j]) == k {
            1nat
        } else {
            0nat
        },
    decreases s.len(),
{
    if j == s.len() - 1 {
        assert(s.remove(j) =~= s.drop_last());
    } else {
        lemma_key_count_remove(s.drop_last(), j, k);
        assert(s.remove(j) =~= s.drop_last().remove(j).push(s.last()));
        assert(s.remove(j).drop_last() =~= s.drop_last().remove(j));
        assert(s.drop_last()[j] == s[j]);
    }
}

proof fn lemma_key_count_reordered(a: Seq<DesktopAppView>, b: Seq<DesktopAppView>, k: Seq<char>)
    requires
        a.to_multiset() == b.to_multiset(),
    ensures
        key_count(a, k) == key_count(b, k),
    decreases a.len(),
{
    broadcast use vstd::seq_lib::group_to_multiset_ensures;
    broadcast use vstd::multiset::group_multiset_axioms;

    if a.len() == 0 {
        if b.len() > 0 {
            assert(b.to_multiset().count(b[0]) > 0) by {
                assert(b.contains(b[0]));
            }
        }
        assert(b.len() == 0);
    } else {
        let x = a.last();
        assert(a.to_multiset() =~= a.drop_last().to_multiset().insert(x)) by {
            assert(a =~= a.drop_last().push(x));
        }
        assert(b.to_multiset().count(x) > 0);
        assert(b.contains(x));
        let j = choose|j: int| 0 <= j < b.len() && b[j] == x;
        assert(b.remove(j).to_multiset() =~= b.to_multiset().remove(x));
        assert(a.drop_last().to_multiset() =~= b.remove(j).to_multiset());
        lemma_key_count_reordered(a.drop_last(), b.remove(j), k);
        lemma_key_count_remove(b, j, k);
    }
}

/// The order of the windows does not matter: the same windows listed in
/// any order give the same signature.
pub proof fn law_signature_order_free(
    apps1: Seq<DesktopAppView>,
    apps2: Seq<DesktopAppView>,
    active: Option<Seq<char>>,
)
    requires
        apps1.to_multiset() == apps2.to_multiset(),
    ensures
        taskbar_signature(apps1, active) == taskbar_signature(apps2, active),
{
    assert forall|k: Seq<char>| key_count(apps1, k) == key_count(apps2, k) by {
        lemma_key_count_reordered(apps1, apps2, k);
    }
    law_signature_depends_on_counts(apps1, apps2, active);
}

/// A group key that stands in the signature unambiguously: it holds no
/// `:` (which ends the key in its entry) and no `|` (which separates the
/// entries).
pub open spec fn plain_key(k: Seq<char>) -> bool {
    !k.contains(':') && !k.contains('|')
}

proof fn lemma_entry_shape(k: Seq<char>, n: nat)
    requires
        plain_key(k),
    ensures
        sig_entry(k, n).len() > 0,
        !sig_entry(k, n).contains('|'),
{
    reveal_strlit(":");
    lemma_dec_str_value(n);
    let e = sig_entry(k, n);
    let d = dec_str(n);
    assert(e == k + ":"@ + d);
    if e.contains('|') {
        let j = choose|j: int| 0 <= j < e.len() && e[j] == '|';
        if j < k.len() {
            assert(k[j] == e[j]);
            assert(k.contains('|'));
        } else if j > k.len() {
            assert(e[j] == d[j - k.len() - 1]);
            assert(is_digit(d[j - k.len() - 1]));
        }
    }
}

/// Two entries are equal only for the same key and count.
proof fn lemma_entry_injective(k1: Seq<char>, n1: nat, k2: Seq<char>, n2: nat)
    requires
        plain_key(k1),
        plain_key(k2),
        sig_entry(k1, n1) == sig_entry(k2, n2),
    ensures
        k1 == k2,
        n1 == n2,
{
    reveal_strlit(":");
    let e = sig_entry(k1, n1);
    let d1 = dec_str(n1);
    let d2 = dec_str(n2);
    assert(e == k1 + ":"@ + d1);
    assert(e == k2 + ":"@ + d2);
    assert(e[k1.len() as int] == ':');
    assert(e[k2.len() as int] == ':');
    if k1.len() < k2.len() {
        assert(k2[k1.len() as int] == ':');
        assert(k2.contains(':'));
    }
    if k2.len() < k1.len() {
        assert(k1[k2.len() as int] == ':');
        assert(k1.contains(':'));
    }
    assert(k1 =~= e.take(k1.len() as int));
    assert(k2 =~= e.take(k2.len() as int));
    assert(d1 =~= e.skip(k1.len() + 1int));
    assert(d2 =~= e.skip(k2.len() + 1int));
    lemma_dec_str_value(n1);
    lemma_dec_str_value(n2);
}

/// Where the last part stands in a text joined with `||`.
proof fn lemma_join_last(a: Seq<Seq<char>>)
    requires
        a.len() > 0,
    ensures
        join(a, "||"@).len() >= a.last().len(),
        join(a, "||"@).skip(join(a, "||"@).len() - a.last().len()) == a.last(),
        a.len() == 1 ==> join(a, "||"@) == a[0],
        a.len() >= 2 ==> join(a, "||"@).len() >= a.last().len() + 2 && join(a, "||"@)[join(
            a,
            "||"@,
        ).len() - a.last().len() - 1] == '|' && join(a, "||"@).take(
            join(a, "||"@).len() - a.last().len() - 2,
        ) == join(a.drop_last(), "||"@),
{
    reveal_strlit("||");
    let t = join(a, "||"@);
    let l = a.last();
    if a.len() == 1 {
        assert(a[0] == l);
        assert(t.skip(0) =~= t);
    } else {
        let p = join(a.drop_last(), "||"@);
        assert(t == p + "||"@ + l);
        assert(t.skip(t.len() - l.len()) =~= l);
        assert(t.take(t.len() - l.len() - 2) =~= p);
    }
}

/// Joining with `||` loses nothing when no part is empty or holds a `|`.
proof fn lemma_join_injective(a: Seq<Seq<char>>, b: Seq<Seq<char>>)
    requires
        forall|i: int| 0 <= i < a.len() ==> (#[trigger] a[i]).len() > 0 && !a[i].contains('|'),
        forall|i: int| 0 <= i < b.len() ==> (#[trigger] b[i]).len() > 0 && !b[i].contains('|'),
        join(a, "||"@) == join(b, "||"@),
    ensures
        a == b,
    decreases a.len(),
{
    let t = join(a, "||"@);
    if a.len() == 0 {
        if b.len() > 0 {
            lemma_join_last(b);
            assert(b[b.len() - 1].len() > 0);
        }
        assert(a =~= b);
    } else if b.len() == 0 {
        lemma_join_last(a);
        assert(a[a.len() - 1].len() > 0);
    } else {
        lemma_join_last(a);
        lemma_join_last(b);
        let la = a.last();
        let lb = b.last();
        assert(la == a[a.len() - 1] && lb == b[b.len() - 1]);
        if a.len() == 1 && b.len() >= 2 {
            assert(t[t.len() - lb.len() - 1] == '|');
            assert(a[0].contains('|'));
        }
        if b.len() == 1 && a.len() >= 2 {
            assert(t[t.len() - la.len() - 1] == '|');
            assert(b[0].contains('|'));
        }
        if a.len() == 1 && b.len() == 1 {
            assert(a =~= b);
        } else {
            if la.len() < lb.len() {
                let j = lb.len() - la.len() - 1;
                assert(t.skip(t.len() - lb.len())[j] == t[t.len() - la.len() - 1]);
                assert(lb[j] == '|');
                assert(lb.contains('|'));
            }
            if lb.len() < la.len() {
                let j = la.len() - lb.len() - 1;
                assert(t.skip(t.len() - la.len())[j] == t[t.len() - lb.len() - 1]);
                assert(la[j] == '|');
                assert(la.contains('|'));
            }
            assert(la == lb);
            let a1 = a.drop_last();
            let b1 = b.drop_last();
            assert forall|i: int| 0 <= i < a1.len() implies (#[trigger] a1[i]).len() > 0
                && !a1[i].contains('|') by {
                assert(a1[i] == a[i]);
            }
            assert forall|i: int| 0 <= i < b1.len() implies (#[trigger] b1[i]).len() > 0
                && !b1[i].contains('|') by {
                assert(b1[i] == b[i]);
            }
            lemma_join_injective(a1, b1);
            assert(a =~= a1.push(la));
            assert(b =~= b1.push(lb));
        }
    }
}

/// Every group key is the key of one of the windows.
proof fn lemma_group_keys_of_apps(apps: Seq<DesktopAppView>)
    ensures
        forall|i: int|
            0 <= i < group_keys(apps).len() ==> exists|j: int|
                0 <= j < apps.len() && group_key(apps[j]) == #[trigger] group_keys(apps)[i],
    decreases apps.len(),
{
    if apps.len() > 0 {
        let init = apps.drop_last();
        lemma_group_keys_of_apps(init);
        let prev = group_keys(init);
        let g = group_keys(apps);
        assert forall|i: int| 0 <= i < g.len() implies exists|j: int|
            0 <= j < apps.len() && group_key(apps[j]) == #[trigger] g[i] by {
            if i < prev.len() {
                assert(g[i] == prev[i]);
                let j = choose|j: int| 0 <= j < init.len() && group_key(init[j]) == prev[i];
                assert(apps[j] == init[j]);
            } else {
                assert(g[i] == group_key(apps.last()));
                assert(apps[apps.len() - 1] == apps.last());
            }
        }
    }
}

/// Where every window's key is plain, the entries of the signature are
/// non-empty and hold no `|`.
proof fn lemma_entries_plain(apps: Seq<DesktopAppView>)
    requires
        forall|j: int| 0 <= j < apps.len() ==> plain_key(group_key(#[trigger] apps[j])),
    ensures
        forall|i: int|
            0 <= i < sig_entries(apps).len() ==> (#[trigger] sig_entries(apps)[i]).len() > 0
                && !sig_entries(apps)[i].contains('|'),
        forall|i: int| 0 <= i < group_keys(apps).len() ==> plain_key(#[trigger] group_keys(apps)[i]),
{
    lemma_group_keys_of_apps(apps);
    let g = group_keys(apps);
    assert forall|i: int| 0 <= i < g.len() implies plain_key(#[trigger] g[i]) by {
        let j = choose|j: int| 0 <= j < apps.len() && group_key(apps[j]) == g[i];
        assert(plain_key(group_key(apps[j])));
    }
    let e = sig_entries(apps);
    assert forall|i: int| 0 <= i < e.len() implies (#[trigger] e[i]).len() > 0 && !e[i].contains(
        '|',
    ) by {
        assert(e[i] == sig_entry(g[i], key_count(apps, g[i])));
        lemma_entry_shape(g[i], key_count(apps, g[i]));
    }
}

/// Equal signatures have the same entries (as a multiset) where every
/// window's key is plain.
proof fn lemma_same_signature_same_entries(
    apps1: Seq<DesktopAppView>,
    apps2: Seq<DesktopAppView>,
    active: Option<Seq<char>>,
)
    requires
        forall|j: int| 0 <= j < apps1.len() ==> plain_key(group_key(#[trigger] apps1[j])),
        forall|j: int| 0 <= j < apps2.len() ==> plain_key(group_key(#[trigger] apps2[j])),
        taskbar_signature(apps1, active) == taskbar_signature(apps2, active),
    ensures
        sig_entries(apps1).to_multiset() == sig_entries(apps2).to_multiset(),
{
    let s1 = sig_entries(apps1).sort_by(lex_leq());
    let s2 = sig_entries(apps2).sort_by(lex_leq());
    let j1 = join(s1, "||"@);
    let j2 = join(s2, "||"@);
    let tail = "//active:"@ + active_text(active);
    assert(taskbar_signature(apps1, active) == j1 + tail);
    assert(taskbar_signature(apps2, active) == j2 + tail);
    assert(j1 =~= (j1 + tail).take(j1.len() as int));
    assert(j2 =~= (j2 + tail).take(j2.len() as int));
    assert(j1.len() == j2.len());
    lemma_lex_leq_total();
    sig_entries(apps1).lemma_sort_by_ensures(lex_leq());
    sig_entries(apps2).lemma_sort_by_ensures(lex_leq());
    lemma_entries_plain(apps1);
    lemma_entries_plain(apps2);
    let e1 = sig_entries(apps1);
    let e2 = sig_entries(apps2);
    assert forall|i: int| 0 <= i < s1.len() implies (#[trigger] s1[i]).len() > 0 && !s1[i].contains(
        '|',
    ) by {
        assert(s1.contains(s1[i]));
        assert(s1.to_multiset().count(s1[i]) > 0) by {
            broadcast use vstd::seq_lib::group_to_multiset_ensures;
        }
        assert(e1.contains(s1[i])) by {
            broadcast use vstd::seq_lib::group_to_multiset_ensures;
        }
        let m = choose|m: int| 0 <= m < e1.len() && e1[m] == s1[i];
    }
    assert forall|i: int| 0 <= i < s2.len() implies (#[trigger] s2[i]).len() > 0 && !s2[i].contains(
        '|',
    ) by {
        assert(s2.contains(s2[i]));
        assert(e2.contains(s2[i])) by {
            broadcast use vstd::seq_lib::group_to_multiset_ensures;
        }
        let m = choose|m: int| 0 <= m < e2.len() && e2[m] == s2[i];
    }
    assert(j1 == j2);
    lemma_join_injective(s1, s2);
}

/// For one window list whose count of key `k` is `c > 0`, the entry
/// `k:c` stands in the signature; if the signature is that of another
/// list, `k` is counted `c` times there too.
proof fn lemma_count_carried(
    apps1: Seq<DesktopAppView>,
    apps2: Seq<DesktopAppView>,
    active: Option<Seq<char>>,
    k: Seq<char>,
)
    requires
        forall|j: int| 0 <= j < apps1.len() ==> plain_key(group_key(#[trigger] apps1[j])),
        forall|j: int| 0 <= j < apps2.len() ==> plain_key(group_key(#[trigger] apps2[j])),
        taskbar_signature(apps1, active) == taskbar_signature(apps2, active),
        key_count(apps1, k) > 0,
    ensures
        key_count(apps2, k) == key_count(apps1, k),
{
    broadcast use vstd::seq_lib::group_to_multiset_ensures;

    lemma_same_signature_same_entries(apps1, apps2, active);
    lemma_entries_plain(apps1);
    lemma_entries_plain(apps2);
    let g1 = group_keys(apps1);
    let g2 = group_keys(apps2);
    if !g1.contains(k) {
        lemma_absent_key_count(apps1, k);
    }
    let i = choose|i: int| 0 <= i < g1.len() && g1[i] == k;
    let e1 = sig_entries(apps1);
    let e2 = sig_entries(apps2);
    let entry = sig_entry(k, key_count(apps1, k));
    assert(e1[i] == entry);
    assert(e1.contains(entry));
    assert(e1.to_multiset().count(entry) > 0);
    assert(e2.to_multiset().count(entry) > 0);
    assert(e2.contains(entry));
    let m = choose|m: int| 0 <= m < e2.len() && e2[m] == entry;
    assert(e2[m] == sig_entry(g2[m], key_count(apps2, g2[m])));
    assert(plain_key(g2[m]));
    assert(plain_key(g1[i]));
    lemma_entry_injective(k, key_count(apps1, k), g2[m], key_count(apps2, g2[m]));
}

/// Opening or closing a window changes the signature: two window lists
/// that count some key differently have different signatures, whatever
/// application is focused, where no window's key holds a `:` or a `|`
/// (the characters the signature is built with).
pub proof fn law_counts_change_signature(
    apps1: Seq<DesktopAppView>,
    apps2: Seq<DesktopAppView>,
    active: Option<Seq<char>>,
    k: Seq<char>,
)
    requires
        forall|j: int| 0 <= j < apps1.len() ==> plain_key(group_key(#[trigger] apps1[j])),
        forall|j: int| 0 <= j < apps2.len() ==> plain_key(group_key(#[trigger] apps2[j])),
        key_count(apps1, k) != key_count(apps2, k),
    ensures
        taskbar_signature(apps1, active) != taskbar_signature(apps2, active),
{
    if taskbar_signature(apps1, active) == taskbar_signature(apps2, active) {
        if key_count(apps1, k) > 0 {
            lemma_count_carried(apps1, apps2, active, k);
        } else {
            lemma_count_carried(apps2, apps1, active, k);
        }
    }
}

/// A group key that cannot be mistaken for the text around it in the
/// signature: plain (no `:`, no `|`) and without `/`.
pub open spec fn sig_key(k: Seq<char>) -> bool {
    plain_key(k) && !k.contains('/')
}

proof fn lemma_entry_no_slash(k: Seq<char>, n: nat)
    requires
        sig_key(k),
    ensures
        !sig_entry(k, n).contains('/'),
{
    reveal_strlit(":");
    lemma_dec_str_value(n);
    let e = sig_entry(k, n);
    let d = dec_str(n);
    assert(e == k + ":"@ + d);
    if e.contains('/') {
        let j = choose|j: int| 0 <= j < e.len() && e[j] == '/';
        if j < k.len() {
            assert(k[j] == e[j]);
            assert(k.contains('/'));
        } else if j > k.len() {
            assert(e[j] == d[j - k.len() - 1]);
            assert(is_digit(d[j - k.len() - 1]));
        }
    }
}

/// Joining with `||` brings in no character other than `|`.
proof fn lemma_join_no_char(parts: Seq<Seq<char>>, c: char)
    requires
        c != '|',
        forall|i: int| 0 <= i < parts.len() ==> !(#[trigger] parts[i]).contains(c),
    ensures
        !join(parts, "||"@).contains(c),
    decreases parts.len(),
{
    reveal_strlit("||");
    if parts.len() == 1 {
        assert(join(parts, "||"@) == parts[0]);
    } else if parts.len() >= 2 {
        let init = parts.drop_last();
        assert forall|i: int| 0 <= i < init.len() implies !(#[trigger] init[i]).contains(c) by {
            assert(init[i] == parts[i]);
        }
        lemma_join_no_char(init, c);
        let p = join(init, "||"@);
        let l = parts.last();
        assert(!l.contains(c)) by {
            assert(parts[parts.len() - 1] == l);
        }
        let t = join(parts, "||"@);
        assert(t == p + "||"@ + l);
        if t.contains(c) {
            let j = choose|j: int| 0 <= j < t.len() && t[j] == c;
            if j < p.len() {
                assert(p[j] == t[j]);
                assert(p.contains(c));
            } else if j >= p.len() + 2 {
                assert(l[j - p.len() - 2] == t[j]);
                assert(l.contains(c));
            }
        }
    }
}

/// The entries of the signature, in the order it lists them, hold no `/`
/// where no window's key does.
proof fn lemma_sorted_entries_no_slash(apps: Seq<DesktopAppView>)
    requires
        forall|j: int| 0 <= j < apps.len() ==> sig_key(group_key(#[trigger] apps[j])),
    ensures
        !join(sig_entries(apps).sort_by(lex_leq()), "||"@).contains('/'),
{
    broadcast use vstd::seq_lib::group_to_multiset_ensures;

    lemma_group_keys_of_apps(apps);
    let g = group_keys(apps);
    let e = sig_entries(apps);
    assert forall|i: int| 0 <= i < e.len() implies !(#[trigger] e[i]).contains('/') by {
        let j = choose|j: int| 0 <= j < apps.len() && group_key(apps[j]) == g[i];
        assert(sig_key(group_key(apps[j])));
        assert(e[i] == sig_entry(g[i], key_count(apps, g[i])));
        lemma_entry_no_slash(g[i], key_count(apps, g[i]));
    }
    lemma_lex_leq_total();
    e.lemma_sort_by_ensures(lex_leq());
    let s = e.sort_by(lex_leq());
    assert forall|i: int| 0 <= i < s.len() implies !(#[trigger] s[i]).contains('/') by {
        assert(s.contains(s[i]));
        assert(e.contains(s[i]));
        let m = choose|m: int| 0 <= m < e.len() && e[m] == s[i];
    }
    lemma_join_no_char(s, '/');
}

/// Equal signatures name the same focused application where no window's
/// key holds a `/`: the first `/` of a signature is where its entries end.
proof fn lemma_signature_focus(
    apps1: Seq<DesktopAppView>,
    a1: Option<Seq<char>>,
    apps2: Seq<DesktopAppView>,
    a2: Option<Seq<char>>,
)
    requires
        forall|j: int| 0 <= j < apps1.len() ==> sig_key(group_key(#[trigger] apps1[j])),
        forall|j: int| 0 <= j < apps2.len() ==> sig_key(group_key(#[trigger] apps2[j])),
        taskbar_signature(apps1, a1) == taskbar_signature(apps2, a2),
    ensures
        active_text(a1) == active_text(a2),
{
    reveal_strlit("//active:");
    lemma_sorted_entries_no_slash(apps1);
    lemma_sorted_entries_no_slash(apps2);
    let j1 = join(sig_entries(apps1).sort_by(lex_leq()), "||"@);
    let j2 = join(sig_entries(apps2).sort_by(lex_leq()), "||"@);
    let t = taskbar_signature(apps1, a1);
    assert(t == j1 + "//active:"@ + active_text(a1));
    assert(t == j2 + "//active:"@ + active_text(a2));
    if j1.len() < j2.len() {
        assert(t[j1.len() as int] == '/');
        assert(j2[j1.len() as int] == t[j1.len() as int]);
        assert(j2.contains('/'));
    }
    if j2.len() < j1.len() {
        assert(t[j2.len() as int] == '/');
        assert(j1[j2.len() as int] == t[j2.len() as int]);
        assert(j1.contains('/'));
    }
    assert(active_text(a1) =~= t.skip(j1.len() + 9int));
    assert(active_text(a2) =~= t.skip(j2.len() + 9int));
}

/// The signature tells two bars apart exactly when they differ: where no
/// window's key holds a `:`, a `|` or a `/`, two signatures are equal if
/// and only if every application has as many windows on both bars and the
/// same application is focused (none counting as the empty name). So
/// reordering windows never changes it, and opening or closing a window
/// or moving the focus, alone or together, always does.
pub proof fn law_signature_identifies_bar(
    apps1: Seq<DesktopAppView>,
    a1: Option<Seq<char>>,
    apps2: Seq<DesktopAppView>,
    a2: Option<Seq<char>>,
)
    requires
        forall|j: int| 0 <= j < apps1.len() ==> sig_key(group_key(#[trigger] apps1[j])),
        forall|j: int| 0 <= j < apps2.len() ==> sig_key(group_key(#[trigger] apps2[j])),
    ensures
        taskbar_signature(apps1, a1) == taskbar_signature(apps2, a2) <==> ((forall|k: Seq<char>|
            key_count(apps1, k) == key_count(apps2, k)) && active_text(a1) == active_text(a2)),
{
    if (forall|k: Seq<char>| key_count(apps1, k) == key_count(apps2, k)) && active_text(a1)
        == active_text(a2) {
        law_signature_depends_on_counts(apps1, apps2, a1);
        assert(taskbar_signature(apps2, a1) == taskbar_signature(apps2, a2));
    }
    if taskbar_signature(apps1, a1) == taskbar_signature(apps2, a2) {
        lemma_signature_focus(apps1, a1, apps2, a2);
        assert(taskbar_signature(apps2, a1) == taskbar_signature(apps2, a2));
        assert forall|j: int| 0 <= j < apps1.len() implies plain_key(
            group_key(#[trigger] apps1[j]),
        ) by {
            assert(sig_key(group_key(apps1[j])));
        }
        assert forall|j: int| 0 <= j < apps2.len() implies plain_key(
            group_key(#[trigger] apps2[j]),
        ) by {
            assert(sig_key(group_key(apps2[j])));
        }
        assert forall|k: Seq<char>| key_count(apps1, k) == key_count(apps2, k) by {
            if key_count(apps1, k) != key_count(apps2, k) {
                law_counts_change_signature(apps1, apps2, a1, k);
            }
        }
    }
}

/// The signature of the bar as it was last built.
pub struct TaskbarRefresh {
    pub last_signature: String,
}

impl TaskbarRefresh {
    /// Before the first build.
    pub fn new() -> (r: Self)
        ensures
            r.last_signature@ == Seq::<char>::empty(),
    {
        TaskbarRefresh { last_signature: String::new() }
    }

    /// Whether the bar must be rebuilt for the windows `running_apps` and
    /// the focused application: their signature differs from the last one
    /// built, and it becomes the last one. (The first check always
    /// rebuilds: a signature is never empty.)
    pub fn needs_rebuild(&mut self, running_apps: &[DesktopApp], active_app_id: Option<&str>) -> (b:
        bool)
        requires
            forall|k: Seq<char>| #[trigger] key_count(apps_view(running_apps@), k) <= i32::MAX,
        ensures
            final(self).last_signature@ == taskbar_signature(
                apps_view(running_apps@),
                opt_str_view(active_app_id),
            ),
            b == (taskbar_signature(apps_view(running_apps@), opt_str_view(active_app_id)) != old(
                self,
            ).last_signature@),
            taskbar_signature(apps_view(running_apps@), opt_str_view(active_app_id)).len() > 0,
    {
        let sig = get_taskbar_signature(running_apps, active_app_id);
        let a = chars_of(sig.as_str());
        let b = chars_of(self.last_signature.as_str());
        let same = chars_eq(&a, &b);
        proof {
            reveal_strlit("//active:");
            let p = join(sig_entries(apps_view(running_apps@)).sort_by(lex_leq()), "||"@);
            assert((p + "//active:"@ + active_text(opt_str_view(active_app_id))).len() >= 9);
        }
        self.last_signature = sig;
        !same
    }
}

// ---------------------------------------------------------------------------
// The buttons of the bar
// ---------------------------------------------------------------------------
/// A button of the bar: the windows of one application.
pub struct TaskbarGroup {
    pub key: String,
    pub windows: Vec<DesktopApp>,
    pub active: bool,
    pub icon_name: String,
}

pub struct TaskbarGroupView {
    pub key: Seq<char>,
    pub windows: Seq<DesktopAppView>,
    pub active: bool,
    pub icon_name: Seq<char>,
}

impl View for TaskbarGroup {
    type V = TaskbarGroupView;

    open spec fn view(&self) -> TaskbarGroupView {
        TaskbarGroupView {
            key: self.key@,
            windows: apps_view(self.windows@),
            active: self.active,
            icon_name: self.icon_name@,
        }
    }
}

/// The window has an app id equal to `la`, letter case aside.
pub open spec fn window_has_id(w: DesktopAppView, la: Seq<char>) -> bool {
    match w.app_id {
        Some(id) => lowercase(id) == la,
        None => false,
    }
}

/// A group is highlighted when the focused application's id equals, letter
/// case aside, the group's key or the app id of one of its windows.
pub open spec fn group_is_active(
    k: Seq<char>,
    ws: Seq<DesktopAppView>,
    active: Option<Seq<char>>,
) -> bool {
    match active {
        None => false,
        Some(a) => lowercase(k) == lowercase(a) || exists|i: int|
            0 <= i < ws.len() && #[trigger] window_has_id(ws[i], lowercase(a)),
    }
}

/// The icon of a group: that of its first window, else its key.
pub open spec fn group_icon(k: Seq<char>, ws: Seq<DesktopAppView>) -> Seq<char> {
    if ws.len() > 0 {
        match ws[0].icon {
            Some(i) => i,
            None => k,
        }
    } else {
        k
    }
}

/// The button of the group `k` of `apps`.
pub open spec fn group_view(
    apps: Seq<DesktopAppView>,
    k: Seq<char>,
    active: Option<Seq<char>>,
) -> TaskbarGroupView {
    let ws = group_windows(apps, k);
    TaskbarGroupView {
        key: k,
        windows: ws,
        active: group_is_active(k, ws, active),
        icon_name: group_icon(k, ws),
    }
}

/// The windows of `apps` grouped under `key`, in order.
pub fn windows_of(apps: &[DesktopApp], key: &[char]) -> (r: Vec<DesktopApp>)
    ensures
        apps_view(r@) == group_windows(apps_view(apps@), key@),
{
    let ghost av = apps_view(apps@);
    let mut r: Vec<DesktopApp> = Vec::new();
    let mut i: usize = 0;
    assert(av.take(0) =~= Seq::<DesktopAppView>::empty());
    assert(apps_view(r@) =~= Seq::<DesktopAppView>::empty());
    while i < apps.len()
        invariant
            i <= apps@.len(),
            av == apps_view(apps@),
            apps_view(r@) == group_windows(av.take(i as int), key@),
        decreases apps@.len() - i,
    {
        let ghost post = av.take(i + 1);
        assert(post.drop_last() =~= av.take(i as int));
        assert(post.last() == apps@[i as int]@);
        let k: Vec<char> = match &apps[i].app_id {
            Some(id) => chars_of(id.as_str()),
            None => chars_of(apps[i].name.as_str()),
        };
        if chars_eq(&k, key) {
            let ghost before = r@;
            r.push(copy_app(&apps[i]));
            assert(apps_view(r@) =~= apps_view(before).push(apps@[i as int]@));
        }
        i += 1;
    }
    assert(av.take(apps@.len() as int) =~= av);
    r
}

/// Whether the group `key` with windows `ws` is highlighted for the
/// focused application `active`.
fn is_group_active(key: &[char], ws: &Vec<DesktopApp>, active: Option<&str>) -> (b: bool)
    ensures
        b == group_is_active(key@, apps_view(ws@), opt_str_view(active)),
{
    match active {
        None => false,
        Some(a) => {
            let ac = chars_of(a);
            let la = lowercase_chars(&ac);
            let lk = lowercase_chars(key);
            if chars_eq(&lk, &la) {
                return true;
            }
            let ghost wv = apps_view(ws@);
            let mut i: usize = 0;
            while i < ws.len()
                invariant
                    i <= ws@.len(),
                    wv == apps_view(ws@),
                    la@ == lowercase(a@),
                    opt_str_view(active) == Some(a@),
                    forall|j: int| 0 <= j < i ==> !#[trigger] window_has_id(wv[j], la@),
                decreases ws@.len() - i,
            {
                assert(wv[i as int] == ws@[i as int]@);
                match &ws[i].app_id {
                    Some(id) => {
                        let ic = chars_of(id.as_str());
                        let li = lowercase_chars(&ic);
                        if chars_eq(&li, &la) {
                            assert(window_has_id(wv[i as int], la@));
                            assert(group_is_active(key@, wv, opt_str_view(active)));
                            return true;
                        }
                    },
                    None => {},
                }
                i += 1;
            }
            false
        },
    }
}

/// The buttons of the bar, one for each application that has windows:
/// ordered by key, letter case aside (keys equal but for case in no set
/// order), each with its windows in order, highlighted when it holds the
/// focused application, and showing the icon of its first window.
pub fn taskbar_groups(running_apps: &[DesktopApp], active_app_id: Option<&str>) -> (r: Vec<
    TaskbarGroup,
>)
    ensures
        r@.len() == group_keys(apps_view(running_apps@)).len(),
        forall|i: int|
            0 <= i < r@.len() ==> group_keys(apps_view(running_apps@)).contains(
                #[trigger] r@[i].key@,
            ),
        forall|i: int, j: int| 0 <= i < j < r@.len() ==> r@[i].key@ != r@[j].key@,
        forall|i: int, j: int|
            0 <= i < j < r@.len() ==> lex_le(lowercase(r@[i].key@), lowercase(r@[j].key@)),
        forall|i: int|
            0 <= i < r@.len() ==> #[trigger] r@[i]@ == group_view(
                apps_view(running_apps@),
                r@[i].key@,
                opt_str_view(active_app_id),
            ),
{
    let ghost av = apps_view(running_apps@);
    let (keys, _counts) = count_groups(running_apps);
    proof {
        lemma_group_keys_distinct(av);
    }
    let mut lower: Vec<Vec<char>> = Vec::new();
    let mut g: usize = 0;
    while g < keys.len()
        invariant
            g <= keys@.len(),
            lower@.len() == g,
            forall|h: int| 0 <= h < g ==> #[trigger] lower@[h]@ == lowercase(keys@[h]@),
        decreases keys@.len() - g,
    {
        lower.push(lowercase_chars(&keys[g]));
        g += 1;
    }
    let order = stable_order_by_chars(&lower);
    let ghost lv = lower@.map_values(|k: Vec<char>| k@);
    let mut r: Vec<TaskbarGroup> = Vec::new();
    let mut i: usize = 0;
    while i < order.len()
        invariant
            i <= order@.len(),
            is_permutation(order@, lower@.len()),
            stably_sorted_by_chars(lv, order@),
            lv == lower@.map_values(|k: Vec<char>| k@),
            lower@.len() == keys@.len(),
            forall|h: int| 0 <= h < lower@.len() ==> #[trigger] lower@[h]@ == lowercase(keys@[h]@),
            char_views(keys@) == group_keys(av),
            av == apps_view(running_apps@),
            forall|a: int, b: int|
                0 <= a < b < group_keys(av).len() ==> #[trigger] group_keys(av)[a]
                    != #[trigger] group_keys(av)[b],
            r@.len() == i,
            forall|k: int| 0 <= k < i ==> #[trigger] r@[k].key@ == keys@[order@[k] as int]@,
            forall|k: int|
                0 <= k < i ==> #[trigger] r@[k]@ == group_view(
                    av,
                    r@[k].key@,
                    opt_str_view(active_app_id),
                ),
        decreases order@.len() - i,
    {
        let idx = order[i];
        let key = &keys[idx];
        let windows = windows_of(running_apps, key);
        let active = is_group_active(key, &windows, active_app_id);
        let icon_name: String = if windows.len() > 0 {
            match &windows[0].icon {
                Some(ic) => ic.clone(),
                None => string_of(key),
            }
        } else {
            string_of(key)
        };
        proof {
            if windows@.len() > 0 {
                assert(apps_view(windows@)[0] == windows@[0]@);
            }
        }
        r.push(TaskbarGroup { key: string_of(key), windows, active, icon_name });
        i += 1;
    }
    assert forall|i: int| 0 <= i < r@.len() implies group_keys(av).contains(
        #[trigger] r@[i].key@,
    ) by {
        assert(char_views(keys@)[order@[i] as int] == keys@[order@[i] as int]@);
    }
    assert forall|i: int, j: int| 0 <= i < j < r@.len() implies r@[i].key@ != r@[j].key@ by {
        assert(char_views(keys@)[order@[i] as int] == keys@[order@[i] as int]@);
        assert(char_views(keys@)[order@[j] as int] == keys@[order@[j] as int]@);
        if order@[i] < order@[j] {
            assert(group_keys(av)[order@[i] as int] != group_keys(av)[order@[j] as int]);
        } else {
            assert(group_keys(av)[order@[j] as int] != group_keys(av)[order@[i] as int]);
        }
    }
    assert forall|i: int, j: int| 0 <= i < j < r@.len() implies lex_le(
        lowercase(r@[i].key@),
        lowercase(r@[j].key@),
    ) by {
        assert(key_index_lt(lv[order@[i] as int], order@[i], lv[order@[j] as int], order@[j]));
        assert(lv[order@[i] as int] == lower@[order@[i] as int]@);
        assert(lv[order@[j] as int] == lower@[order@[j] as int]@);
    }
    r
}

/// The number of windows in the groups `ks` of `apps`, all counted.
pub open spec fn windows_in_groups(apps: Seq<DesktopAppView>, ks: Seq<Seq<char>>) -> nat
    decreases ks.len(),
{
    if ks.len() == 0 {
        0
    } else {
        windows_in_groups(apps, ks.drop_last()) + group_windows(apps, ks.last()).len()
    }
}

proof fn lemma_group_windows_push(apps: Seq<DesktopAppView>, a: DesktopAppView, k: Seq<char>)
    ensures
        group_windows(apps.push(a), k) == if group_key(a) == k {
            group_windows(apps, k).push(a)
        } else {
            group_windows(apps, k)
        },
{
    assert(apps.push(a).drop_last() =~= apps);
}

proof fn lemma_absent_group_empty(apps: Seq<DesktopAppView>, k: Seq<char>)
    requires
        !group_keys(apps).contains(k),
    ensures
        group_windows(apps, k).len() == 0,
    decreases apps.len(),
{
    if apps.len() > 0 {
        let prev = group_keys(apps.drop_last());
        let kl = group_key(apps.last());
        if !prev.contains(kl) {
            assert(prev.push(kl).last() == kl);
        }
        if prev.contains(k) {
            let i = choose|i: int| 0 <= i < prev.len() && prev[i] == k;
            if !prev.contains(kl) {
                assert(prev.push(kl)[i] == k);
            }
        }
        lemma_absent_group_empty(apps.drop_last(), k);
    }
}

proof fn lemma_windows_in_groups_push(apps: Seq<DesktopAppView>, a: DesktopAppView, ks: Seq<
    Seq<char>,
>)
    requires
        forall|i: int, j: int| 0 <= i < j < ks.len() ==> #[trigger] ks[i] != #[trigger] ks[j],
    ensures
        windows_in_groups(apps.push(a), ks) == windows_in_groups(apps, ks) + if ks.contains(
            group_key(a),
        ) {
            1nat
        } else {
            0nat
        },
    decreases ks.len(),
{
    if ks.len() > 0 {
        let init = ks.drop_last();
        lemma_windows_in_groups_push(apps, a, init);
        lemma_group_windows_push(apps, a, ks.last());
        if init.contains(group_key(a)) {
            let i = choose|i: int| 0 <= i < init.len() && init[i] == group_key(a);
            assert(ks[i] == group_key(a));
            assert(ks.contains(group_key(a)));
            assert(ks[i] != ks[ks.len() - 1]);
        } else if ks.last() == group_key(a) {
            assert(ks[ks.len() - 1] == group_key(a));
        } else {
            if ks.contains(group_key(a)) {
                let i = choose|i: int| 0 <= i < ks.len() && ks[i] == group_key(a);
                assert(init[i] == group_key(a));
            }
        }
    }
}

/// Every running window is shown under exactly one button: it belongs to
/// the group of its key, that group has a button, and the groups' windows
/// together are as many as the windows.
pub proof fn law_groups_partition_windows(apps: Seq<DesktopAppView>)
    ensures
        windows_in_groups(apps, group_keys(apps)) == apps.len(),
        forall|i: int|
            0 <= i < apps.len() ==> group_keys(apps).contains(group_key(#[trigger] apps[i])),
    decreases apps.len(),
{
    if apps.len() > 0 {
        let init = apps.drop_last();
        let a = apps.last();
        assert(init.push(a) =~= apps);
        law_groups_partition_windows(init);
        lemma_group_keys_distinct(init);
        lemma_windows_in_groups_push(init, a, group_keys(init));
        let prev = group_keys(init);
        let k = group_key(a);
        if !prev.contains(k) {
            lemma_absent_group_empty(init, k);
            lemma_group_windows_push(init, a, k);
            assert(group_keys(apps) =~= prev.push(k));
            assert(group_keys(apps).drop_last() =~= prev);
            assert(group_keys(apps).last() == k);
            lemma_windows_in_groups_push(init, a, prev);
            assert(group_keys(apps)[prev.len() as int] == k);
        }
        assert forall|i: int| 0 <= i < apps.len() implies group_keys(apps).contains(
            group_key(#[trigger] apps[i]),
        ) by {
            if i < init.len() {
                assert(apps[i] == init[i]);
                let j = choose|j: int| 0 <= j < prev.len() && prev[j] == group_key(init[i]);
                if !prev.contains(k) {
                    assert(group_keys(apps)[j] == prev[j]);
                }
            } else {
                if prev.contains(k) {
                } else {
                    assert(group_keys(apps)[prev.len() as int] == k);
                }
            }
        }
    }
}

// ---------------------------------------------------------------------------
// Clicks
// ---------------------------------------------------------------------------
/// What a click on a group button does.
pub enum TaskbarClick {
    /// List the group's windows in a menu.
    ShowPreviews { windows: Vec<DesktopApp> },
    /// Focus the group's only window.
    Focus { app_id: String, title: String },
    /// The group has no window left.
    Nothing,
}

/// The app id a window is focused by: its own, else the group's key.
pub open spec fn target_id(w: DesktopAppView, key: Seq<char>) -> Seq<char> {
    match w.app_id {
        Some(id) => id,
        None => key,
    }
}

/// The title a window is focused by: its own, else empty.
pub open spec fn target_title(w: DesktopAppView) -> Seq<char> {
    match w.window_title {
        Some(t) => t,
        None => Seq::empty(),
    }
}

/// What a click on the button of group `app_id` does, given the windows
/// running now: with several windows of the group, list them; with one,
/// focus it; with none, nothing.
pub fn taskbar_click(windows: &[DesktopApp], app_id: &str) -> (r: TaskbarClick)
    ensures
        ({
            let ws = group_windows(apps_view(windows@), app_id@);
            match r {
                TaskbarClick::ShowPreviews { windows: v } => ws.len() > 1 && apps_view(v@) == ws,
                TaskbarClick::Focus { app_id: a, title: t } => ws.len() == 1 && a@ == target_id(
                    ws[0],
                    app_id@,
                ) && t@ == target_title(ws[0]),
                TaskbarClick::Nothing => ws.len() == 0,
            }
        }),
{
    let key = chars_of(app_id);
    let ws = windows_of(windows, &key);
    if ws.len() > 1 {
        TaskbarClick::ShowPreviews { windows: ws }
    } else if ws.len() == 1 {
        assert(apps_view(ws@)[0] == ws@[0]@);
        let a: String = match &ws[0].app_id {
            Some(id) => id.clone(),
            None => string_from(app_id),
        };
        let t: String = match &ws[0].window_title {
            Some(tt) => tt.clone(),
            None => String::new(),
        };
        TaskbarClick::Focus { app_id: a, title: t }
    } else {
        TaskbarClick::Nothing
    }
}

// ---------------------------------------------------------------------------
// The menu of a group's windows
// ---------------------------------------------------------------------------
/// An entry of the window menu: its label and the window it focuses or
/// closes.
pub struct PreviewItem {
    pub label: String,
    pub app_id: String,
    pub title: String,
}

/// The window menu of a group: an entry per window, then the action to
/// open another window of the application and the one to close them all.
pub struct PreviewMenu {
    pub items: Vec<PreviewItem>,
    pub app_name: String,
    pub exec_cmd: String,
    pub icon_name: String,
}

/// The label of a window's entry: a bullet, then its title, or its
/// application's name where the title is empty.
pub open spec fn preview_label(w: DesktopAppView) -> Seq<char> {
    "● "@ + if target_title(w).len() > 0 {
        target_title(w)
    } else {
        w.name
    }
}

/// The entry of window `w` in the menu of group `key`.
pub open spec fn preview_item_ok(item: PreviewItem, w: DesktopAppView, key: Seq<char>) -> bool {
    &&& item.label@ == preview_label(w)
    &&& item.app_id@ == target_id(w, key)
    &&& item.title@ == target_title(w)
}

/// The name shown on the action that opens another window.
pub open spec fn menu_app_name(ws: Seq<DesktopAppView>, key: Seq<char>) -> Seq<char> {
    if ws.len() > 0 {
        ws[0].name
    } else {
        key
    }
}

/// The command the action that opens another window runs.
pub open spec fn menu_exec(ws: Seq<DesktopAppView>, key: Seq<char>) -> Seq<char> {
    if ws.len() > 0 {
        ws[0].exec_cmd
    } else {
        key
    }
}

/// The menu listing the windows `windows` of group `app_id`. Each entry
/// focuses its window; "close all" closes the windows of all entries.
pub fn preview_menu(windows: &[DesktopApp], app_id: &str) -> (m: PreviewMenu)
    ensures
        m.items@.len() == windows@.len(),
        forall|i: int|
            0 <= i < windows@.len() ==> preview_item_ok(
                #[trigger] m.items@[i],
                windows@[i]@,
                app_id@,
            ),
        m.app_name@ == menu_app_name(apps_view(windows@), app_id@),
        m.exec_cmd@ == menu_exec(apps_view(windows@), app_id@),
        m.icon_name@ == group_icon(app_id@, apps_view(windows@)),
{
    let bullet = chars_of("● ");
    let mut items: Vec<PreviewItem> = Vec::new();
    let mut i: usize = 0;
    while i < windows.len()
        invariant
            i <= windows@.len(),
            bullet@ == "● "@,
            items@.len() == i,
            forall|k: int|
                0 <= k < i ==> preview_item_ok(#[trigger] items@[k], windows@[k]@, app_id@),
        decreases windows@.len() - i,
    {
        let w = &windows[i];
        let title: Vec<char> = match &w.window_title {
            Some(t) => chars_of(t.as_str()),
            None => Vec::new(),
        };
        let shown: Vec<char> = if title.len() > 0 {
            title.clone()
        } else {
            chars_of(w.name.as_str())
        };
        let label = concat_chars(&bullet, &shown);
        let target: String = match &w.app_id {
            Some(id) => id.clone(),
            None => string_from(app_id),
        };
        items.push(PreviewItem { label: string_of(&label), app_id: target, title: string_of(&title) });
        i += 1;
    }
    proof {
        if windows@.len() > 0 {
            assert(apps_view(windows@)[0] == windows@[0]@);
        }
    }
    if windows.len() > 0 {
        let first = &windows[0];
        let icon_name: String = match &first.icon {
            Some(ic) => ic.clone(),
            None => string_from(app_id),
        };
        PreviewMenu {
            items,
            app_name: first.name.clone(),
            exec_cmd: first.exec_cmd.clone(),
            icon_name,
        }
    } else {
        PreviewMenu {
            items,
            app_name: string_from(app_id),
            exec_cmd: string_from(app_id),
            icon_name: string_from(app_id),
        }
    }
}

/// The program and arguments of a command line: its whitespace-separated
/// words, the first being the program; `None` for a blank command.
pub fn launch_command(exec_cmd: &str) -> (r: Option<(String, Vec<String>)>)
    ensures
        match r {
            Some((prog, args)) => words(exec_cmd@).len() > 0 && prog@ == words(exec_cmd@)[0]
                && args@.len() + 1 == words(exec_cmd@).len() && forall|k: int|
                0 <= k < args@.len() ==> #[trigger] args@[k]@ == words(exec_cmd@)[k + 1],
            None => words(exec_cmd@).len() == 0,
        },
{
    let cs = chars_of(exec_cmd);
    let ws = split_words(&cs);
    if ws.len() == 0 {
        return None;
    }
    let prog = string_of(&ws[0]);
    let mut args: Vec<String> = Vec::new();
    let mut k: usize = 1;
    while k < ws.len()
        invariant
            1 <= k <= ws@.len(),
            ws@.len() == words(exec_cmd@).len(),
            forall|j: int| 0 <= j < ws@.len() ==> #[trigger] ws@[j]@ == words(exec_cmd@)[j],
            args@.len() + 1 == k,
            forall|j: int| 0 <= j < args@.len() ==> #[trigger] args@[j]@ == words(exec_cmd@)[j + 1],
        decreases ws@.len() - k,
    {
        args.push(string_of(&ws[k]));
        k += 1;
    }
    Some((prog, args))
}

} // verus!
