//! The launcher: which applications the query shows, the web search it
//! offers, the search of the user's files, the icons of found files, and
//! the keyboard navigation between the results.
use vstd::prelude::*;

use crate::desktop::DesktopApp;
use crate::i18n::{t, translate, LocaleState};
use crate::text::{
    chars_eq_str, chars_of, concat_chars, contains, contains_exec, lowercase, lowercase_chars,
    replace_all, replace_chars, rfind, rfind_char, skip_chars, starts_with, string_of, trim,
    trim_chars, utf8_len, utf8_shorter_than,
};

verus! {

// ---------------------------------------------------------------------------
// Applications shown for a query
// ---------------------------------------------------------------------------
/// The query as applications are matched against it: trimmed, lowercase.
pub open spec fn app_query(query: Seq<char>) -> Seq<char> {
    lowercase(trim(query))
}

/// An application is listed when the query is empty or its lowercase name
/// contains the query.
pub open spec fn app_shown(name: Seq<char>, q: Seq<char>) -> bool {
    q.len() == 0 || contains(lowercase(name), q)
}

/// The positions in `apps` of the applications listed for `query`, in
/// order.
pub fn filter_apps(apps: &Vec<DesktopApp>, query: &str) -> (r: Vec<usize>)
    ensures
        forall|k: int| 0 <= k < r@.len() ==> #[trigger] r@[k] < apps@.len(),
        forall|k: int, l: int| 0 <= k < l < r@.len() ==> r@[k] < r@[l],
        forall|i: int|
            0 <= i < apps@.len() ==> (r@.contains(i as usize) <==> app_shown(
                #[trigger] apps@[i].name@,
                app_query(query@),
            )),
{
    let qc = chars_of(query);
    let qt = trim_chars(&qc);
    let q = lowercase_chars(&qt);
    let mut r: Vec<usize> = Vec::new();
    let mut i: usize = 0;
    while i < apps.len()
        invariant
            i <= apps@.len(),
            q@ == app_query(query@),
            forall|k: int| 0 <= k < r@.len() ==> #[trigger] r@[k] < i,
            forall|k: int, l: int| 0 <= k < l < r@.len() ==> r@[k] < r@[l],
            forall|j: int|
                0 <= j < i ==> (r@.contains(j as usize) <==> app_shown(
                    #[trigger] apps@[j].name@,
                    q@,
                )),
        decreases apps@.len() - i,
    {
        let shown = if q.len() == 0 {
            true
        } else {
            let nc = chars_of(apps[i].name.as_str());
            let nl = lowercase_chars(&nc);
            contains_exec(&nl, &q)
        };
        let ghost before = r@;
        if shown {
            r.push(i);
            assert forall|j: int| 0 <= j < i implies (#[trigger] r@.contains(j as usize)
                <==> before.contains(j as usize)) by {
                if r@.contains(j as usize) {
                    let k = choose|k: int| 0 <= k < r@.len() && r@[k] == j as usize;
                    if k == r@.len() - 1 {
                    } else {
                        assert(before[k] == j as usize);
                    }
                }
                if before.contains(j as usize) {
                    let k = choose|k: int| 0 <= k < before.len() && before[k] == j as usize;
                    assert(r@[k] == j as usize);
                }
            }
        }
        assert forall|j: int| 0 <= j < i + 1 implies (r@.contains(j as usize) <==> app_shown(
            #[trigger] apps@[j].name@,
            q@,
        )) by {
            if j == i {
                if !shown {
                    if r@.contains(j as usize) {
                        let k = choose|k: int| 0 <= k < r@.len() && r@[k] == j as usize;
                        assert(r@[k] < i);
                    }
                } else {
                    assert(r@[r@.len() - 1] == i);
                }
            }
        }
        i += 1;
    }
    r
}

/// The cells of the application grid for `query`: the applications whose
/// lowercase names contain the lowercase query, in order, four to a row;
/// each as its position in `apps`, its column and its row.
pub fn grid_cells(apps: &Vec<DesktopApp>, query: &str) -> (r: Vec<(usize, i32, i32)>)
    ensures
        forall|k: int, l: int| 0 <= k < l < r@.len() ==> r@[k].0 < r@[l].0,
        forall|k: int|
            0 <= k < r@.len() ==> (#[trigger] r@[k]).0 < apps@.len() && r@[k].1 == (k % 4) as i32
                && r@[k].2 == (k / 4) as i32,
        forall|i: int|
            0 <= i < apps@.len() ==> (exists|k: int| 0 <= k < r@.len() && #[trigger] r@[k].0 == i)
                == contains(lowercase(#[trigger] apps@[i].name@), lowercase(query@)),
{
    let qc = chars_of(query);
    let q = lowercase_chars(&qc);
    let mut r: Vec<(usize, i32, i32)> = Vec::new();
    let mut i: usize = 0;
    while i < apps.len()
        invariant
            i <= apps@.len(),
            q@ == lowercase(query@),
            r@.len() <= i,
            forall|k: int, l: int| 0 <= k < l < r@.len() ==> r@[k].0 < r@[l].0,
            forall|k: int|
                0 <= k < r@.len() ==> (#[trigger] r@[k]).0 < i && r@[k].1 == (k % 4) as i32
                    && r@[k].2 == (k / 4) as i32,
            forall|j: int|
                0 <= j < i ==> (exists|k: int| 0 <= k < r@.len() && #[trigger] r@[k].0 == j)
                    == contains(lowercase(#[trigger] apps@[j].name@), q@),
        decreases apps@.len() - i,
    {
        let nc = chars_of(apps[i].name.as_str());
        let nl = lowercase_chars(&nc);
        let ghost before = r@;
        if contains_exec(&nl, &q) {
            let n = r.len();
            r.push((i, (n % 4) as i32, (n / 4) as i32));
            assert(r@[n as int].0 == i);
        }
        assert forall|j: int| 0 <= j < i + 1 implies (exists|k: int|
            0 <= k < r@.len() && #[trigger] r@[k].0 == j) == contains(
            lowercase(#[trigger] apps@[j].name@),
            q@,
        ) by {
            if j < i {
                if exists|k: int| 0 <= k < r@.len() && #[trigger] r@[k].0 == j {
                    let k = choose|k: int| 0 <= k < r@.len() && #[trigger] r@[k].0 == j;
                    assert(k < before.len());
                    assert(before[k].0 == j);
                }
                if exists|k: int| 0 <= k < before.len() && #[trigger] before[k].0 == j {
                    let k = choose|k: int| 0 <= k < before.len() && #[trigger] before[k].0 == j;
                    assert(r@[k].0 == j);
                }
            }
        }
        i += 1;
    }
    r
}

// ---------------------------------------------------------------------------
// Web search
// ---------------------------------------------------------------------------
/// What the search column shows for a query.
pub enum SearchPanel {
    /// The query is blank: the welcome text.
    Welcome { text: String },
    /// A web search offer for the trimmed query, and a file search.
    Results { query: String, label: String, url: String },
}

/// The address of a web search for `q`: spaces become `+`.
pub open spec fn search_url(q: Seq<char>) -> Seq<char> {
    "https://www.google.com/search?q="@ + replace_all(q, seq![' '], seq!['+'])
}

/// The search column for `query` in the language of `state`: the welcome
/// text for a blank query; else the web search offer, its label the
/// translated template with `{}` replaced by the trimmed query.
pub fn search_panel(state: &LocaleState, query: &str) -> (r: SearchPanel)
    ensures
        ({
            let q = trim(query@);
            match r {
                SearchPanel::Welcome { text } => q.len() == 0 && text@ == translate(
                    state.view(),
                    "launcher.welcome"@,
                ),
                SearchPanel::Results { query: rq, label, url } => q.len() > 0 && rq@ == q
                    && label@ == replace_all(
                    translate(state.view(), "launcher.google_search"@),
                    "{}"@,
                    q,
                ) && url@ == search_url(q),
            }
        }),
{
    let qc = chars_of(query);
    let q = trim_chars(&qc);
    if q.len() == 0 {
        return SearchPanel::Welcome { text: t(state, "launcher.welcome") };
    }
    let fmt = t(state, "launcher.google_search");
    let fc = chars_of(fmt.as_str());
    let holder = chars_of("{}");
    proof {
        reveal_strlit("{}");
    }
    let label = replace_chars(&fc, &holder, &q);
    let space = chars_of(" ");
    let plus = chars_of("+");
    proof {
        reveal_strlit(" ");
        reveal_strlit("+");
        assert(space@ =~= seq![' ']);
        assert(plus@ =~= seq!['+']);
    }
    let encoded = replace_chars(&q, &space, &plus);
    let base = chars_of("https://www.google.com/search?q=");
    let url = concat_chars(&base, &encoded);
    SearchPanel::Results { query: string_of(&q), label: string_of(&label), url: string_of(&url) }
}

// ---------------------------------------------------------------------------
// File search
// ---------------------------------------------------------------------------
/// The most results the search collects before it stops reading folders.
pub const FILE_RESULT_LIMIT: usize = 8;

/// A query is searched for in files only when its trimmed text has two or
/// more bytes.
pub open spec fn file_query_ok(query: Seq<char>) -> bool {
    utf8_len(trim(query)) >= 2
}

/// A folder entry, as the search reads it.
pub struct DirEntryInfo {
    /// The entry's file name.
    pub name: String,
    /// The entry's full path.
    pub path: String,
    /// Whether the entry is a folder.
    pub is_dir: bool,
}

/// Entries that the search passes over: hidden ones and build or package
/// folders.
pub open spec fn skipped_name(name: Seq<char>) -> bool {
    starts_with(name, "."@) || name == "node_modules"@ || name == "target"@ || name == "build"@
        || name == ".git"@
}

/// The paths of the entries of `es` whose names contain `q` (the query in
/// lowercase), in order.
pub open spec fn matching_paths(es: Seq<DirEntryInfo>, q: Seq<char>) -> Seq<Seq<char>>
    decreases es.len(),
{
    if es.len() == 0 {
        Seq::empty()
    } else {
        let prev = matching_paths(es.drop_last(), q);
        let e = es.last();
        if !skipped_name(e.name@) && contains(lowercase(e.name@), q) {
            prev.push(e.path@)
        } else {
            prev
        }
    }
}

/// The folders among `es` that the search goes into from a folder at
/// `depth`: only from the top folders (depth 0), one level down.
pub open spec fn descended(es: Seq<DirEntryInfo>, depth: nat) -> Seq<(Seq<char>, nat)>
    decreases es.len(),
{
    if es.len() == 0 {
        Seq::empty()
    } else {
        let prev = descended(es.drop_last(), depth);
        let e = es.last();
        if !skipped_name(e.name@) && e.is_dir && depth < 1 {
            prev.push((e.path@, depth + 1))
        } else {
            prev
        }
    }
}

/// The state of a search through the user's folders. The folders are read
/// by the caller: `next_dir` says which to read next, `add_entries` takes
/// what it holds.
pub struct FileSearch {
    query_lower: Vec<char>,
    roots: Vec<String>,
    stack: Vec<(String, u64)>,
    results: Vec<String>,
}

pub struct FileSearchView {
    pub query_lower: Seq<char>,
    pub roots: Seq<Seq<char>>,
    pub stack: Seq<(Seq<char>, nat)>,
    pub results: Seq<Seq<char>>,
}

pub open spec fn strings_view(v: Seq<String>) -> Seq<Seq<char>> {
    v.map_values(|s: String| s@)
}

pub open spec fn stack_view(v: Seq<(String, u64)>) -> Seq<(Seq<char>, nat)> {
    v.map_values(|e: (String, u64)| (e.0@, e.1 as nat))
}

impl View for FileSearch {
    type V = FileSearchView;

    closed spec fn view(&self) -> FileSearchView {
        FileSearchView {
            query_lower: self.query_lower@,
            roots: strings_view(self.roots@),
            stack: stack_view(self.stack@),
            results: strings_view(self.results@),
        }
    }
}

/// The next folder to read and the state after taking it: the top of the
/// stack, starting the next top folder when the stack is empty; once the
/// limit of results is reached, the folder taken is dropped with the rest
/// of its tree, and the search goes on to the next top folder.
pub open spec fn next_step(v: FileSearchView) -> (Option<(Seq<char>, nat)>, FileSearchView)
    decreases v.roots.len(), v.stack.len(),
{
    if v.stack.len() == 0 {
        if v.roots.len() == 0 {
            (None, v)
        } else {
            next_step(
                FileSearchView {
                    roots: v.roots.drop_first(),
                    stack: seq![(v.roots[0], 0nat)],
                    ..v
                },
            )
        }
    } else {
        let top = v.stack.last();
        let popped = FileSearchView { stack: v.stack.drop_last(), ..v };
        if v.results.len() >= FILE_RESULT_LIMIT {
            next_step(FileSearchView { stack: Seq::empty(), ..popped })
        } else {
            (Some(top), popped)
        }
    }
}

impl FileSearch {
    /// A search for `query` through the folders `roots` (in order), or
    /// `None` where the trimmed query is shorter than two bytes (it finds
    /// nothing then).
    pub fn new(query: &str, roots: Vec<String>) -> (r: Option<FileSearch>)
        ensures
            match r {
                Some(fs) => file_query_ok(query@) && fs@ == (FileSearchView {
                    query_lower: lowercase(query@),
                    roots: strings_view(roots@),
                    stack: Seq::empty(),
                    results: Seq::empty(),
                }),
                None => !file_query_ok(query@),
            },
    {
        let qc = chars_of(query);
        let qt = trim_chars(&qc);
        if utf8_shorter_than(&qt, 2) {
            return None;
        }
        let fs = FileSearch {
            query_lower: lowercase_chars(&qc),
            roots,
            stack: Vec::new(),
            results: Vec::new(),
        };
        assert(stack_view(fs.stack@) =~= Seq::<(Seq<char>, nat)>::empty());
        assert(strings_view(fs.results@) =~= Seq::<Seq<char>>::empty());
        Some(fs)
    }

    /// The folder to read next, with its depth; `None` when the search is
    /// over.
    pub fn next_dir(&mut self) -> (r: Option<(String, u64)>)
        ensures
            ({
                let (n, v) = next_step(old(self)@);
                &&& final(self)@ == v
                &&& match r {
                    Some((d, depth)) => n == Some((d@, depth as nat)),
                    None => n is None,
                }
            }),
        decreases old(self)@.roots.len(), old(self)@.stack.len(),
    {
        if self.stack.len() == 0 {
            if self.roots.len() == 0 {
                return None;
            }
            let root = self.roots.remove(0);
            self.stack.push((root, 0));
            assert(strings_view(self.roots@) =~= old(self)@.roots.drop_first());
            assert(stack_view(self.stack@) =~= seq![(old(self)@.roots[0], 0nat)]);
            return self.next_dir();
        }
        let top = self.stack.pop().unwrap();
        assert(stack_view(self.stack@) =~= old(self)@.stack.drop_last());
        if self.results.len() >= FILE_RESULT_LIMIT {
            self.stack.clear();
            assert(stack_view(self.stack@) =~= Seq::<(Seq<char>, nat)>::empty());
            return self.next_dir();
        }
        Some(top)
    }

    /// Takes the entries of a folder read at `depth`: the entries whose
    /// names contain the query (letter case aside) join the results, the
    /// folders to go into join the stack, each in the order read.
    pub fn add_entries(&mut self, depth: u64, entries: &Vec<DirEntryInfo>)
        ensures
            final(self)@ == (FileSearchView {
                results: old(self)@.results + matching_paths(entries@, old(self)@.query_lower),
                stack: old(self)@.stack + descended(entries@, depth as nat),
                ..old(self)@
            }),
    {
        let ghost r0 = old(self)@.results;
        let ghost s0 = old(self)@.stack;
        let mut i: usize = 0;
        while i < entries.len()
            invariant
                i <= entries@.len(),
                self@.query_lower == old(self)@.query_lower,
                self@.roots == old(self)@.roots,
                self@.results == r0 + matching_paths(
                    entries@.take(i as int),
                    old(self)@.query_lower,
                ),
                self@.stack == s0 + descended(entries@.take(i as int), depth as nat),
            decreases entries@.len() - i,
        {
            let ghost post = entries@.take(i + 1);
            assert(post.drop_last() =~= entries@.take(i as int));
            assert(post.last() == entries@[i as int]);
            let e = &entries[i];
            let nc = chars_of(e.name.as_str());
            let skip = (nc.len() > 0 && nc[0] == '.') || chars_eq_str(&nc, "node_modules")
                || chars_eq_str(&nc, "target") || chars_eq_str(&nc, "build") || chars_eq_str(
                &nc,
                ".git",
            );
            proof {
                reveal_strlit(".");
                assert("."@ =~= seq!['.']);
                if nc@.len() > 0 {
                    if nc@[0] == '.' {
                        assert(nc@.take(1) =~= "."@);
                    } else {
                        assert(nc@.take(1)[0] != "."@[0]);
                    }
                }
                assert(starts_with(nc@, "."@) == (nc@.len() > 0 && nc@[0] == '.'));
            }
            if !skip {
                let nl = lowercase_chars(&nc);
                let ghost rb = self@.results;
                if contains_exec(&nl, &self.query_lower) {
                    self.results.push(e.path.clone());
                    assert(self@.results =~= rb.push(e.path@));
                }
                let ghost sb = self@.stack;
                if e.is_dir && depth < 1 {
                    self.stack.push((e.path.clone(), depth + 1));
                    assert(self@.stack =~= sb.push((e.path@, (depth + 1) as nat)));
                }
            }
            i += 1;
        }
        assert(entries@.take(entries@.len() as int) =~= entries@);
    }

    /// The paths found so far, in the order found.
    pub fn results(&self) -> (r: Vec<String>)
        ensures
            strings_view(r@) == self@.results,
    {
        let mut r: Vec<String> = Vec::new();
        let mut i: usize = 0;
        while i < self.results.len()
            invariant
                i <= self.results@.len(),
                strings_view(r@) == strings_view(self.results@).take(i as int),
            decreases self.results@.len() - i,
        {
            let ghost before = r@;
            let c = self.results[i].clone();
            r.push(c);
            assert(strings_view(r@) =~= strings_view(before).push(self.results@[i as int]@));
            assert(strings_view(self.results@).take(i + 1) =~= strings_view(self.results@).take(
                i as int,
            ).push(self.results@[i as int]@));
            i += 1;
        }
        assert(strings_view(self.results@).take(self.results@.len() as int) =~= strings_view(
            self.results@,
        ));
        r
    }
}

/// Every folder on the stack lies at most one level below a top folder.
pub open spec fn depths_bounded(stack: Seq<(Seq<char>, nat)>) -> bool {
    forall|i: int| 0 <= i < stack.len() ==> (#[trigger] stack[i]).1 <= 1
}

proof fn lemma_descended_bounded(es: Seq<DirEntryInfo>, depth: nat)
    requires
        depth <= 1,
    ensures
        depths_bounded(descended(es, depth)),
    decreases es.len(),
{
    if es.len() > 0 {
        lemma_descended_bounded(es.drop_last(), depth);
    }
}

/// The search never goes deeper than one level below the top folders:
/// where every folder waiting on the stack is at most one level down, the
/// folder read next is too, and so is every folder that reading one at
/// most one level down adds.
pub proof fn law_search_depth_bounded(
    v: FileSearchView,
    depth: nat,
    entries: Seq<DirEntryInfo>,
)
    requires
        depths_bounded(v.stack),
        depth <= 1,
    ensures
        next_step(v).0 matches Some((_, d)) ==> d <= 1,
        depths_bounded(next_step(v).1.stack),
        depths_bounded(v.stack + descended(entries, depth)),
    decreases v.roots.len(), v.stack.len(),
{
    lemma_descended_bounded(entries, depth);
    let s2 = v.stack + descended(entries, depth);
    assert forall|i: int| 0 <= i < s2.len() implies (#[trigger] s2[i]).1 <= 1 by {
        if i >= v.stack.len() {
            assert(s2[i] == descended(entries, depth)[i - v.stack.len()]);
        }
    }
    if v.stack.len() == 0 {
        if v.roots.len() > 0 {
            let w = FileSearchView {
                roots: v.roots.drop_first(),
                stack: seq![(v.roots[0], 0nat)],
                ..v
            };
            law_search_depth_bounded(w, depth, entries);
        }
    } else {
        let popped = FileSearchView { stack: v.stack.drop_last(), ..v };
        assert(v.stack.last() == v.stack[v.stack.len() - 1]);
        if v.results.len() >= FILE_RESULT_LIMIT {
            let w = FileSearchView { stack: Seq::empty(), ..popped };
            law_search_depth_bounded(w, depth, entries);
        } else {
            assert forall|i: int| 0 <= i < popped.stack.len() implies (
            #[trigger] popped.stack[i]).1 <= 1 by {
                assert(popped.stack[i] == v.stack[i]);
            }
        }
    }
}

/// Once the limit of results is reached, no folder is read any more.
pub proof fn law_search_stops_at_limit(v: FileSearchView)
    requires
        v.results.len() >= FILE_RESULT_LIMIT,
    ensures
        next_step(v).0 is None,
    decreases v.roots.len(), v.stack.len(),
{
    if v.stack.len() == 0 {
        if v.roots.len() > 0 {
            law_search_stops_at_limit(
                FileSearchView { roots: v.roots.drop_first(), stack: seq![(v.roots[0], 0nat)], ..v },
            );
        }
    } else {
        law_search_stops_at_limit(FileSearchView { stack: Seq::empty(), ..v });
    }
}

/// Results only grow: reading a folder keeps every earlier result, in its
/// place, and adds only entries whose names hold the query.
pub proof fn law_results_only_grow(v: FileSearchView, entries: Seq<DirEntryInfo>)
    ensures
        (v.results + matching_paths(entries, v.query_lower)).take(v.results.len() as int)
            == v.results,
        forall|i: int|
            0 <= i < matching_paths(entries, v.query_lower).len() ==> exists|j: int|
                0 <= j < entries.len() && (#[trigger] matching_paths(entries, v.query_lower)[i])
                    == entries[j].path@ && !skipped_name(entries[j].name@) && contains(
                    lowercase(entries[j].name@),
                    v.query_lower,
                ),
{
    assert((v.results + matching_paths(entries, v.query_lower)).take(v.results.len() as int)
        =~= v.results);
    lemma_matching_from_entries(entries, v.query_lower);
}

proof fn lemma_matching_from_entries(es: Seq<DirEntryInfo>, q: Seq<char>)
    ensures
        forall|i: int|
            0 <= i < matching_paths(es, q).len() ==> exists|j: int|
                0 <= j < es.len() && (#[trigger] matching_paths(es, q)[i]) == es[j].path@
                    && !skipped_name(es[j].name@) && contains(lowercase(es[j].name@), q),
    decreases es.len(),
{
    if es.len() > 0 {
        let init = es.drop_last();
        lemma_matching_from_entries(init, q);
        let m = matching_paths(es, q);
        let mp = matching_paths(init, q);
        assert forall|i: int| 0 <= i < m.len() implies exists|j: int|
            0 <= j < es.len() && (#[trigger] m[i]) == es[j].path@ && !skipped_name(es[j].name@)
                && contains(lowercase(es[j].name@), q) by {
            if i < mp.len() {
                assert(m[i] == mp[i]);
                let j = choose|j: int|
                    0 <= j < init.len() && mp[i] == init[j].path@ && !skipped_name(init[j].name@)
                        && contains(lowercase(init[j].name@), q);
                assert(es[j] == init[j]);
            } else {
                assert(es[es.len() - 1] == es.last());
            }
        }
    }
}

// ---------------------------------------------------------------------------
// Icons of found files
// ---------------------------------------------------------------------------
/// The extension of a file name (`Path::extension`): the text after its
/// last `.`, unless that dot begins the name.
pub open spec fn extension(name: Seq<char>) -> Option<Seq<char>> {
    match rfind(name, seq!['.']) {
        Some(j) => if j == 0 || name == ".."@ {
            None
        } else {
            Some(name.skip(j + 1))
        },
        None => None,
    }
}

/// The theme icon of a found file, by its lowercase extension.
pub open spec fn file_icon(is_dir: bool, ext: Seq<char>) -> Seq<char> {
    if is_dir {
        "folder"@
    } else if ext == "png"@ || ext == "jpg"@ || ext == "jpeg"@ || ext == "gif"@ || ext == "svg"@
        || ext == "webp"@ {
        "image-x-generic"@
    } else if ext == "pdf"@ {
        "document-pdf"@
    } else if ext == "zip"@ || ext == "tar"@ || ext == "gz"@ || ext == "xz"@ || ext == "rar"@
        || ext == "7z"@ {
        "package-x-generic"@
    } else if ext == "mp3"@ || ext == "wav"@ || ext == "ogg"@ || ext == "flac"@ {
        "audio-x-generic"@
    } else if ext == "mp4"@ || ext == "mkv"@ || ext == "avi"@ || ext == "mov"@ {
        "video-x-generic"@
    } else if ext == "html"@ || ext == "htm"@ || ext == "css"@ || ext == "js"@ || ext == "ts"@ {
        "text-html"@
    } else {
        "text-x-generic"@
    }
}

fn ext_in(e: &[char], names: &[&str]) -> (b: bool)
    ensures
        b == exists|k: int| 0 <= k < names@.len() && e@ == #[trigger] names@[k]@,
{
    let mut k: usize = 0;
    while k < names.len()
        invariant
            k <= names@.len(),
            forall|j: int| 0 <= j < k ==> e@ != #[trigger] names@[j]@,
        decreases names@.len() - k,
    {
        if chars_eq_str(e, names[k]) {
            return true;
        }
        k += 1;
    }
    false
}

/// The theme icon of a found file. `file_name` is its name where that is
/// valid UTF-8, `None` otherwise (it then has no extension).
pub fn file_icon_name(is_dir: bool, file_name: Option<&str>) -> (r: String)
    ensures
        r@ == file_icon(
            is_dir,
            match file_name {
                Some(n) => match extension(n@) {
                    Some(e) => lowercase(e),
                    None => lowercase(Seq::empty()),
                },
                None => lowercase(Seq::empty()),
            },
        ),
{
    let ext: Vec<char> = match file_name {
        Some(n) => {
            let nc = chars_of(n);
            match rfind_char(&nc, '.') {
                Some(j) => {
                    assert(j < nc.len());
                    if j == 0 || chars_eq_str(&nc, "..") {
                        Vec::new()
                    } else {
                        skip_chars(&nc, j + 1)
                    }
                },
                None => Vec::new(),
            }
        },
        None => Vec::new(),
    };
    let e = lowercase_chars(&ext);
    let icon: &str = if is_dir {
        "folder"
    } else if ext_in(&e, &["png", "jpg", "jpeg", "gif", "svg", "webp"]) {
        "image-x-generic"
    } else if chars_eq_str(&e, "pdf") {
        "document-pdf"
    } else if ext_in(&e, &["zip", "tar", "gz", "xz", "rar", "7z"]) {
        "package-x-generic"
    } else if ext_in(&e, &["mp3", "wav", "ogg", "flac"]) {
        "audio-x-generic"
    } else if ext_in(&e, &["mp4", "mkv", "avi", "mov"]) {
        "video-x-generic"
    } else if ext_in(&e, &["html", "htm", "css", "js", "ts"]) {
        "text-html"
    } else {
        "text-x-generic"
    };
    let out = chars_of(icon);
    string_of(&out)
}

// ---------------------------------------------------------------------------
// Keyboard navigation
// ---------------------------------------------------------------------------
/// A key the launcher handles.
#[derive(Clone, Copy, Debug, PartialEq, Eq, Structural)]
pub enum LauncherKey {
    Escape,
    Down,
    Up,
    Enter,
    Other,
}

/// What a key press in the launcher does.
#[derive(Clone, Copy, Debug, PartialEq, Eq, Structural)]
pub enum LauncherAction {
    /// Close the launcher.
    Close,
    /// Move the focus to the result button at this position.
    FocusButton(usize),
    /// Move the focus back to the search field.
    FocusSearch,
    /// Press the focused button.
    ActivateFocused,
    /// Press the result button at this position.
    ActivateButton(usize),
    /// Nothing.
    Nothing,
}

/// The effect of a key press: the action, and whether the key is consumed
/// (not passed on to the focused widget).
pub open spec fn key_effect(
    key: LauncherKey,
    buttons: nat,
    focus: Option<nat>,
    focus_is_button: bool,
) -> (LauncherAction, bool) {
    match key {
        LauncherKey::Escape => (LauncherAction::Close, false),
        LauncherKey::Down => (
            if buttons == 0 {
                LauncherAction::Nothing
            } else {
                match focus {
                    Some(i) => LauncherAction::FocusButton(((i + 1) % buttons) as usize),
                    None => LauncherAction::FocusButton(0),
                }
            },
            true,
        ),
        LauncherKey::Up => (
            if buttons == 0 {
                LauncherAction::Nothing
            } else {
                match focus {
                    Some(i) => if i == 0 {
                        LauncherAction::FocusSearch
                    } else {
                        LauncherAction::FocusButton((i - 1) as usize)
                    },
                    None => LauncherAction::FocusButton((buttons - 1) as usize),
                }
            },
            true,
        ),
        LauncherKey::Enter => (
            if focus_is_button {
                LauncherAction::ActivateFocused
            } else if buttons > 0 {
                LauncherAction::ActivateButton(0)
            } else {
                LauncherAction::Nothing
            },
            true,
        ),
        LauncherKey::Other => (LauncherAction::Nothing, false),
    }
}

/// What pressing `key` does, given the number of visible result buttons,
/// the position among them of the focused widget (`None` where the focus
/// is elsewhere) and whether the focused widget is a button.
pub fn launcher_key(key: LauncherKey, buttons: usize, focus: Option<usize>, focus_is_button: bool) -> (r:
    (LauncherAction, bool))
    requires
        focus matches Some(i) ==> i < buttons,
    ensures
        r == key_effect(
            key,
            buttons as nat,
            match focus {
                Some(i) => Some(i as nat),
                None => None,
            },
            focus_is_button,
        ),
{
    match key {
        LauncherKey::Escape => (LauncherAction::Close, false),
        LauncherKey::Down => {
            if buttons == 0 {
                (LauncherAction::Nothing, true)
            } else {
                match focus {
                    Some(i) => (LauncherAction::FocusButton((i + 1) % buttons), true),
                    None => (LauncherAction::FocusButton(0), true),
                }
            }
        },
        LauncherKey::Up => {
            if buttons == 0 {
                (LauncherAction::Nothing, true)
            } else {
                match focus {
                    Some(i) => if i == 0 {
                        (LauncherAction::FocusSearch, true)
                    } else {
                        (LauncherAction::FocusButton(i - 1), true)
                    },
                    None => (LauncherAction::FocusButton(buttons - 1), true),
                }
            }
        },
        LauncherKey::Enter => {
            if focus_is_button {
                (LauncherAction::ActivateFocused, true)
            } else if buttons > 0 {
                (LauncherAction::ActivateButton(0), true)
            } else {
                (LauncherAction::Nothing, true)
            }
        },
        LauncherKey::Other => (LauncherAction::Nothing, false),
    }
}

/// Down then Up leads back to the same result button, except from the
/// last one (Down wraps around to the first, and Up from there goes to the
/// search field).
pub proof fn law_down_then_up(buttons: nat, i: nat, fb: bool)
    requires
        i + 1 < buttons,
    ensures
        key_effect(LauncherKey::Down, buttons, Some(i), fb).0 == LauncherAction::FocusButton(
            (i + 1) as usize,
        ),
        key_effect(LauncherKey::Up, buttons, Some(i + 1), fb).0 == LauncherAction::FocusButton(
            i as usize,
        ),
{
    assert((i + 1) % buttons == i + 1) by (nonlinear_arith)
        requires
            i + 1 < buttons,
    ;
}

/// Down from the last result button wraps around to the first; Up from the
/// first goes back to the search field.
pub proof fn law_navigation_wraps(buttons: nat, fb: bool)
    requires
        buttons > 0,
    ensures
        key_effect(
            LauncherKey::Down,
            buttons,
            Some((buttons - 1) as nat),
            fb,
        ).0 == LauncherAction::FocusButton(0),
        key_effect(LauncherKey::Up, buttons, Some(0), fb).0 == LauncherAction::FocusSearch,
{
    assert(((buttons - 1) as nat + 1) % buttons == 0) by (nonlinear_arith)
        requires
            buttons > 0,
    ;
}

/// Down from anywhere moves the focus onto a result button, and Up moves
/// it onto a result button or the search field: the focus never leaves
/// the launcher's results.
pub proof fn law_navigation_stays_in_range(buttons: nat, focus: Option<nat>, fb: bool)
    requires
        buttons > 0,
        focus matches Some(i) ==> i < buttons,
    ensures
        key_effect(LauncherKey::Down, buttons, focus, fb).0 matches LauncherAction::FocusButton(j)
            && j < buttons,
        key_effect(LauncherKey::Up, buttons, focus, fb).0 matches LauncherAction::FocusButton(j)
            && j < buttons || key_effect(LauncherKey::Up, buttons, focus, fb).0
            == LauncherAction::FocusSearch,
{
    match focus {
        Some(i) => {
            assert((i + 1) % buttons < buttons) by (nonlinear_arith)
                requires
                    buttons > 0,
            ;
        },
        None => {},
    }
}

/// The icon of every kind of found file, by its lowercase extension:
/// folders get `folder`; images (png, jpg, jpeg, gif, svg, webp)
/// `image-x-generic`; pdf `document-pdf`; archives (zip, tar, gz, xz, rar,
/// 7z) `package-x-generic`; sound (mp3, wav, ogg, flac) `audio-x-generic`;
/// video (mp4, mkv, avi, mov) `video-x-generic`; web files (html, htm, css,
/// js, ts) `text-html`; anything else `text-x-generic`.
pub proof fn law_file_icons(ext: Seq<char>)
    ensures
        file_icon(true, ext) == "folder"@,
        (ext == "png"@ || ext == "jpg"@ || ext == "jpeg"@ || ext == "gif"@ || ext == "svg"@ || ext == "webp"@) ==> file_icon(false, ext) == "image-x-generic"@,
        (ext == "pdf"@) ==> file_icon(false, ext) == "document-pdf"@,
        (ext == "zip"@ || ext == "tar"@ || ext == "gz"@ || ext == "xz"@ || ext == "rar"@ || ext == "7z"@) ==> file_icon(false, ext) == "package-x-generic"@,
        (ext == "mp3"@ || ext == "wav"@ || ext == "ogg"@ || ext == "flac"@) ==> file_icon(false, ext) == "audio-x-generic"@,
        (ext == "mp4"@ || ext == "mkv"@ || ext == "avi"@ || ext == "mov"@) ==> file_icon(false, ext) == "video-x-generic"@,
        (ext == "html"@ || ext == "htm"@ || ext == "css"@ || ext == "js"@ || ext == "ts"@) ==> file_icon(false, ext) == "text-html"@,
        !(ext == "png"@ || ext == "jpg"@ || ext == "jpeg"@ || ext == "gif"@ || ext == "svg"@ || ext == "webp"@ || ext == "pdf"@ || ext == "zip"@ || ext == "tar"@ || ext == "gz"@ || ext == "xz"@ || ext == "rar"@ || ext == "7z"@ || ext == "mp3"@ || ext == "wav"@ || ext == "ogg"@ || ext == "flac"@ || ext == "mp4"@ || ext == "mkv"@ || ext == "avi"@ || ext == "mov"@ || ext == "html"@ || ext == "htm"@ || ext == "css"@ || ext == "js"@ || ext == "ts"@) ==> file_icon(false, ext) == "text-x-generic"@,
{
    reveal_strlit("png");
    reveal_strlit("jpg");
    reveal_strlit("jpeg");
    reveal_strlit("gif");
    reveal_strlit("svg");
    reveal_strlit("webp");
    reveal_strlit("pdf");
    reveal_strlit("zip");
    reveal_strlit("tar");
    reveal_strlit("gz");
    reveal_strlit("xz");
    reveal_strlit("rar");
    reveal_strlit("7z");
    reveal_strlit("mp3");
    reveal_strlit("wav");
    reveal_strlit("ogg");
    reveal_strlit("flac");
    reveal_strlit("mp4");
    reveal_strlit("mkv");
    reveal_strlit("avi");
    reveal_strlit("mov");
    reveal_strlit("html");
    reveal_strlit("htm");
    reveal_strlit("css");
    reveal_strlit("js");
    reveal_strlit("ts");
    if ext == "png"@ {

    }
    if ext == "jpg"@ {

    }
    if ext == "jpeg"@ {

    }
    if ext == "gif"@ {

    }
    if ext == "svg"@ {

    }
    if ext == "webp"@ {

    }
    if ext == "pdf"@ {
        assert("pdf"@[1] != "png"@[1]);
        assert("pdf"@[0] != "jpg"@[0]);
        assert("pdf"@.len() != "jpeg"@.len());
        assert("pdf"@[0] != "gif"@[0]);
        assert("pdf"@[0] != "svg"@[0]);
        assert("pdf"@.len() != "webp"@.len());
    }
    if ext == "zip"@ {
        assert("zip"@[0] != "png"@[0]);
        assert("zip"@[0] != "jpg"@[0]);
        assert("zip"@.len() != "jpeg"@.len());
        assert("zip"@[0] != "gif"@[0]);
        assert("zip"@[0] != "svg"@[0]);
        assert("zip"@.len() != "webp"@.len());
        assert("zip"@[0] != "pdf"@[0]);
    }
    if ext == "tar"@ {
        assert("tar"@[0] != "png"@[0]);
        assert("tar"@[0] != "jpg"@[0]);
        assert("tar"@.len() != "jpeg"@.len());
        assert("tar"@[0] != "gif"@[0]);
        assert("tar"@[0] != "svg"@[0]);
        assert("tar"@.len() != "webp"@.len());
        assert("tar"@[0] != "pdf"@[0]);
    }
    if ext == "gz"@ {
        assert("gz"@.len() != "png"@.len());
        assert("gz"@.len() != "jpg"@.len());
        assert("gz"@.len() != "jpeg"@.len());
        assert("gz"@.len() != "gif"@.len());
        assert("gz"@.len() != "svg"@.len());
        assert("gz"@.len() != "webp"@.len());
        assert("gz"@.len() != "pdf"@.len());
    }
    if ext == "xz"@ {
        assert("xz"@.len() != "png"@.len());
        assert("xz"@.len() != "jpg"@.len());
        assert("xz"@.len() != "jpeg"@.len());
        assert("xz"@.len() != "gif"@.len());
        assert("xz"@.len() != "svg"@.len());
        assert("xz"@.len() != "webp"@.len());
        assert("xz"@.len() != "pdf"@.len());
    }
    if ext == "rar"@ {
        assert("rar"@[0] != "png"@[0]);
        assert("rar"@[0] != "jpg"@[0]);
        assert("rar"@.len() != "jpeg"@.len());
        assert("rar"@[0] != "gif"@[0]);
        assert("rar"@[0] != "svg"@[0]);
        assert("rar"@.len() != "webp"@.len());
        assert("rar"@[0] != "pdf"@[0]);
    }
    if ext == "7z"@ {
        assert("7z"@.len() != "png"@.len());
        assert("7z"@.len() != "jpg"@.len());
        assert("7z"@.len() != "jpeg"@.len());
        assert("7z"@.len() != "gif"@.len());
        assert("7z"@.len() != "svg"@.len());
        assert("7z"@.len() != "webp"@.len());
        assert("7z"@.len() != "pdf"@.len());
    }
    if ext == "mp3"@ {
        assert("mp3"@[0] != "png"@[0]);
        assert("mp3"@[0] != "jpg"@[0]);
        assert("mp3"@.len() != "jpeg"@.len());
        assert("mp3"@[0] != "gif"@[0]);
        assert("mp3"@[0] != "svg"@[0]);
        assert("mp3"@.len() != "webp"@.len());
        assert("mp3"@[0] != "pdf"@[0]);
        assert("mp3"@[0] != "zip"@[0]);
        assert("mp3"@[0] != "tar"@[0]);
        assert("mp3"@.len() != "gz"@.len());
        assert("mp3"@.len() != "xz"@.len());
        assert("mp3"@[0] != "rar"@[0]);
        assert("mp3"@.len() != "7z"@.len());
    }
    if ext == "wav"@ {
        assert("wav"@[0] != "png"@[0]);
        assert("wav"@[0] != "jpg"@[0]);
        assert("wav"@.len() != "jpeg"@.len());
        assert("wav"@[0] != "gif"@[0]);
        assert("wav"@[0] != "svg"@[0]);
        assert("wav"@.len() != "webp"@.len());
        assert("wav"@[0] != "pdf"@[0]);
        assert("wav"@[0] != "zip"@[0]);
        assert("wav"@[0] != "tar"@[0]);
        assert("wav"@.len() != "gz"@.len());
        assert("wav"@.len() != "xz"@.len());
        assert("wav"@[0] != "rar"@[0]);
        assert("wav"@.len() != "7z"@.len());
    }
    if ext == "ogg"@ {
        assert("ogg"@[0] != "png"@[0]);
        assert("ogg"@[0] != "jpg"@[0]);
        assert("ogg"@.len() != "jpeg"@.len());
        assert("ogg"@[0] != "gif"@[0]);
        assert("ogg"@[0] != "svg"@[0]);
        assert("ogg"@.len() != "webp"@.len());
        assert("ogg"@[0] != "pdf"@[0]);
        assert("ogg"@[0] != "zip"@[0]);
        assert("ogg"@[0] != "tar"@[0]);
        assert("ogg"@.len() != "gz"@.len());
        assert("ogg"@.len() != "xz"@.len());
        assert("ogg"@[0] != "rar"@[0]);
        assert("ogg"@.len() != "7z"@.len());
    }
    if ext == "flac"@ {
        assert("flac"@.len() != "png"@.len());
        assert("flac"@.len() != "jpg"@.len());
        assert("flac"@[0] != "jpeg"@[0]);
        assert("flac"@.len() != "gif"@.len());
        assert("flac"@.len() != "svg"@.len());
        assert("flac"@[0] != "webp"@[0]);
        assert("flac"@.len() != "pdf"@.len());
        assert("flac"@.len() != "zip"@.len());
        assert("flac"@.len() != "tar"@.len());
        assert("flac"@.len() != "gz"@.len());
        assert("flac"@.len() != "xz"@.len());
        assert("flac"@.len() != "rar"@.len());
        assert("flac"@.len() != "7z"@.len());
    }
    if ext == "mp4"@ {
        assert("mp4"@[0] != "png"@[0]);
        assert("mp4"@[0] != "jpg"@[0]);
        assert("mp4"@.len() != "jpeg"@.len());
        assert("mp4"@[0] != "gif"@[0]);
        assert("mp4"@[0] != "svg"@[0]);
        assert("mp4"@.len() != "webp"@.len());
        assert("mp4"@[0] != "pdf"@[0]);
        assert("mp4"@[0] != "zip"@[0]);
        assert("mp4"@[0] != "tar"@[0]);
        assert("mp4"@.len() != "gz"@.len());
        assert("mp4"@.len() != "xz"@.len());
        assert("mp4"@[0] != "rar"@[0]);
        assert("mp4"@.len() != "7z"@.len());
        assert("mp4"@[2] != "mp3"@[2]);
        assert("mp4"@[0] != "wav"@[0]);
        assert("mp4"@[0] != "ogg"@[0]);
        assert("mp4"@.len() != "flac"@.len());
    }
    if ext == "mkv"@ {
        assert("mkv"@[0] != "png"@[0]);
        assert("mkv"@[0] != "jpg"@[0]);
        assert("mkv"@.len() != "jpeg"@.len());
        assert("mkv"@[0] != "gif"@[0]);
        assert("mkv"@[0] != "svg"@[0]);
        assert("mkv"@.len() != "webp"@.len());
        assert("mkv"@[0] != "pdf"@[0]);
        assert("mkv"@[0] != "zip"@[0]);
        assert("mkv"@[0] != "tar"@[0]);
        assert("mkv"@.len() != "gz"@.len());
        assert("mkv"@.len() != "xz"@.len());
        assert("mkv"@[0] != "rar"@[0]);
        assert("mkv"@.len() != "7z"@.len());
        assert("mkv"@[1] != "mp3"@[1]);
        assert("mkv"@[0] != "wav"@[0]);
        assert("mkv"@[0] != "ogg"@[0]);
        assert("mkv"@.len() != "flac"@.len());
    }
    if ext == "avi"@ {
        assert("avi"@[0] != "png"@[0]);
        assert("avi"@[0] != "jpg"@[0]);
        assert("avi"@.len() != "jpeg"@.len());
        assert("avi"@[0] != "gif"@[0]);
        assert("avi"@[0] != "svg"@[0]);
        assert("avi"@.len() != "webp"@.len());
        assert("avi"@[0] != "pdf"@[0]);
        assert("avi"@[0] != "zip"@[0]);
        assert("avi"@[0] != "tar"@[0]);
        assert("avi"@.len() != "gz"@.len());
        assert("avi"@.len() != "xz"@.len());
        assert("avi"@[0] != "rar"@[0]);
        assert("avi"@.len() != "7z"@.len());
        assert("avi"@[0] != "mp3"@[0]);
        assert("avi"@[0] != "wav"@[0]);
        assert("avi"@[0] != "ogg"@[0]);
        assert("avi"@.len() != "flac"@.len());
    }
    if ext == "mov"@ {
        assert("mov"@[0] != "png"@[0]);
        assert("mov"@[0] != "jpg"@[0]);
        assert("mov"@.len() != "jpeg"@.len());
        assert("mov"@[0] != "gif"@[0]);
        assert("mov"@[0] != "svg"@[0]);
        assert("mov"@.len() != "webp"@.len());
        assert("mov"@[0] != "pdf"@[0]);
        assert("mov"@[0] != "zip"@[0]);
        assert("mov"@[0] != "tar"@[0]);
        assert("mov"@.len() != "gz"@.len());
        assert("mov"@.len() != "xz"@.len());
        assert("mov"@[0] != "rar"@[0]);
        assert("mov"@.len() != "7z"@.len());
        assert("mov"@[1] != "mp3"@[1]);
        assert("mov"@[0] != "wav"@[0]);
        assert("mov"@[0] != "ogg"@[0]);
        assert("mov"@.len() != "flac"@.len());
    }
    if ext == "html"@ {
        assert("html"@.len() != "png"@.len());
        assert("html"@.len() != "jpg"@.len());
        assert("html"@[0] != "jpeg"@[0]);
        assert("html"@.len() != "gif"@.len());
        assert("html"@.len() != "svg"@.len());
        assert("html"@[0] != "webp"@[0]);
        assert("html"@.len() != "pdf"@.len());
        assert("html"@.len() != "zip"@.len());
        assert("html"@.len() != "tar"@.len());
        assert("html"@.len() != "gz"@.len());
        assert("html"@.len() != "xz"@.len());
        assert("html"@.len() != "rar"@.len());
        assert("html"@.len() != "7z"@.len());
        assert("html"@.len() != "mp3"@.len());
        assert("html"@.len() != "wav"@.len());
        assert("html"@.len() != "ogg"@.len());
        assert("html"@[0] != "flac"@[0]);
        assert("html"@.len() != "mp4"@.len());
        assert("html"@.len() != "mkv"@.len());
        assert("html"@.len() != "avi"@.len());
        assert("html"@.len() != "mov"@.len());
    }
    if ext == "htm"@ {
        assert("htm"@[0] != "png"@[0]);
        assert("htm"@[0] != "jpg"@[0]);
        assert("htm"@.len() != "jpeg"@.len());
        assert("htm"@[0] != "gif"@[0]);
        assert("htm"@[0] != "svg"@[0]);
        assert("htm"@.len() != "webp"@.len());
        assert("htm"@[0] != "pdf"@[0]);
        assert("htm"@[0] != "zip"@[0]);
        assert("htm"@[0] != "tar"@[0]);
        assert("htm"@.len() != "gz"@.len());
        assert("htm"@.len() != "xz"@.len());
        assert("htm"@[0] != "rar"@[0]);
        assert("htm"@.len() != "7z"@.len());
        assert("htm"@[0] != "mp3"@[0]);
        assert("htm"@[0] != "wav"@[0]);
        assert("htm"@[0] != "ogg"@[0]);
        assert("htm"@.len() != "flac"@.len());
        assert("htm"@[0] != "mp4"@[0]);
        assert("htm"@[0] != "mkv"@[0]);
        assert("htm"@[0] != "avi"@[0]);
        assert("htm"@[0] != "mov"@[0]);
    }
    if ext == "css"@ {
        assert("css"@[0] != "png"@[0]);
        assert("css"@[0] != "jpg"@[0]);
        assert("css"@.len() != "jpeg"@.len());
        assert("css"@[0] != "gif"@[0]);
        assert("css"@[0] != "svg"@[0]);
        assert("css"@.len() != "webp"@.len());
        assert("css"@[0] != "pdf"@[0]);
        assert("css"@[0] != "zip"@[0]);
        assert("css"@[0] != "tar"@[0]);
        assert("css"@.len() != "gz"@.len());
        assert("css"@.len() != "xz"@.len());
        assert("css"@[0] != "rar"@[0]);
        assert("css"@.len() != "7z"@.len());
        assert("css"@[0] != "mp3"@[0]);
        assert("css"@[0] != "wav"@[0]);
        assert("css"@[0] != "ogg"@[0]);
        assert("css"@.len() != "flac"@.len());
        assert("css"@[0] != "mp4"@[0]);
        assert("css"@[0] != "mkv"@[0]);
        assert("css"@[0] != "avi"@[0]);
        assert("css"@[0] != "mov"@[0]);
    }
    if ext == "js"@ {
        assert("js"@.len() != "png"@.len());
        assert("js"@.len() != "jpg"@.len());
        assert("js"@.len() != "jpeg"@.len());
        assert("js"@.len() != "gif"@.len());
        assert("js"@.len() != "svg"@.len());
        assert("js"@.len() != "webp"@.len());
        assert("js"@.len() != "pdf"@.len());
        assert("js"@.len() != "zip"@.len());
        assert("js"@.len() != "tar"@.len());
        assert("js"@[0] != "gz"@[0]);
        assert("js"@[0] != "xz"@[0]);
        assert("js"@.len() != "rar"@.len());
        assert("js"@[0] != "7z"@[0]);
        assert("js"@.len() != "mp3"@.len());
        assert("js"@.len() != "wav"@.len());
        assert("js"@.len() != "ogg"@.len());
        assert("js"@.len() != "flac"@.len());
        assert("js"@.len() != "mp4"@.len());
        assert("js"@.len() != "mkv"@.len());
        assert("js"@.len() != "avi"@.len());
        assert("js"@.len() != "mov"@.len());
    }
    if ext == "ts"@ {
        assert("ts"@.len() != "png"@.len());
        assert("ts"@.len() != "jpg"@.len());
        assert("ts"@.len() != "jpeg"@.len());
        assert("ts"@.len() != "gif"@.len());
        assert("ts"@.len() != "svg"@.len());
        assert("ts"@.len() != "webp"@.len());
        assert("ts"@.len() != "pdf"@.len());
        assert("ts"@.len() != "zip"@.len());
        assert("ts"@.len() != "tar"@.len());
        assert("ts"@[0] != "gz"@[0]);
        assert("ts"@[0] != "xz"@[0]);
        assert("ts"@.len() != "rar"@.len());
        assert("ts"@[0] != "7z"@[0]);
        assert("ts"@.len() != "mp3"@.len());
        assert("ts"@.len() != "wav"@.len());
        assert("ts"@.len() != "ogg"@.len());
        assert("ts"@.len() != "flac"@.len());
        assert("ts"@.len() != "mp4"@.len());
        assert("ts"@.len() != "mkv"@.len());
        assert("ts"@.len() != "avi"@.len());
        assert("ts"@.len() != "mov"@.len());
    }
}

} // verus!
