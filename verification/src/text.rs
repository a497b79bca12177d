//! Text primitives over character sequences: whitespace, trimming,
//! tokenizing, line splitting, searching and number parsing.
//!
//! Every executable function here is proved against a spec function over
//! `Seq<char>`, so that the parsers built on top of them can state their
//! results over the same model.
use vstd::prelude::*;

verus! {

// ---------------------------------------------------------------------------
// Characters
// ---------------------------------------------------------------------------
/// The Unicode `White_Space` property, as used by `char::is_whitespace`.
pub open spec fn is_ws(c: char) -> bool {
    let u = c as u32;
    ||| (0x09 <= u && u <= 0x0d)
    ||| u == 0x20
    ||| u == 0x85
    ||| u == 0xa0
    ||| u == 0x1680
    ||| (0x2000 <= u && u <= 0x200a)
    ||| u == 0x2028
    ||| u == 0x2029
    ||| u == 0x202f
    ||| u == 0x205f
    ||| u == 0x3000
}

/// Whether `c` is whitespace in the sense of `is_ws`.
pub fn is_whitespace(c: char) -> (b: bool)
    ensures
        b == is_ws(c),
{
    let u = c as u32;
    (0x09 <= u && u <= 0x0d) || u == 0x20 || u == 0x85 || u == 0xa0 || u == 0x1680 || (0x2000
        <= u && u <= 0x200a) || u == 0x2028 || u == 0x2029 || u == 0x202f || u == 0x205f || u
        == 0x3000
}

pub open spec fn is_digit(c: char) -> bool {
    '0' <= c && c <= '9'
}

pub open spec fn digit_val(c: char) -> nat {
    (c as u32 - '0' as u32) as nat
}

pub open spec fn is_hex_digit(c: char) -> bool {
    ||| ('0' <= c && c <= '9')
    ||| ('a' <= c && c <= 'f')
    ||| ('A' <= c && c <= 'F')
}

pub open spec fn hex_val(c: char) -> nat {
    if '0' <= c && c <= '9' {
        (c as u32 - '0' as u32) as nat
    } else if 'a' <= c && c <= 'f' {
        (c as u32 - 'a' as u32 + 10) as nat
    } else {
        (c as u32 - 'A' as u32 + 10) as nat
    }
}

// ---------------------------------------------------------------------------
// Conversions between strings and character vectors
// ---------------------------------------------------------------------------
/// The characters of `s`, in order.
pub fn chars_of(s: &str) -> (v: Vec<char>)
    ensures
        v@ == s@,
{
    let mut v: Vec<char> = Vec::new();
    for c in it: s.chars()
        invariant
            v@ == it.seq().take(it.index() as int),
    {
        v.push(c);
    }
    v
}

/// Appends one character to a `String` (`String::push`).
#[verifier::external_body]
pub(crate) fn push_char(s: &mut String, c: char)
    ensures
        final(s)@ == old(s)@.push(c),
{
    s.push(c);
}

/// A `String` holding the characters of `v`.
pub fn string_of(v: &[char]) -> (s: String)
    ensures
        s@ == v@,
{
    let mut s = String::new();
    let mut i: usize = 0;
    while i < v.len()
        invariant
            i <= v@.len(),
            s@ == v@.take(i as int),
        decreases v@.len() - i,
    {
        push_char(&mut s, v[i]);
        assert(v@.take(i as int).push(v@[i as int]) =~= v@.take(i + 1));
        i += 1;
    }
    assert(v@.take(v@.len() as int) =~= v@);
    s
}

/// A `String` holding the characters of the string slice `t`.
pub fn string_from(t: &str) -> (s: String)
    ensures
        s@ == t@,
{
    let v = chars_of(t);
    string_of(&v)
}

// ---------------------------------------------------------------------------
// Trimming
// ---------------------------------------------------------------------------
/// `s` without its leading whitespace.
pub open spec fn trim_start(s: Seq<char>) -> Seq<char>
    decreases s.len(),
{
    if s.len() > 0 && is_ws(s[0]) {
        trim_start(s.drop_first())
    } else {
        s
    }
}

/// `s` without its trailing whitespace.
pub open spec fn trim_end(s: Seq<char>) -> Seq<char>
    decreases s.len(),
{
    if s.len() > 0 && is_ws(s.last()) {
        trim_end(s.drop_last())
    } else {
        s
    }
}

/// `s` without leading and trailing whitespace (`str::trim`).
pub open spec fn trim(s: Seq<char>) -> Seq<char> {
    trim_end(trim_start(s))
}

/// The trimmed part of `s`, as `str::trim` gives it.
pub fn trim_chars(s: &[char]) -> (r: Vec<char>)
    ensures
        r@ == trim(s@),
{
    let n = s.len();
    let mut i: usize = 0;
    assert(s@.subrange(0, n as int) =~= s@);
    while i < n && is_whitespace(s[i])
        invariant
            i <= n == s@.len(),
            trim_start(s@) == trim_start(s@.subrange(i as int, n as int)),
        decreases n - i,
    {
        assert(s@.subrange(i as int, n as int).drop_first() =~= s@.subrange(i + 1, n as int));
        i += 1;
    }
    let ghost t = s@.subrange(i as int, n as int);
    assert(trim_start(t) == t);
    let mut j: usize = n;
    while j > i && is_whitespace(s[j - 1])
        invariant
            i <= j <= n == s@.len(),
            trim_end(t) == trim_end(s@.subrange(i as int, j as int)),
        decreases j,
    {
        assert(s@.subrange(i as int, j as int).drop_last() =~= s@.subrange(i as int, j - 1));
        j -= 1;
    }
    let mut r: Vec<char> = Vec::new();
    let mut k: usize = i;
    while k < j
        invariant
            i <= k <= j <= n == s@.len(),
            r@ == s@.subrange(i as int, k as int),
        decreases j - k,
    {
        r.push(s[k]);
        assert(s@.subrange(i as int, k as int).push(s@[k as int]) =~= s@.subrange(
            i as int,
            k + 1,
        ));
        k += 1;
    }
    r
}

// ---------------------------------------------------------------------------
// Splitting on whitespace and on line endings
// ---------------------------------------------------------------------------
/// Left-to-right scan behind `split_whitespace`: the words completed so far
/// and the word being read.
pub open spec fn words_scan(s: Seq<char>) -> (Seq<Seq<char>>, Seq<char>)
    decreases s.len(),
{
    if s.len() == 0 {
        (seq![], seq![])
    } else {
        let (done, cur) = words_scan(s.drop_last());
        if is_ws(s.last()) {
            if cur.len() > 0 {
                (done.push(cur), seq![])
            } else {
                (done, seq![])
            }
        } else {
            (done, cur.push(s.last()))
        }
    }
}

/// The maximal runs of non-whitespace characters of `s`
/// (`str::split_whitespace`).
pub open spec fn words(s: Seq<char>) -> Seq<Seq<char>> {
    let (done, cur) = words_scan(s);
    if cur.len() > 0 {
        done.push(cur)
    } else {
        done
    }
}

/// Splits `s` into its whitespace-separated words.
pub fn split_words(s: &[char]) -> (r: Vec<Vec<char>>)
    ensures
        r@.len() == words(s@).len(),
        forall|k: int| 0 <= k < r@.len() ==> #[trigger] r@[k]@ == words(s@)[k],
{
    let mut done: Vec<Vec<char>> = Vec::new();
    let mut cur: Vec<char> = Vec::new();
    let mut i: usize = 0;
    while i < s.len()
        invariant
            i <= s@.len(),
            done@.len() == words_scan(s@.take(i as int)).0.len(),
            forall|k: int|
                0 <= k < done@.len() ==> #[trigger] done@[k]@ == words_scan(s@.take(i as int)).0[k],
            cur@ == words_scan(s@.take(i as int)).1,
        decreases s@.len() - i,
    {
        assert(s@.take(i + 1).drop_last() =~= s@.take(i as int));
        let c = s[i];
        if is_whitespace(c) {
            if cur.len() > 0 {
                let w = cur;
                done.push(w);
                cur = Vec::new();
            } else {
                cur = Vec::new();
            }
        } else {
            cur.push(c);
        }
        i += 1;
    }
    assert(s@.take(s@.len() as int) =~= s@);
    if cur.len() > 0 {
        done.push(cur);
    }
    done
}

/// The line with a carriage return removed from its end, as `str::lines`
/// removes it before a line feed.
pub open spec fn strip_cr(l: Seq<char>) -> Seq<char> {
    if l.len() > 0 && l.last() == '\r' {
        l.drop_last()
    } else {
        l
    }
}

/// Left-to-right scan behind `lines`: the lines ended by a line feed so far
/// and the characters of the current line.
pub open spec fn lines_scan(s: Seq<char>) -> (Seq<Seq<char>>, Seq<char>)
    decreases s.len(),
{
    if s.len() == 0 {
        (seq![], seq![])
    } else {
        let (done, cur) = lines_scan(s.drop_last());
        if s.last() == '\n' {
            (done.push(strip_cr(cur)), seq![])
        } else {
            (done, cur.push(s.last()))
        }
    }
}

/// The lines of `s` (`str::lines`): split at line feeds, a carriage return
/// before a line feed dropped, and no empty line after a final line feed.
pub open spec fn lines(s: Seq<char>) -> Seq<Seq<char>> {
    let (done, cur) = lines_scan(s);
    if cur.len() > 0 {
        done.push(cur)
    } else {
        done
    }
}

/// Splits `s` into its lines.
pub fn split_lines(s: &[char]) -> (r: Vec<Vec<char>>)
    ensures
        r@.len() == lines(s@).len(),
        forall|k: int| 0 <= k < r@.len() ==> #[trigger] r@[k]@ == lines(s@)[k],
{
    let mut done: Vec<Vec<char>> = Vec::new();
    let mut cur: Vec<char> = Vec::new();
    let mut i: usize = 0;
    while i < s.len()
        invariant
            i <= s@.len(),
            done@.len() == lines_scan(s@.take(i as int)).0.len(),
            forall|k: int|
                0 <= k < done@.len() ==> #[trigger] done@[k]@ == lines_scan(s@.take(i as int)).0[k],
            cur@ == lines_scan(s@.take(i as int)).1,
        decreases s@.len() - i,
    {
        assert(s@.take(i + 1).drop_last() =~= s@.take(i as int));
        let c = s[i];
        if c == '\n' {
            let n = cur.len();
            if n > 0 && cur[n - 1] == '\r' {
                cur.pop();
            }
            let w = cur;
            done.push(w);
            cur = Vec::new();
        } else {
            cur.push(c);
        }
        i += 1;
    }
    assert(s@.take(s@.len() as int) =~= s@);
    if cur.len() > 0 {
        done.push(cur);
    }
    done
}

// ---------------------------------------------------------------------------
// Searching
// ---------------------------------------------------------------------------
/// `p` occurs in `s` at position `i`.
pub open spec fn occurs_at(s: Seq<char>, p: Seq<char>, i: int) -> bool {
    0 <= i && i + p.len() <= s.len() && s.subrange(i, i + p.len()) == p
}

/// `p` occurs somewhere in `s` (`str::contains`).
pub open spec fn contains(s: Seq<char>, p: Seq<char>) -> bool {
    exists|i: int| occurs_at(s, p, i)
}

/// The first position, from `i` on, at which `p` occurs in `s`.
pub open spec fn find_from(s: Seq<char>, p: Seq<char>, i: int) -> Option<int>
    decreases s.len() + 1 - i,
{
    if i < 0 || i + p.len() > s.len() {
        None
    } else if occurs_at(s, p, i) {
        Some(i)
    } else {
        find_from(s, p, i + 1)
    }
}

/// The first position at which `p` occurs in `s` (`str::find`).
pub open spec fn find(s: Seq<char>, p: Seq<char>) -> Option<int> {
    find_from(s, p, 0)
}

/// The last position at which `p` occurs in `s` (`str::rfind`).
pub open spec fn rfind(s: Seq<char>, p: Seq<char>) -> Option<int>
    decreases s.len(),
{
    if s.len() < p.len() {
        None
    } else if occurs_at(s, p, s.len() - p.len()) {
        Some(s.len() - p.len())
    } else if s.len() == 0 {
        None
    } else {
        rfind(s.drop_last(), p)
    }
}

pub open spec fn starts_with(s: Seq<char>, p: Seq<char>) -> bool {
    p.len() <= s.len() && s.take(p.len() as int) == p
}

pub open spec fn ends_with(s: Seq<char>, p: Seq<char>) -> bool {
    p.len() <= s.len() && s.subrange(s.len() - p.len(), s.len() as int) == p
}

proof fn lemma_find_from(s: Seq<char>, p: Seq<char>, i: int)
    requires
        0 <= i,
    ensures
        find_from(s, p, i) matches Some(k) ==> i <= k && occurs_at(s, p, k) && forall|j: int|
            i <= j < k ==> !occurs_at(s, p, j),
        find_from(s, p, i) is None ==> forall|j: int| i <= j ==> !occurs_at(s, p, j),
    decreases s.len() + 1 - i,
{
    if i + p.len() > s.len() {
    } else if occurs_at(s, p, i) {
    } else {
        lemma_find_from(s, p, i + 1);
    }
}

/// Facts about `find`: it gives the first occurrence, and there is one
/// exactly when `contains` holds.
pub proof fn lemma_find(s: Seq<char>, p: Seq<char>)
    ensures
        find(s, p) matches Some(k) ==> occurs_at(s, p, k) && forall|j: int|
            0 <= j < k ==> !occurs_at(s, p, j),
        find(s, p) is Some <==> contains(s, p),
{
    lemma_find_from(s, p, 0);
    if find(s, p) is None {
        assert forall|j: int| !occurs_at(s, p, j) by {
            if 0 <= j {
            }
        }
    }
}

/// Whether `p` occurs in `s` at position `i`.
pub fn occurs_at_exec(s: &[char], p: &[char], i: usize) -> (b: bool)
    ensures
        b == occurs_at(s@, p@, i as int),
{
    if i > s.len() || p.len() > s.len() - i {
        return false;
    }
    let mut k: usize = 0;
    while k < p.len()
        invariant
            i + p@.len() <= s@.len(),
            i + p.len() <= s.len(),
            k <= p@.len(),
            forall|m: int| 0 <= m < k ==> s@[i + m] == p@[m],
        decreases p@.len() - k,
    {
        if s[i + k] != p[k] {
            assert(s@.subrange(i as int, i + p@.len())[k as int] != p@[k as int]);
            return false;
        }
        k += 1;
    }
    assert(s@.subrange(i as int, i + p@.len()) =~= p@);
    true
}

/// The first position of `p` in `s`, if any.
pub fn find_exec(s: &[char], p: &[char]) -> (r: Option<usize>)
    ensures
        r matches Some(k) ==> find(s@, p@) == Some(k as int),
        r is None ==> find(s@, p@) is None,
{
    if p.len() > s.len() {
        return None;
    }
    let last = s.len() - p.len();
    let mut i: usize = 0;
    while i <= last
        invariant
            last + p@.len() == s@.len(),
            i <= last + 1,
            find(s@, p@) == find_from(s@, p@, i as int),
        decreases last + 1 - i,
    {
        if occurs_at_exec(s, p, i) {
            return Some(i);
        }
        if i == last {
            assert(find_from(s@, p@, i + 1) is None);
            return None;
        }
        i += 1;
    }
    None
}

/// Whether `p` occurs in `s`.
pub fn contains_exec(s: &[char], p: &[char]) -> (b: bool)
    ensures
        b == contains(s@, p@),
{
    proof {
        lemma_find(s@, p@);
    }
    find_exec(s, p).is_some()
}

/// Whether `s` begins with `p`.
pub fn starts_with_exec(s: &[char], p: &[char]) -> (b: bool)
    ensures
        b == starts_with(s@, p@),
{
    if p.len() > s.len() {
        return false;
    }
    let b = occurs_at_exec(s, p, 0);
    assert(s@.subrange(0, p@.len() as int) =~= s@.take(p@.len() as int));
    b
}

/// Whether `s` ends with `p`.
pub fn ends_with_exec(s: &[char], p: &[char]) -> (b: bool)
    ensures
        b == ends_with(s@, p@),
{
    if p.len() > s.len() {
        return false;
    }
    occurs_at_exec(s, p, s.len() - p.len())
}

/// The first position of the character `c` in `s`.
pub fn find_char(s: &[char], c: char) -> (r: Option<usize>)
    ensures
        r matches Some(k) ==> find(s@, seq![c]) == Some(k as int) && k < s@.len() && s@[k as int]
            == c,
        r is None ==> find(s@, seq![c]) is None,
{
    let p = vec![c];
    assert(p@ =~= seq![c]);
    let r = find_exec(s, &p);
    proof {
        lemma_find(s@, seq![c]);
        if let Some(k) = r {
            assert(s@.subrange(k as int, k + 1)[0] == c);
        }
    }
    r
}

/// The last position of the character `c` in `s`.
pub fn rfind_char(s: &[char], c: char) -> (r: Option<usize>)
    ensures
        r matches Some(k) ==> rfind(s@, seq![c]) == Some(k as int) && k < s@.len() && s@[k as int]
            == c,
        r is None ==> rfind(s@, seq![c]) is None,
{
    let mut n: usize = s.len();
    assert(s@.take(n as int) =~= s@);
    while n > 0
        invariant
            n <= s@.len(),
            rfind(s@, seq![c]) == rfind(s@.take(n as int), seq![c]),
        decreases n,
    {
        let ghost t = s@.take(n as int);
        if s[n - 1] == c {
            assert(t.subrange(t.len() - 1, t.len() as int) =~= seq![c]);
            return Some(n - 1);
        }
        assert(t.subrange(t.len() - 1, t.len() as int)[0] != c);
        assert(t.drop_last() =~= s@.take(n - 1));
        n -= 1;
    }
    None
}

/// A last occurrence lies within the text.
pub proof fn lemma_rfind_bound(s: Seq<char>, p: Seq<char>)
    ensures
        rfind(s, p) matches Some(k) ==> 0 <= k && k + p.len() <= s.len(),
    decreases s.len(),
{
    if s.len() >= p.len() && !occurs_at(s, p, s.len() - p.len()) && s.len() > 0 {
        lemma_rfind_bound(s.drop_last(), p);
    }
}

/// The last position of `p` in `s`.
pub fn rfind_exec(s: &[char], p: &[char]) -> (r: Option<usize>)
    ensures
        r matches Some(k) ==> rfind(s@, p@) == Some(k as int),
        r is None ==> rfind(s@, p@) is None,
{
    let mut n: usize = s.len();
    assert(s@.take(n as int) =~= s@);
    while n >= p.len()
        invariant
            n <= s@.len(),
            rfind(s@, p@) == rfind(s@.take(n as int), p@),
        decreases n,
    {
        let ghost t = s@.take(n as int);
        let at = n - p.len();
        let hit = occurs_at_exec(s, p, at);
        assert(hit == occurs_at(t, p@, t.len() - p@.len())) by {
            assert(s@.subrange(at as int, at + p@.len()) =~= t.subrange(at as int, at + p@.len()));
        }
        if hit {
            return Some(at);
        }
        if n == 0 {
            return None;
        }
        assert(t.drop_last() =~= s@.take(n - 1));
        n -= 1;
    }
    None
}

// ---------------------------------------------------------------------------
// Equality of character sequences
// ---------------------------------------------------------------------------
/// Whether two character sequences are equal.
pub fn chars_eq(a: &[char], b: &[char]) -> (r: bool)
    ensures
        r == (a@ == b@),
{
    if a.len() != b.len() {
        return false;
    }
    let mut i: usize = 0;
    while i < a.len()
        invariant
            a@.len() == b@.len(),
            i <= a@.len(),
            forall|k: int| 0 <= k < i ==> a@[k] == b@[k],
        decreases a@.len() - i,
    {
        if a[i] != b[i] {
            return false;
        }
        i += 1;
    }
    assert(a@ =~= b@);
    true
}

/// Whether the characters of `a` spell the string slice `b`.
pub fn chars_eq_str(a: &[char], b: &str) -> (r: bool)
    ensures
        r == (a@ == b@),
{
    let bv = chars_of(b);
    chars_eq(a, &bv)
}

// ---------------------------------------------------------------------------
// Numbers
// ---------------------------------------------------------------------------
/// The value of a sequence of decimal digits.
pub open spec fn dec_value(d: Seq<char>) -> nat
    decreases d.len(),
{
    if d.len() == 0 {
        0
    } else {
        dec_value(d.drop_last()) * 10 + digit_val(d.last())
    }
}

/// The value of a sequence of hexadecimal digits.
pub open spec fn hex_value(d: Seq<char>) -> nat
    decreases d.len(),
{
    if d.len() == 0 {
        0
    } else {
        hex_value(d.drop_last()) * 16 + hex_val(d.last())
    }
}

/// The digits after an optional leading `+`, as the integer parsers of std
/// read them.
pub open spec fn unsigned_digits(s: Seq<char>) -> Seq<char> {
    if s.len() > 0 && s[0] == '+' {
        s.drop_first()
    } else {
        s
    }
}

/// What `str::parse::<u64>` gives: `Some` exactly for an optional `+`
/// followed by one or more decimal digits whose value fits in a `u64`.
pub open spec fn parse_u64(s: Seq<char>) -> Option<u64> {
    let d = unsigned_digits(s);
    if d.len() > 0 && (forall|i: int| 0 <= i < d.len() ==> is_digit(#[trigger] d[i])) && dec_value(
        d,
    ) <= u64::MAX {
        Some(dec_value(d) as u64)
    } else {
        None
    }
}

/// What `u32::from_str_radix(s, 16)` gives.
pub open spec fn parse_hex_u32(s: Seq<char>) -> Option<u32> {
    let d = unsigned_digits(s);
    if d.len() > 0 && (forall|i: int| 0 <= i < d.len() ==> is_hex_digit(#[trigger] d[i]))
        && hex_value(d) <= u32::MAX {
        Some(hex_value(d) as u32)
    } else {
        None
    }
}

proof fn lemma_dec_value_mono(d: Seq<char>, i: int)
    requires
        0 <= i <= d.len(),
        forall|k: int| 0 <= k < d.len() ==> is_digit(#[trigger] d[k]),
    ensures
        dec_value(d.take(i)) <= dec_value(d),
    decreases d.len() - i,
{
    if i < d.len() {
        lemma_dec_value_mono(d, i + 1);
        assert(d.take(i + 1).drop_last() =~= d.take(i));
    } else {
        assert(d.take(i) =~= d);
    }
}

proof fn lemma_hex_value_mono(d: Seq<char>, i: int)
    requires
        0 <= i <= d.len(),
        forall|k: int| 0 <= k < d.len() ==> is_hex_digit(#[trigger] d[k]),
    ensures
        hex_value(d.take(i)) <= hex_value(d),
    decreases d.len() - i,
{
    if i < d.len() {
        lemma_hex_value_mono(d, i + 1);
        assert(d.take(i + 1).drop_last() =~= d.take(i));
    } else {
        assert(d.take(i) =~= d);
    }
}

/// Parses a decimal `u64` as `str::parse::<u64>` does.
pub fn parse_u64_exec(s: &[char]) -> (r: Option<u64>)
    ensures
        r == parse_u64(s@),
{
    let start: usize = if s.len() > 0 && s[0] == '+' {
        1
    } else {
        0
    };
    let ghost d = unsigned_digits(s@);
    assert(d =~= s@.subrange(start as int, s@.len() as int));
    if start >= s.len() {
        return None;
    }
    let mut acc: u64 = 0;
    let mut i: usize = start;
    while i < s.len()
        invariant
            start <= i <= s@.len(),
            d =~= s@.subrange(start as int, s@.len() as int),
            d == unsigned_digits(s@),
            forall|k: int| 0 <= k < i - start ==> is_digit(#[trigger] d[k]),
            acc as nat == dec_value(d.take(i - start)),
        decreases s@.len() - i,
    {
        let c = s[i];
        if !('0' <= c && c <= '9') {
            assert(!is_digit(d[i - start]));
            return None;
        }
        let v = (c as u32 - '0' as u32) as u64;
        assert(d.take(i + 1 - start).drop_last() =~= d.take(i - start));
        if acc > (u64::MAX - v) / 10 {
            proof {
                assert(acc * 10 + v > u64::MAX) by (nonlinear_arith)
                    requires
                        acc > (u64::MAX - v) / 10,
                        v <= 9,
                ;
                if forall|k: int| 0 <= k < d.len() ==> is_digit(#[trigger] d[k]) {
                    lemma_dec_value_mono(d, i + 1 - start);
                }
            }
            return None;
        }
        assert(acc * 10 + v <= u64::MAX) by (nonlinear_arith)
            requires
                acc <= (u64::MAX - v) / 10,
                v <= 9,
        ;
        acc = acc * 10 + v;
        i += 1;
    }
    assert(d.take(d.len() as int) =~= d);
    Some(acc)
}

/// Parses a hexadecimal `u32` as `u32::from_str_radix(_, 16)` does.
pub fn parse_hex_u32_exec(s: &[char]) -> (r: Option<u32>)
    ensures
        r == parse_hex_u32(s@),
{
    let start: usize = if s.len() > 0 && s[0] == '+' {
        1
    } else {
        0
    };
    let ghost d = unsigned_digits(s@);
    assert(d =~= s@.subrange(start as int, s@.len() as int));
    if start >= s.len() {
        return None;
    }
    let mut acc: u32 = 0;
    let mut i: usize = start;
    while i < s.len()
        invariant
            start <= i <= s@.len(),
            d =~= s@.subrange(start as int, s@.len() as int),
            d == unsigned_digits(s@),
            forall|k: int| 0 <= k < i - start ==> is_hex_digit(#[trigger] d[k]),
            acc as nat == hex_value(d.take(i - start)),
        decreases s@.len() - i,
    {
        let c = s[i];
        let v: u32;
        if '0' <= c && c <= '9' {
            v = c as u32 - '0' as u32;
        } else if 'a' <= c && c <= 'f' {
            v = c as u32 - 'a' as u32 + 10;
        } else if 'A' <= c && c <= 'F' {
            v = c as u32 - 'A' as u32 + 10;
        } else {
            assert(!is_hex_digit(d[i - start]));
            return None;
        }
        assert(v as nat == hex_val(c));
        assert(d.take(i + 1 - start).drop_last() =~= d.take(i - start));
        if acc > (u32::MAX - v) / 16 {
            proof {
                assert(acc * 16 + v > u32::MAX) by (nonlinear_arith)
                    requires
                        acc > (u32::MAX - v) / 16,
                        v <= 15,
                ;
                if forall|k: int| 0 <= k < d.len() ==> is_hex_digit(#[trigger] d[k]) {
                    lemma_hex_value_mono(d, i + 1 - start);
                }
            }
            return None;
        }
        assert(acc * 16 + v <= u32::MAX) by (nonlinear_arith)
            requires
                acc <= (u32::MAX - v) / 16,
                v <= 15,
        ;
        acc = acc * 16 + v;
        i += 1;
    }
    assert(d.take(d.len() as int) =~= d);
    Some(acc)
}

} // verus!

verus! {

// ---------------------------------------------------------------------------
// Case mapping (Unicode tables of std)
// ---------------------------------------------------------------------------
/// What `str::to_lowercase` gives for the characters `s`.
pub uninterp spec fn lowercase(s: Seq<char>) -> Seq<char>;

/// What `char::to_uppercase` yields for `c`, collected into a string.
pub uninterp spec fn uppercase_char(c: char) -> Seq<char>;

/// What `str::to_uppercase` gives for the characters `s`.
pub uninterp spec fn uppercase(s: Seq<char>) -> Seq<char>;

/// `str::to_uppercase`: the result is named by `uppercase`, a function of
/// the argument alone; the Unicode mapping itself is not spelled out.
#[verifier::external_body]
pub(crate) fn to_uppercase_str(s: &str) -> (r: String)
    ensures
        r@ == uppercase(s@),
{
    s.to_uppercase()
}

/// `str::to_lowercase`: the result is named by `lowercase`, a function of
/// the argument alone; the Unicode mapping itself is not spelled out.
#[verifier::external_body]
pub(crate) fn to_lowercase_str(s: &str) -> (r: String)
    ensures
        r@ == lowercase(s@),
{
    s.to_lowercase()
}

/// `char::to_uppercase`, its characters collected into a `String`; the
/// result is named by `uppercase_char`, a function of `c` alone.
#[verifier::external_body]
pub(crate) fn char_to_uppercase(c: char) -> (r: String)
    ensures
        r@ == uppercase_char(c),
{
    c.to_uppercase().collect::<String>()
}

/// The lowercase form of the characters `s`.
pub fn lowercase_chars(s: &[char]) -> (r: Vec<char>)
    ensures
        r@ == lowercase(s@),
{
    let st = string_of(s);
    let l = to_lowercase_str(st.as_str());
    chars_of(l.as_str())
}

} // verus!

verus! {

// ---------------------------------------------------------------------------
// Slices, splitting on a pattern, and character trimming
// ---------------------------------------------------------------------------
/// The characters of `s` from position `from` on.
pub fn skip_chars(s: &[char], from: usize) -> (r: Vec<char>)
    requires
        from <= s@.len(),
    ensures
        r@ == s@.skip(from as int),
{
    let mut r: Vec<char> = Vec::new();
    let mut i: usize = from;
    while i < s.len()
        invariant
            from <= i <= s@.len(),
            r@ == s@.subrange(from as int, i as int),
        decreases s@.len() - i,
    {
        r.push(s[i]);
        assert(s@.subrange(from as int, i as int).push(s@[i as int]) =~= s@.subrange(
            from as int,
            i + 1,
        ));
        i += 1;
    }
    r
}

/// The characters of `s` before position `to`.
pub fn take_chars(s: &[char], to: usize) -> (r: Vec<char>)
    requires
        to <= s@.len(),
    ensures
        r@ == s@.take(to as int),
{
    let mut r: Vec<char> = Vec::new();
    let mut i: usize = 0;
    while i < to
        invariant
            to <= s@.len(),
            i <= to,
            r@ == s@.take(i as int),
        decreases to - i,
    {
        r.push(s[i]);
        assert(s@.take(i as int).push(s@[i as int]) =~= s@.take(i + 1));
        i += 1;
    }
    r
}

/// The characters of `s` between positions `from` and `to`.
pub fn sub_chars(s: &[char], from: usize, to: usize) -> (r: Vec<char>)
    requires
        from <= to <= s@.len(),
    ensures
        r@ == s@.subrange(from as int, to as int),
{
    let mut r: Vec<char> = Vec::new();
    let mut i: usize = from;
    while i < to
        invariant
            from <= i <= to <= s@.len(),
            r@ == s@.subrange(from as int, i as int),
        decreases to - i,
    {
        r.push(s[i]);
        assert(s@.subrange(from as int, i as int).push(s@[i as int]) =~= s@.subrange(
            from as int,
            i + 1,
        ));
        i += 1;
    }
    r
}

/// `a` followed by `b`.
pub fn concat_chars(a: &[char], b: &[char]) -> (r: Vec<char>)
    ensures
        r@ == a@ + b@,
{
    let mut r: Vec<char> = Vec::new();
    let mut i: usize = 0;
    while i < a.len()
        invariant
            i <= a@.len(),
            r@ == a@.take(i as int),
        decreases a@.len() - i,
    {
        r.push(a[i]);
        assert(a@.take(i as int).push(a@[i as int]) =~= a@.take(i + 1));
        i += 1;
    }
    assert(a@.take(a@.len() as int) =~= a@);
    let mut j: usize = 0;
    while j < b.len()
        invariant
            j <= b@.len(),
            r@ == a@ + b@.take(j as int),
        decreases b@.len() - j,
    {
        r.push(b[j]);
        assert((a@ + b@.take(j as int)).push(b@[j as int]) =~= a@ + b@.take(j + 1));
        j += 1;
    }
    assert(b@.take(b@.len() as int) =~= b@);
    r
}

/// The contents of a vector of character vectors.
pub open spec fn char_views(v: Seq<Vec<char>>) -> Seq<Seq<char>> {
    v.map_values(|k: Vec<char>| k@)
}

/// The parts joined with `sep` between each two (`slice::join`).
pub open spec fn join(parts: Seq<Seq<char>>, sep: Seq<char>) -> Seq<char>
    decreases parts.len(),
{
    if parts.len() == 0 {
        Seq::empty()
    } else if parts.len() == 1 {
        parts[0]
    } else {
        join(parts.drop_last(), sep) + sep + parts.last()
    }
}

/// The parts joined with `sep` between each two.
pub fn join_chars(parts: &Vec<Vec<char>>, sep: &[char]) -> (r: Vec<char>)
    ensures
        r@ == join(char_views(parts@), sep@),
{
    let ghost pv = char_views(parts@);
    let mut r: Vec<char> = Vec::new();
    let mut i: usize = 0;
    while i < parts.len()
        invariant
            i <= parts@.len(),
            pv == char_views(parts@),
            r@ == join(pv.take(i as int), sep@),
        decreases parts@.len() - i,
    {
        assert(pv.take(i + 1).drop_last() =~= pv.take(i as int));
        assert(pv.take(i + 1).last() == parts@[i as int]@);
        if i == 0 {
            r = parts[0].clone();
        } else {
            let with_sep = concat_chars(&r, sep);
            r = concat_chars(&with_sep, &parts[i]);
        }
        i += 1;
    }
    assert(pv.take(parts@.len() as int) =~= pv);
    r
}

/// `s` with each occurrence of the non-empty `p`, taken from the left and
/// not overlapping, replaced by `r` (`str::replace`).
pub open spec fn replace_all(s: Seq<char>, p: Seq<char>, r: Seq<char>) -> Seq<char>
    decreases s.len(),
{
    if p.len() == 0 || s.len() < p.len() {
        s
    } else if s.take(p.len() as int) == p {
        r + replace_all(s.skip(p.len() as int), p, r)
    } else {
        seq![s[0]] + replace_all(s.drop_first(), p, r)
    }
}

/// `s` with the occurrences of the non-empty `p` replaced by `r`.
pub fn replace_chars(s: &[char], p: &[char], r: &[char]) -> (out: Vec<char>)
    requires
        p@.len() > 0,
    ensures
        out@ == replace_all(s@, p@, r@),
{
    let mut out: Vec<char> = Vec::new();
    let mut i: usize = 0;
    assert(s@.skip(0) =~= s@);
    while i < s.len()
        invariant
            i <= s@.len(),
            p@.len() > 0,
            out@ + replace_all(s@.skip(i as int), p@, r@) == replace_all(s@, p@, r@),
        decreases s@.len() - i,
    {
        let ghost rest = s@.skip(i as int);
        if s.len() - i >= p.len() && occurs_at_exec(s, p, i) {
            assert(rest.take(p@.len() as int) =~= s@.subrange(i as int, i + p@.len()));
            assert(rest.skip(p@.len() as int) =~= s@.skip(i + p@.len()));
            let ghost before = out@;
            let mut k: usize = 0;
            while k < r.len()
                invariant
                    k <= r@.len(),
                    out@ == before + r@.take(k as int),
                decreases r@.len() - k,
            {
                out.push(r[k]);
                assert(r@.take(k + 1) =~= r@.take(k as int).push(r@[k as int]));
                k += 1;
            }
            assert(r@.take(r@.len() as int) =~= r@);
            assert(out@ + replace_all(s@.skip(i + p@.len()), p@, r@) =~= before + replace_all(
                rest,
                p@,
                r@,
            ));
            i += p.len();
        } else {
            proof {
                if s@.len() - i >= p@.len() {
                    assert(rest.take(p@.len() as int) =~= s@.subrange(i as int, i + p@.len()));
                }
            }
            assert(rest.drop_first() =~= s@.skip(i + 1));
            let ghost before = out@;
            out.push(s[i]);
            assert(out@ + replace_all(s@.skip(i + 1), p@, r@) =~= before + replace_all(
                rest,
                p@,
                r@,
            ));
            i += 1;
        }
    }
    assert(s@.skip(s@.len() as int) =~= Seq::<char>::empty());
    assert(out@ + replace_all(Seq::<char>::empty(), p@, r@) =~= out@);
    out
}

/// The number of bytes of the UTF-8 encoding of `c`.
pub open spec fn utf8_width(c: char) -> nat {
    if (c as u32) < 0x80 {
        1
    } else if (c as u32) < 0x800 {
        2
    } else if (c as u32) < 0x10000 {
        3
    } else {
        4
    }
}

/// The number of bytes of the UTF-8 encoding of `s` (`str::len`).
pub open spec fn utf8_len(s: Seq<char>) -> nat
    decreases s.len(),
{
    if s.len() == 0 {
        0
    } else {
        utf8_len(s.drop_last()) + utf8_width(s.last())
    }
}

/// Whether the UTF-8 encoding of `s` has fewer than `n` bytes.
pub fn utf8_shorter_than(s: &[char], n: u64) -> (b: bool)
    ensures
        b == (utf8_len(s@) < n),
{
    if n == 0 {
        return false;
    }
    let mut total: u64 = 0;
    let mut i: usize = 0;
    assert(s@.take(0) =~= Seq::<char>::empty());
    while i < s.len()
        invariant
            i <= s@.len(),
            total as nat == utf8_len(s@.take(i as int)),
            total < n,
        decreases s@.len() - i,
    {
        let c = s[i];
        let w: u64 = if (c as u32) < 0x80 {
            1
        } else if (c as u32) < 0x800 {
            2
        } else if (c as u32) < 0x10000 {
            3
        } else {
            4
        };
        assert(s@.take(i + 1).drop_last() =~= s@.take(i as int));
        if w >= n - total {
            proof {
                lemma_utf8_len_mono(s@, i + 1);
            }
            return false;
        }
        total = total + w;
        i += 1;
    }
    assert(s@.take(s@.len() as int) =~= s@);
    true
}

proof fn lemma_utf8_len_mono(s: Seq<char>, i: int)
    requires
        0 <= i <= s.len(),
    ensures
        utf8_len(s.take(i)) <= utf8_len(s),
    decreases s.len() - i,
{
    if i < s.len() {
        lemma_utf8_len_mono(s, i + 1);
        assert(s.take(i + 1).drop_last() =~= s.take(i));
    } else {
        assert(s.take(i) =~= s);
    }
}

/// The pieces of `s` between the occurrences of `p` (`str::split` with a
/// non-empty string pattern).
pub open spec fn split_on(s: Seq<char>, p: Seq<char>) -> Seq<Seq<char>>
    decreases s.len(),
{
    if p.len() == 0 {
        seq![s]
    } else {
        match find(s, p) {
            Some(i) => if 0 <= i && i + p.len() <= s.len() {
                seq![s.take(i)] + split_on(s.skip(i + p.len()), p)
            } else {
                seq![s]
            },
            None => seq![s],
        }
    }
}

/// Splits `s` at the occurrences of the non-empty pattern `p`.
pub fn split_on_exec(s: &[char], p: &[char]) -> (r: Vec<Vec<char>>)
    requires
        p@.len() > 0,
    ensures
        r@.len() == split_on(s@, p@).len(),
        forall|k: int| 0 <= k < r@.len() ==> #[trigger] r@[k]@ == split_on(s@, p@)[k],
{
    let mut out: Vec<Vec<char>> = Vec::new();
    let mut rest: Vec<char> = skip_chars(s, 0);
    assert(s@.skip(0) =~= s@);
    let ghost outv: Seq<Seq<char>> = Seq::empty();
    loop
        invariant
            p@.len() > 0,
            outv.len() == out@.len(),
            forall|k: int| 0 <= k < out@.len() ==> #[trigger] out@[k]@ == outv[k],
            outv + split_on(rest@, p@) == split_on(s@, p@),
        decreases rest@.len(),
    {
        match find_exec(&rest, p) {
            Some(i) => {
                proof {
                    lemma_find(rest@, p@);
                    assert(occurs_at(rest@, p@, i as int));
                    assert(i + p@.len() <= rest@.len());
                }
                let piece = take_chars(&rest, i);
                let rl = rest.len();
                assert(i + p.len() <= rl);
                let next = skip_chars(&rest, i + p.len());
                proof {
                    assert(split_on(rest@, p@) == seq![rest@.take(i as int)] + split_on(next@, p@));
                    assert(outv.push(piece@) + split_on(next@, p@) =~= outv + split_on(rest@, p@));
                    outv = outv.push(piece@);
                }
                out.push(piece);
                rest = next;
            },
            None => {
                proof {
                    assert(split_on(rest@, p@) == seq![rest@]);
                    assert(outv.push(rest@) =~= outv + split_on(rest@, p@));
                }
                out.push(rest);
                return out;
            },
        }
    }
    out
}

/// `s` without the leading and trailing characters equal to `c`
/// (`str::trim_matches` with a character).
pub open spec fn strip_char(s: Seq<char>, c: char) -> Seq<char> {
    strip_char_end(strip_char_start(s, c), c)
}

pub open spec fn strip_char_start(s: Seq<char>, c: char) -> Seq<char>
    decreases s.len(),
{
    if s.len() > 0 && s[0] == c {
        strip_char_start(s.drop_first(), c)
    } else {
        s
    }
}

pub open spec fn strip_char_end(s: Seq<char>, c: char) -> Seq<char>
    decreases s.len(),
{
    if s.len() > 0 && s.last() == c {
        strip_char_end(s.drop_last(), c)
    } else {
        s
    }
}

/// Removes the leading and trailing characters equal to `c`.
pub fn strip_char_exec(s: &[char], c: char) -> (r: Vec<char>)
    ensures
        r@ == strip_char(s@, c),
{
    let n = s.len();
    let mut i: usize = 0;
    assert(s@.subrange(0, n as int) =~= s@);
    while i < n && s[i] == c
        invariant
            i <= n == s@.len(),
            strip_char_start(s@, c) == strip_char_start(s@.subrange(i as int, n as int), c),
        decreases n - i,
    {
        assert(s@.subrange(i as int, n as int).drop_first() =~= s@.subrange(i + 1, n as int));
        i += 1;
    }
    let ghost t = s@.subrange(i as int, n as int);
    let mut j: usize = n;
    while j > i && s[j - 1] == c
        invariant
            i <= j <= n == s@.len(),
            t == s@.subrange(i as int, n as int),
            strip_char_end(t, c) == strip_char_end(s@.subrange(i as int, j as int), c),
        decreases j,
    {
        assert(s@.subrange(i as int, j as int).drop_last() =~= s@.subrange(i as int, j - 1));
        j -= 1;
    }
    sub_chars(s, i, j)
}

/// `s` without trailing characters equal to `c` (`str::trim_end_matches`).
pub fn strip_char_end_exec(s: &[char], c: char) -> (r: Vec<char>)
    ensures
        r@ == strip_char_end(s@, c),
{
    let n = s.len();
    let mut j: usize = n;
    assert(s@.subrange(0, n as int) =~= s@);
    while j > 0 && s[j - 1] == c
        invariant
            j <= n == s@.len(),
            strip_char_end(s@, c) == strip_char_end(s@.subrange(0, j as int), c),
        decreases j,
    {
        assert(s@.subrange(0, j as int).drop_last() =~= s@.subrange(0, j - 1));
        j -= 1;
    }
    sub_chars(s, 0, j)
}

/// `s` without leading characters equal to `c` (`str::trim_start_matches`).
pub fn strip_char_start_exec(s: &[char], c: char) -> (r: Vec<char>)
    ensures
        r@ == strip_char_start(s@, c),
{
    let n = s.len();
    let mut i: usize = 0;
    assert(s@.subrange(0, n as int) =~= s@);
    while i < n && s[i] == c
        invariant
            i <= n == s@.len(),
            strip_char_start(s@, c) == strip_char_start(s@.subrange(i as int, n as int), c),
        decreases n - i,
    {
        assert(s@.subrange(i as int, n as int).drop_first() =~= s@.subrange(i + 1, n as int));
        i += 1;
    }
    sub_chars(s, i, n)
}

} // verus!

verus! {

// ---------------------------------------------------------------------------
// Paths
// ---------------------------------------------------------------------------
/// The components of a path written with `/`: empty and `.` parts are
/// skipped, as `Path::components` skips them.
pub open spec fn path_parts(p: Seq<char>) -> Seq<Seq<char>> {
    split_on(p, "/"@).filter(|c: Seq<char>| c.len() > 0 && c != "."@)
}

/// The last component of a path, unless it is `..` or there is none
/// (`Path::file_name`).
pub open spec fn file_name(p: Seq<char>) -> Option<Seq<char>> {
    let parts = path_parts(p);
    if parts.len() == 0 || parts.last() == ".."@ {
        None
    } else {
        Some(parts.last())
    }
}

/// The last component of a path (see `file_name`).
pub fn file_name_exec(p: &[char]) -> (r: Option<Vec<char>>)
    ensures
        r matches Some(v) ==> file_name(p@) == Some(v@),
        r is None ==> file_name(p@) is None,
{
    let slash = chars_of("/");
    proof {
        reveal_strlit("/");
    }
    assert(slash@.len() == 1);
    let pieces = split_on_exec(p, &slash);
    let ghost all = split_on(p@, "/"@);
    let ghost pred = |c: Seq<char>| c.len() > 0 && c != "."@;
    let mut last: Option<Vec<char>> = None;
    let mut i: usize = 0;
    while i < pieces.len()
        invariant
            pieces@.len() == all.len(),
            all == split_on(p@, "/"@),
            pred == (|c: Seq<char>| c.len() > 0 && c != "."@),
            forall|k: int| 0 <= k < pieces@.len() ==> #[trigger] pieces@[k]@ == all[k],
            i <= pieces@.len(),
            last is None ==> all.take(i as int).filter(pred).len() == 0,
            last matches Some(v) ==> all.take(i as int).filter(pred).len() > 0 && all.take(
                i as int,
            ).filter(pred).last() == v@,
        decreases pieces@.len() - i,
    {
        proof {
            reveal(Seq::filter);
            assert(all.take(i + 1).drop_last() =~= all.take(i as int));
        }
        let c = &pieces[i];
        if c.len() > 0 && !chars_eq_str(c, ".") {
            last = Some(c.clone());
        }
        i += 1;
    }
    assert(all.take(all.len() as int) =~= all);
    match last {
        None => None,
        Some(v) => {
            if chars_eq_str(&v, "..") {
                None
            } else {
                Some(v)
            }
        },
    }
}

} // verus!

verus! {

// ---------------------------------------------------------------------------
// Decimal numerals
// ---------------------------------------------------------------------------
pub open spec fn digit_char(d: nat) -> char
    recommends
        d < 10,
{
    if d == 0 {
        '0'
    } else if d == 1 {
        '1'
    } else if d == 2 {
        '2'
    } else if d == 3 {
        '3'
    } else if d == 4 {
        '4'
    } else if d == 5 {
        '5'
    } else if d == 6 {
        '6'
    } else if d == 7 {
        '7'
    } else if d == 8 {
        '8'
    } else {
        '9'
    }
}

/// The decimal numeral of `n`, as `Display` writes an integer.
pub open spec fn dec_str(n: nat) -> Seq<char>
    decreases n,
{
    if n < 10 {
        seq![digit_char(n)]
    } else {
        dec_str(n / 10).push(digit_char(n % 10))
    }
}

proof fn lemma_digit_char_val(d: nat)
    requires
        d < 10,
    ensures
        is_digit(digit_char(d)),
        digit_val(digit_char(d)) == d,
{
}

/// A decimal numeral is made of digits, and reads back as its number.
pub proof fn lemma_dec_str_value(n: nat)
    ensures
        dec_str(n).len() > 0,
        forall|i: int| 0 <= i < dec_str(n).len() ==> is_digit(#[trigger] dec_str(n)[i]),
        dec_value(dec_str(n)) == n,
    decreases n,
{
    lemma_digit_char_val(n % 10);
    if n < 10 {
        assert(n % 10 == n);
        assert(dec_str(n).drop_last() =~= Seq::<char>::empty());
        assert(dec_str(n).last() == digit_char(n));
        assert(dec_value(dec_str(n)) == dec_value(Seq::<char>::empty()) * 10 + digit_val(
            digit_char(n),
        ));
    } else {
        lemma_dec_str_value(n / 10);
        let d = dec_str(n / 10);
        let s = dec_str(n);
        assert(s == d.push(digit_char(n % 10)));
        assert(s.drop_last() =~= d);
        assert(n == (n / 10) * 10 + n % 10);
        assert(s.last() == digit_char(n % 10));
        assert(dec_value(s) == dec_value(d) * 10 + digit_val(digit_char(n % 10)));
        assert forall|i: int| 0 <= i < s.len() implies is_digit(#[trigger] s[i]) by {
            if i < d.len() {
                assert(s[i] == d[i]);
            }
        }
    }
}

fn digit_char_exec(d: u64) -> (c: char)
    requires
        d < 10,
    ensures
        c == digit_char(d as nat),
{
    if d == 0 {
        '0'
    } else if d == 1 {
        '1'
    } else if d == 2 {
        '2'
    } else if d == 3 {
        '3'
    } else if d == 4 {
        '4'
    } else if d == 5 {
        '5'
    } else if d == 6 {
        '6'
    } else if d == 7 {
        '7'
    } else if d == 8 {
        '8'
    } else {
        '9'
    }
}

/// The decimal numeral of `n`.
pub fn dec_chars(n: u64) -> (r: Vec<char>)
    ensures
        r@ == dec_str(n as nat),
    decreases n,
{
    if n < 10 {
        let mut r: Vec<char> = Vec::new();
        r.push(digit_char_exec(n));
        assert(r@ =~= seq![digit_char(n as nat)]);
        r
    } else {
        let mut r = dec_chars(n / 10);
        r.push(digit_char_exec(n % 10));
        r
    }
}

} // verus!
