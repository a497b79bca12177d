//! Disk usage from the output of `df`: partitions are grouped by the
//! drive they belong to, their sizes summed, and the drives listed in name
//! order.
use vstd::prelude::*;

use crate::order::{is_permutation, lex_lt, stable_order_by_chars, stably_sorted_by_chars};
use crate::text::{
    chars_eq, chars_of, lines, parse_u64, parse_u64_exec, rfind, rfind_char, split_lines,
    split_words, starts_with, starts_with_exec, string_of, take_chars, words,
};

verus! {

// ---------------------------------------------------------------------------
// Drives of partitions
// ---------------------------------------------------------------------------
/// The drive a partition device belongs to: `/dev/sdXN` belongs to
/// `/dev/sdX`, `/dev/nvmeXnYpZ` to `/dev/nvmeXnY`; other devices stand for
/// themselves.
pub open spec fn parent_drive(fs: Seq<char>) -> Seq<char> {
    if starts_with(fs, "/dev/sd"@) {
        if fs.len() >= 8 {
            fs.take(8)
        } else {
            fs
        }
    } else if starts_with(fs, "/dev/nvme"@) {
        match rfind(fs, seq!['p']) {
            Some(j) => if j > 9 {
                fs.take(j)
            } else {
                fs
            },
            None => fs,
        }
    } else {
        fs
    }
}

/// The `/dev/sd` names whose drive part would be cut inside a character:
/// the name is cut after its eighth byte, and the eighth character is not
/// a single byte.
pub open spec fn cut_inside_char(fs: Seq<char>) -> bool {
    starts_with(fs, "/dev/sd"@) && fs.len() >= 8 && fs[7] as u32 >= 0x80
}

/// The drive a partition device belongs to (see `parent_drive`).
pub fn get_parent_drive(filesystem: &str) -> (r: String)
    requires
        !cut_inside_char(filesystem@),
    ensures
        r@ == parent_drive(filesystem@),
{
    let fs = chars_of(filesystem);
    let r = parent_drive_chars(&fs);
    string_of(&r)
}

fn parent_drive_chars(fs: &Vec<char>) -> (r: Vec<char>)
    ensures
        r@ == parent_drive(fs@),
{
    let sd = chars_of("/dev/sd");
    let nvme = chars_of("/dev/nvme");
    if starts_with_exec(fs, &sd) {
        if fs.len() >= 8 {
            return take_chars(fs, 8);
        }
    } else if starts_with_exec(fs, &nvme) {
        if let Some(j) = rfind_char(fs, 'p') {
            if j > 9 {
                return take_chars(fs, j);
            }
        }
    }
    fs.clone()
}

// ---------------------------------------------------------------------------
// Rows of the report
// ---------------------------------------------------------------------------
/// A partition row of the report: device, size, used and available space
/// (in KiB; a field that is no number counts as 0).
pub struct DfRow {
    pub fs: Seq<char>,
    pub total: nat,
    pub used: nat,
    pub avail: nat,
}

/// A number field of the report: its value, or 0 where it is no number.
pub open spec fn field_value(w: Seq<char>) -> nat {
    match parse_u64(w) {
        Some(v) => v as nat,
        None => 0,
    }
}

/// The partition row that a line of the report describes: lines of six or
/// more fields whose first field names a device under `/dev/`.
pub open spec fn df_row(line: Seq<char>) -> Option<DfRow> {
    let ws = words(line);
    if ws.len() >= 6 && starts_with(ws[0], "/dev/"@) {
        Some(
            DfRow {
                fs: ws[0],
                total: field_value(ws[1]),
                used: field_value(ws[2]),
                avail: field_value(ws[3]),
            },
        )
    } else {
        None
    }
}

/// `rows` has a row for device `fs`.
pub open spec fn has_fs(rows: Seq<DfRow>, fs: Seq<char>) -> bool {
    exists|i: int| 0 <= i < rows.len() && #[trigger] rows[i].fs == fs
}

/// The partition rows of `ls`, a device counted at its first row only.
pub open spec fn rows_of(ls: Seq<Seq<char>>) -> Seq<DfRow>
    decreases ls.len(),
{
    if ls.len() == 0 {
        Seq::empty()
    } else {
        let prev = rows_of(ls.drop_last());
        match df_row(ls.last()) {
            Some(r) => if has_fs(prev, r.fs) {
                prev
            } else {
                prev.push(r)
            },
            None => prev,
        }
    }
}

/// The lines of a report after its header line.
pub open spec fn body_lines(out: Seq<char>) -> Seq<Seq<char>> {
    let ls = lines(out);
    if ls.len() > 0 {
        ls.drop_first()
    } else {
        ls
    }
}

/// The partition rows of a report.
pub open spec fn df_rows(out: Seq<char>) -> Seq<DfRow> {
    rows_of(body_lines(out))
}

/// Some partition of `rows` belongs to drive `d`.
pub open spec fn has_drive(rows: Seq<DfRow>, d: Seq<char>) -> bool {
    exists|i: int| 0 <= i < rows.len() && parent_drive(#[trigger] rows[i].fs) == d
}

/// The summed size, used and available space of the partitions of `rows`
/// that belong to drive `d`.
pub open spec fn drive_sums(rows: Seq<DfRow>, d: Seq<char>) -> (nat, nat, nat)
    decreases rows.len(),
{
    if rows.len() == 0 {
        (0, 0, 0)
    } else {
        let s = drive_sums(rows.drop_last(), d);
        let r = rows.last();
        if parent_drive(r.fs) == d {
            (s.0 + r.total, s.1 + r.used, s.2 + r.avail)
        } else {
            s
        }
    }
}

/// A row whose drive part would be cut inside a character.
pub open spec fn has_cut_row(rows: Seq<DfRow>) -> bool {
    exists|i: int| 0 <= i < rows.len() && cut_inside_char(#[trigger] rows[i].fs)
}

/// A sum of some drive that exceeds what a `u64` holds.
pub open spec fn has_overflow(rows: Seq<DfRow>) -> bool {
    exists|d: Seq<char>|
        #![trigger drive_sums(rows, d)]
        has_drive(rows, d) && (drive_sums(rows, d).0 > u64::MAX || drive_sums(rows, d).1 > u64::MAX
            || drive_sums(rows, d).2 > u64::MAX)
}

/// The usage of one drive.
#[derive(Debug, Clone)]
pub struct DriveUsage {
    pub drive: String,
    pub total_kb: u64,
    pub used_kb: u64,
    pub avail_kb: u64,
}

/// `list` is the drive list of `rows`: one entry per drive with a size
/// above zero, with the drive's sums, in ascending order of drive name.
pub open spec fn is_drive_list(rows: Seq<DfRow>, list: Seq<DriveUsage>) -> bool {
    &&& forall|k: int, l: int|
        0 <= k < l < list.len() ==> lex_lt(#[trigger] list[k].drive@, #[trigger] list[l].drive@)
    &&& forall|k: int|
        0 <= k < list.len() ==> {
            &&& has_drive(rows, #[trigger] list[k].drive@)
            &&& drive_sums(rows, list[k].drive@) == (
                list[k].total_kb as nat,
                list[k].used_kb as nat,
                list[k].avail_kb as nat,
            )
            &&& list[k].total_kb > 0
        }
    &&& forall|d: Seq<char>|
        #![trigger drive_sums(rows, d)]
        has_drive(rows, d) && drive_sums(rows, d).0 > 0 ==> exists|k: int|
            0 <= k < list.len() && #[trigger] list[k].drive@ == d
}

// ---------------------------------------------------------------------------
// Lemmas
// ---------------------------------------------------------------------------
proof fn lemma_rows_prefix(ls: Seq<Seq<char>>, j: int)
    requires
        0 <= j <= ls.len(),
    ensures
        rows_of(ls.take(j)).len() <= rows_of(ls).len(),
        forall|i: int|
            0 <= i < rows_of(ls.take(j)).len() ==> #[trigger] rows_of(ls.take(j))[i] == rows_of(
                ls,
            )[i],
    decreases ls.len(),
{
    if j == ls.len() {
        assert(ls.take(j) =~= ls);
    } else {
        assert(ls.drop_last().take(j) =~= ls.take(j));
        lemma_rows_prefix(ls.drop_last(), j);
    }
}

proof fn lemma_sums_prefix(full: Seq<DfRow>, n: int, d: Seq<char>)
    requires
        0 <= n <= full.len(),
    ensures
        drive_sums(full.take(n), d).0 <= drive_sums(full, d).0,
        drive_sums(full.take(n), d).1 <= drive_sums(full, d).1,
        drive_sums(full.take(n), d).2 <= drive_sums(full, d).2,
        has_drive(full.take(n), d) ==> has_drive(full, d),
        has_cut_row(full.take(n)) ==> has_cut_row(full),
    decreases full.len(),
{
    if n == full.len() {
        assert(full.take(n) =~= full);
    } else {
        assert(full.drop_last().take(n) =~= full.take(n));
        lemma_sums_prefix(full.drop_last(), n, d);
        if has_drive(full.take(n), d) {
            let i = choose|i: int| 0 <= i < full.take(n).len() && parent_drive(#[trigger] full.take(n)[i].fs) == d;
            assert(full[i] == full.take(n)[i]);
        }
        if has_cut_row(full.take(n)) {
            let i = choose|i: int| 0 <= i < full.take(n).len() && cut_inside_char(#[trigger] full.take(n)[i].fs);
            assert(full[i] == full.take(n)[i]);
        }
    }
}

proof fn lemma_has_drive_push(rows: Seq<DfRow>, r: DfRow, d: Seq<char>)
    ensures
        has_drive(rows.push(r), d) == (has_drive(rows, d) || parent_drive(r.fs) == d),
        has_cut_row(rows.push(r)) == (has_cut_row(rows) || cut_inside_char(r.fs)),
        drive_sums(rows.push(r), d) == (if parent_drive(r.fs) == d {
            (
                drive_sums(rows, d).0 + r.total,
                drive_sums(rows, d).1 + r.used,
                drive_sums(rows, d).2 + r.avail,
            )
        } else {
            drive_sums(rows, d)
        }),
{
    let s = rows.push(r);
    assert(s.drop_last() =~= rows);
    if has_drive(rows, d) {
        let i = choose|i: int| 0 <= i < rows.len() && parent_drive(#[trigger] rows[i].fs) == d;
        assert(s[i] == rows[i]);
    }
    if parent_drive(r.fs) == d {
        assert(s[rows.len() as int] == r);
    }
    if has_drive(s, d) {
        let i = choose|i: int| 0 <= i < s.len() && parent_drive(#[trigger] s[i].fs) == d;
        if i < rows.len() {
            assert(s[i] == rows[i]);
        }
    }
    if has_cut_row(rows) {
        let i = choose|i: int| 0 <= i < rows.len() && cut_inside_char(#[trigger] rows[i].fs);
        assert(s[i] == rows[i]);
    }
    if cut_inside_char(r.fs) {
        assert(s[rows.len() as int] == r);
    }
    if has_cut_row(s) {
        let i = choose|i: int| 0 <= i < s.len() && cut_inside_char(#[trigger] s[i].fs);
        if i < rows.len() {
            assert(s[i] == rows[i]);
        }
    }
}

// ---------------------------------------------------------------------------
// The drive list
// ---------------------------------------------------------------------------
struct Group {
    drive: Vec<char>,
    total: u64,
    used: u64,
    avail: u64,
}

/// The groups kept while reading: one per drive seen so far, with its sums.
spec fn groups_match(gs: Seq<Group>, rows: Seq<DfRow>) -> bool {
    &&& forall|k: int, l: int|
        0 <= k < l < gs.len() ==> #[trigger] gs[k].drive@ != #[trigger] gs[l].drive@
    &&& forall|k: int|
        0 <= k < gs.len() ==> has_drive(rows, #[trigger] gs[k].drive@) && drive_sums(
            rows,
            gs[k].drive@,
        ) == (gs[k].total as nat, gs[k].used as nat, gs[k].avail as nat)
    &&& forall|d: Seq<char>|
        #[trigger] has_drive(rows, d) ==> exists|k: int| 0 <= k < gs.len() && #[trigger] gs[k].drive@ == d
}

fn parse_field(w: &Vec<char>) -> (r: u64)
    ensures
        r as nat == field_value(w@),
{
    match parse_u64_exec(w) {
        Some(v) => v,
        None => 0,
    }
}

/// The drive list of a `df` report (see `is_drive_list`); `None` where
/// reading the report cannot complete: a drive name would be cut inside a
/// character, or a drive's sum exceeds what a `u64` holds.
pub fn get_disk_list(df_output: &str) -> (r: Option<Vec<DriveUsage>>)
    ensures
        r is None <==> (has_cut_row(df_rows(df_output@)) || has_overflow(df_rows(df_output@))),
        r matches Some(list) ==> is_drive_list(df_rows(df_output@), list@),
{
    let chars = chars_of(df_output);
    let ls = split_lines(&chars);
    let ghost all_lines = lines(chars@);
    let ghost body = body_lines(df_output@);
    let ghost full = rows_of(body);
    let dev = chars_of("/dev/");
    let mut seen: Vec<Vec<char>> = Vec::new();
    let mut groups: Vec<Group> = Vec::new();
    let mut li: usize = 1;
    proof {
        if all_lines.len() > 0 {
            assert(body.take(0) =~= Seq::<Seq<char>>::empty());
        } else {
            assert(body =~= Seq::<Seq<char>>::empty());
        }
        assert(groups_match(groups@, Seq::<DfRow>::empty()));
    }
    while li < ls.len()
        invariant
            ls@.len() == all_lines.len(),
            forall|k: int| 0 <= k < ls@.len() ==> #[trigger] ls@[k]@ == all_lines[k],
            all_lines == lines(df_output@),
            body == body_lines(df_output@),
            full == rows_of(body),
            dev@ == "/dev/"@,
            1 <= li,
            all_lines.len() > 0 ==> li <= all_lines.len(),
            all_lines.len() == 0 ==> li == 1,
            all_lines.len() > 0 ==> body.len() == all_lines.len() - 1,
            all_lines.len() > 0 ==> forall|k: int|
                0 <= k < body.len() ==> #[trigger] body[k] == all_lines[k + 1],
            seen@.len() == rows_of(body.take(li - 1)).len(),
            forall|k: int|
                0 <= k < seen@.len() ==> #[trigger] seen@[k]@ == rows_of(body.take(li - 1))[k].fs,
            groups_match(groups@, rows_of(body.take(li - 1))),
            !has_cut_row(rows_of(body.take(li - 1))),
        decreases ls@.len() - li,
    {
        let ghost prev = rows_of(body.take(li - 1));
        let ghost cur = body.take(li as int);
        assert(cur.drop_last() =~= body.take(li - 1));
        assert(cur.last() == all_lines[li as int]);
        let ws = split_words(&ls[li]);
        let ghost row = df_row(all_lines[li as int]);
        proof {
            lemma_rows_prefix(body, li as int);
        }
        if ws.len() >= 6 && starts_with_exec(&ws[0], &dev) {
            // already seen?
            let mut k: usize = 0;
            let mut dup = false;
            while k < seen.len()
                invariant
                    k <= seen@.len(),
                    ws@.len() >= 6,
                    seen@.len() == prev.len(),
                    forall|m: int| 0 <= m < seen@.len() ==> #[trigger] seen@[m]@ == prev[m].fs,
                    !dup ==> forall|m: int| 0 <= m < k ==> prev[m].fs != ws@[0]@,
                    dup ==> has_fs(prev, ws@[0]@),
                decreases seen@.len() - k,
            {
                if chars_eq(&seen[k], &ws[0]) {
                    dup = true;
                    assert(prev[k as int].fs == ws@[0]@);
                }
                k += 1;
            }
            if dup {
                assert(rows_of(cur) == prev);
            } else {
                let ghost r = row->0;
                assert(r.fs == ws@[0]@);
                assert(!has_fs(prev, r.fs));
                assert(rows_of(cur) == prev.push(r));
                let t = parse_field(&ws[1]);
                let u = parse_field(&ws[2]);
                let a = parse_field(&ws[3]);
                proof {
                    lemma_has_drive_push(prev, r, parent_drive(r.fs));
                }
                // a drive name that would be cut inside a character
                if ws[0].len() >= 8 && starts_with_exec(&ws[0], &chars_of("/dev/sd")) && ws[0][7]
                    as u32 >= 0x80 {
                    proof {
                        assert(cut_inside_char(r.fs));
                        lemma_has_drive_push(prev, r, r.fs);
                        lemma_sums_prefix(full, rows_of(cur).len() as int, r.fs);
                        assert(full.take(rows_of(cur).len() as int) =~= rows_of(cur));
                    }
                    return None;
                }
                let d = parent_drive_chars(&ws[0]);
                seen.push(ws[0].clone());
                let ghost rows2 = prev.push(r);
                // find the drive's group
                let mut g: usize = 0;
                let mut found = false;
                while g < groups.len() && !found
                    invariant
                        g <= groups@.len(),
                        !found ==> forall|m: int| 0 <= m < g ==> groups@[m].drive@ != d@,
                        found ==> g < groups@.len() && groups@[g as int].drive@ == d@,
                    decreases groups@.len() - g, if found { 0int } else { 1int },
                {
                    if chars_eq(&groups[g].drive, &d) {
                        found = true;
                    } else {
                        g += 1;
                    }
                }
                proof {
                    assert forall|dd: Seq<char>| true implies #[trigger] drive_sums(rows2, dd) == (
                        if parent_drive(r.fs) == dd {
                            (
                                drive_sums(prev, dd).0 + r.total,
                                drive_sums(prev, dd).1 + r.used,
                                drive_sums(prev, dd).2 + r.avail,
                            )
                        } else {
                            drive_sums(prev, dd)
                        }
                    ) && has_drive(rows2, dd) == (has_drive(prev, dd) || parent_drive(r.fs) == dd) by {
                        lemma_has_drive_push(prev, r, dd);
                    }
                    assert(!has_cut_row(rows2));
                }
                if found {
                    let gt = groups[g].total.checked_add(t);
                    let gu = groups[g].used.checked_add(u);
                    let ga = groups[g].avail.checked_add(a);
                    if gt.is_none() || gu.is_none() || ga.is_none() {
                        proof {
                            let n = rows2.len() as int;
                            assert(full.take(n) =~= rows2);
                            lemma_sums_prefix(full, n, d@);
                            assert(drive_sums(rows2, d@) == drive_sums(full.take(n), d@));
                            assert(has_drive(full, d@));
                            assert(has_overflow(full));
                        }
                        return None;
                    }
                    let ghost old_groups = groups@;
                    let gd = groups[g].drive.clone();
                    groups.set(
                        g,
                        Group { drive: gd, total: gt.unwrap(), used: gu.unwrap(), avail: ga.unwrap() },
                    );
                    proof {
                        assert forall|m: int| 0 <= m < groups@.len() && m != g implies #[trigger] groups@[m]
                            == old_groups[m] by {
                        }
                        assert forall|dd: Seq<char>|
                            #[trigger] has_drive(rows2, dd) implies exists|m: int|
                            0 <= m < groups@.len() && #[trigger] groups@[m].drive@ == dd by {
                            lemma_has_drive_push(prev, r, dd);
                            if has_drive(prev, dd) {
                                let m = choose|m: int|
                                    0 <= m < old_groups.len() && #[trigger] old_groups[m].drive@
                                        == dd;
                                if m != g {
                                    assert(groups@[m] == old_groups[m]);
                                } else {
                                    assert(groups@[g as int].drive@ == dd);
                                }
                            } else {
                                assert(groups@[g as int].drive@ == dd);
                            }
                        }
                        assert forall|m: int|
                            0 <= m < groups@.len() implies has_drive(
                            rows2,
                            #[trigger] groups@[m].drive@,
                        ) && drive_sums(rows2, groups@[m].drive@) == (
                            groups@[m].total as nat,
                            groups@[m].used as nat,
                            groups@[m].avail as nat,
                        ) by {
                            let dm = groups@[m].drive@;
                            assert(drive_sums(rows2, dm) == drive_sums(rows2, dm));
                            assert(has_drive(prev, old_groups[m].drive@));
                            assert(drive_sums(prev, old_groups[m].drive@) == (
                                old_groups[m].total as nat,
                                old_groups[m].used as nat,
                                old_groups[m].avail as nat,
                            ));
                            if m != g {
                                assert(groups@[m] == old_groups[m]);
                                assert(old_groups[m].drive@ != old_groups[g as int].drive@);
                            } else {
                                assert(dm == d@);
                                assert(parent_drive(r.fs) == d@);
                                assert(r.total == field_value(ws@[1]@));
                                assert(r.used == field_value(ws@[2]@));
                                assert(r.avail == field_value(ws@[3]@));
                            }
                        }
                        assert forall|m: int, l: int|
                            0 <= m < l < groups@.len() implies #[trigger] groups@[m].drive@
                            != #[trigger] groups@[l].drive@ by {
                            assert(groups@[m].drive@ == old_groups[m].drive@);
                            assert(groups@[l].drive@ == old_groups[l].drive@);
                        }
                        assert(groups_match(groups@, rows2));
                    }
                } else {
                    let ghost old_groups = groups@;
                    proof {
                        assert(!has_drive(prev, d@)) by {
                            if has_drive(prev, d@) {
                                let m = choose|m: int|
                                    0 <= m < old_groups.len() && #[trigger] old_groups[m].drive@
                                        == d@;
                                assert(old_groups[m].drive@ != d@);
                            }
                        }
                        assert(drive_sums(prev, d@) == (0nat, 0nat, 0nat)) by {
                            lemma_no_drive_zero(prev, d@);
                        }
                    }
                    groups.push(Group { drive: d, total: t, used: u, avail: a });
                    proof {
                        assert forall|m: int|
                            0 <= m < groups@.len() implies has_drive(
                            rows2,
                            #[trigger] groups@[m].drive@,
                        ) && drive_sums(rows2, groups@[m].drive@) == (
                            groups@[m].total as nat,
                            groups@[m].used as nat,
                            groups@[m].avail as nat,
                        ) by {
                            if m < old_groups.len() {
                                assert(groups@[m] == old_groups[m]);
                                assert(old_groups[m].drive@ != d@);
                                assert(drive_sums(rows2, old_groups[m].drive@) == drive_sums(
                                    prev,
                                    old_groups[m].drive@,
                                ));
                            } else {
                                assert(groups@[m].drive@ == d@);
                                assert(drive_sums(rows2, d@) == drive_sums(rows2, d@));
                                assert(r.total == field_value(ws@[1]@));
                            }
                        }
                        assert forall|dd: Seq<char>|
                            #[trigger] has_drive(rows2, dd) implies exists|m: int|
                            0 <= m < groups@.len() && #[trigger] groups@[m].drive@ == dd by {
                            lemma_has_drive_push(prev, r, dd);
                            if has_drive(prev, dd) {
                                let m = choose|m: int|
                                    0 <= m < old_groups.len() && #[trigger] old_groups[m].drive@
                                        == dd;
                                assert(groups@[m] == old_groups[m]);
                            } else {
                                assert(groups@[old_groups.len() as int].drive@ == dd);
                            }
                        }
                        assert forall|m: int, l: int|
                            0 <= m < l < groups@.len() implies #[trigger] groups@[m].drive@
                            != #[trigger] groups@[l].drive@ by {
                            if l < old_groups.len() {
                                assert(groups@[m] == old_groups[m]);
                                assert(groups@[l] == old_groups[l]);
                            } else {
                                assert(groups@[m] == old_groups[m]);
                            }
                        }
                        assert(groups_match(groups@, rows2));
                    }
                }
                proof {
                    assert forall|m: int| 0 <= m < seen@.len() implies #[trigger] seen@[m]@
                        == rows2[m].fs by {
                        if m < prev.len() {
                        }
                    }
                }
            }
        } else {
            assert(row is None);
            assert(rows_of(cur) == prev);
        }
        li += 1;
    }
    // all rows read
    proof {
        if all_lines.len() > 0 {
            assert(li == all_lines.len());
            assert(li - 1 == body.len());
            assert(body.take(li - 1) =~= body);
        } else {
            assert(body =~= Seq::<Seq<char>>::empty());
            assert(body.take(li - 1) =~= body);
        }
        assert(!has_overflow(full)) by {
            if has_overflow(full) {
                let d = choose|d: Seq<char>|
                    #![trigger drive_sums(full, d)]
                    has_drive(full, d) && (drive_sums(full, d).0 > u64::MAX || drive_sums(full, d).1
                        > u64::MAX || drive_sums(full, d).2 > u64::MAX);
                assert(drive_sums(full, d) == drive_sums(full, d));
                let m = choose|m: int| 0 <= m < groups@.len() && #[trigger] groups@[m].drive@ == d;
                assert(false);
            }
        }
    }
    // keep the drives with a size, in name order
    let mut keys: Vec<Vec<char>> = Vec::new();
    let mut sized: Vec<usize> = Vec::new();
    let mut g: usize = 0;
    while g < groups.len()
        invariant
            g <= groups@.len(),
            keys@.len() == sized@.len(),
            forall|k: int|
                0 <= k < sized@.len() ==> #[trigger] sized@[k] < g && groups@[sized@[k] as int].total
                    > 0 && keys@[k]@ == groups@[sized@[k] as int].drive@,
            forall|k: int, l: int| 0 <= k < l < sized@.len() ==> #[trigger] sized@[k] < #[trigger] sized@[l],
            forall|m: int|
                0 <= m < g && groups@[m].total > 0 ==> exists|k: int|
                    0 <= k < sized@.len() && #[trigger] sized@[k] == m,
        decreases groups@.len() - g,
    {
        let ghost old_sized = sized@;
        if groups[g].total > 0 {
            keys.push(groups[g].drive.clone());
            sized.push(g);
            assert(sized@[sized@.len() - 1] == g);
        }
        proof {
            assert forall|m: int|
                0 <= m < g + 1 && groups@[m].total > 0 implies exists|k: int|
                0 <= k < sized@.len() && #[trigger] sized@[k] == m by {
                if m < g {
                    let k = choose|k: int| 0 <= k < old_sized.len() && #[trigger] old_sized[k] == m;
                    assert(sized@[k] == old_sized[k]);
                } else {
                    assert(sized@[sized@.len() - 1] == g);
                }
            }
        }
        g += 1;
    }
    let order = stable_order_by_chars(&keys);
    let ghost kv = keys@.map_values(|k: Vec<char>| k@);
    let mut list: Vec<DriveUsage> = Vec::new();
    let mut j: usize = 0;
    while j < order.len()
        invariant
            is_permutation(order@, keys@.len()),
            stably_sorted_by_chars(kv, order@),
            kv == keys@.map_values(|k: Vec<char>| k@),
            keys@.len() == sized@.len(),
            forall|k: int|
                0 <= k < sized@.len() ==> #[trigger] sized@[k] < groups@.len() && groups@[sized@[k] as int].total
                    > 0 && keys@[k]@ == groups@[sized@[k] as int].drive@,
            j <= order@.len(),
            list@.len() == j,
            forall|k: int|
                0 <= k < j ==> {
                    let gk = groups@[sized@[order@[k] as int] as int];
                    &&& (#[trigger] list@[k]).drive@ == gk.drive@
                    &&& list@[k].total_kb == gk.total
                    &&& list@[k].used_kb == gk.used
                    &&& list@[k].avail_kb == gk.avail
                },
        decreases order@.len() - j,
    {
        let gi = sized[order[j]];
        let gr = &groups[gi];
        list.push(
            DriveUsage {
                drive: string_of(&gr.drive),
                total_kb: gr.total,
                used_kb: gr.used,
                avail_kb: gr.avail,
            },
        );
        j += 1;
    }
    proof {
        let l = list@;
        assert forall|k: int, m: int| 0 <= k < m < l.len() implies lex_lt(
            #[trigger] l[k].drive@,
            #[trigger] l[m].drive@,
        ) by {
            assert(key_index_lt_at(kv, order@, k, m));
            let gk = sized@[order@[k] as int];
            let gm = sized@[order@[m] as int];
            assert(order@[k] != order@[m]);
            if kv[order@[k] as int] == kv[order@[m] as int] {
                assert(groups@[gk as int].drive@ == groups@[gm as int].drive@);
                if gk < gm {
                } else if gm < gk {
                } else {
                    assert(sized@[order@[k] as int] == sized@[order@[m] as int]);
                    if order@[k] < order@[m] {
                        assert(sized@[order@[k] as int] < sized@[order@[m] as int]);
                    } else {
                        assert(sized@[order@[m] as int] < sized@[order@[k] as int]);
                    }
                }
            }
        }
        assert forall|d: Seq<char>|
            #![trigger drive_sums(full, d)]
            has_drive(full, d) && drive_sums(full, d).0 > 0 implies exists|k: int|
                0 <= k < l.len() && #[trigger] l[k].drive@ == d by {
            let gm = choose|m: int| 0 <= m < groups@.len() && #[trigger] groups@[m].drive@ == d;
            let s = choose|s: int| 0 <= s < sized@.len() && #[trigger] sized@[s] == gm;
            lemma_permutation_onto(order@, keys@.len(), s);
            let k = choose|k: int| 0 <= k < order@.len() && #[trigger] order@[k] == s;
            assert(l[k].drive@ == d);
        }
    }
    Some(list)
}

spec fn key_index_lt_at(kv: Seq<Seq<char>>, r: Seq<usize>, k: int, l: int) -> bool {
    crate::order::key_index_lt(kv[r[k] as int], r[k], kv[r[l] as int], r[l])
}

proof fn lemma_no_drive_zero(rows: Seq<DfRow>, d: Seq<char>)
    requires
        !has_drive(rows, d),
    ensures
        drive_sums(rows, d) == (0nat, 0nat, 0nat),
    decreases rows.len(),
{
    if rows.len() > 0 {
        assert(parent_drive(rows[rows.len() - 1].fs) != d);
        assert(!has_drive(rows.drop_last(), d)) by {
            if has_drive(rows.drop_last(), d) {
                let i = choose|i: int|
                    0 <= i < rows.drop_last().len() && parent_drive(#[trigger] rows.drop_last()[i].fs)
                        == d;
                assert(rows[i] == rows.drop_last()[i]);
            }
        }
        lemma_no_drive_zero(rows.drop_last(), d);
    }
}

/// A permutation of `0..n` lists every index of `0..n`.
pub proof fn lemma_permutation_onto(r: Seq<usize>, n: nat, s: int)
    requires
        is_permutation(r, n),
        0 <= s < n,
    ensures
        exists|k: int| 0 <= k < r.len() && #[trigger] r[k] == s,
{
    // an injection of n indices into 0..n is onto
    if !exists|k: int| 0 <= k < r.len() && #[trigger] r[k] == s {
        let f = |k: int| r[k] as int;
        let dom = Set::new(|k: int| 0 <= k < r.len());
        let img = Set::new(|v: int| 0 <= v < n && v != s);
        vstd::set_lib::lemma_int_range(0, r.len() as int);
        assert(dom =~= vstd::set_lib::set_int_range(0, r.len() as int));
        let range_n = vstd::set_lib::set_int_range(0, n as int);
        vstd::set_lib::lemma_int_range(0, n as int);
        assert(img =~= range_n.remove(s));
        assert(img.len() == n - 1);
        let mapped = dom.map(f);
        assert(mapped.subset_of(img)) by {
            assert forall|v: int| mapped.contains(v) implies img.contains(v) by {
                let k = choose|k: int| dom.contains(k) && f(k) == v;
            }
        }
        assert(vstd::relations::injective_on(f, dom)) by {
            assert forall|a: int, b: int|
                dom.contains(a) && dom.contains(b) && #[trigger] f(a) == #[trigger] f(b) implies a
                == b by {
                if a < b {
                    assert(r[a] != r[b]);
                } else if b < a {
                    assert(r[b] != r[a]);
                }
            }
        }
        vstd::set_lib::lemma_map_size(dom, mapped, f);
        vstd::set_lib::lemma_len_subset(mapped, img);
        assert(false);
    }
}


// ---------------------------------------------------------------------------
// Conservation of sizes
// ---------------------------------------------------------------------------
/// The summed size of the partition rows.
pub open spec fn rows_total(rows: Seq<DfRow>) -> nat
    decreases rows.len(),
{
    if rows.len() == 0 {
        0
    } else {
        rows_total(rows.drop_last()) + rows.last().total
    }
}

/// The summed size of the drives of a drive list.
pub open spec fn list_total(list: Seq<DriveUsage>) -> nat
    decreases list.len(),
{
    if list.len() == 0 {
        0
    } else {
        list_total(list.drop_last()) + list.last().total_kb as nat
    }
}

/// The summed sizes of the drives `ds` (each counted for every time it
/// occurs).
spec fn sizes_of(rows: Seq<DfRow>, ds: Seq<Seq<char>>) -> nat
    decreases ds.len(),
{
    if ds.len() == 0 {
        0
    } else {
        sizes_of(rows, ds.drop_last()) + drive_sums(rows, ds.last()).0
    }
}

/// The summed size of the rows whose drive is among `ds`.
spec fn rows_in(rows: Seq<DfRow>, ds: Seq<Seq<char>>) -> nat
    decreases rows.len(),
{
    if rows.len() == 0 {
        0
    } else {
        rows_in(rows.drop_last(), ds) + if ds.contains(parent_drive(rows.last().fs)) {
            rows.last().total
        } else {
            0nat
        }
    }
}

proof fn lemma_sizes_push(rows: Seq<DfRow>, r: DfRow, ds: Seq<Seq<char>>)
    requires
        forall|i: int, j: int| 0 <= i < j < ds.len() ==> #[trigger] ds[i] != #[trigger] ds[j],
    ensures
        sizes_of(rows.push(r), ds) == sizes_of(rows, ds) + if ds.contains(parent_drive(r.fs)) {
            r.total
        } else {
            0nat
        },
    decreases ds.len(),
{
    if ds.len() > 0 {
        let init = ds.drop_last();
        lemma_sizes_push(rows, r, init);
        lemma_has_drive_push(rows, r, ds.last());
        let d = parent_drive(r.fs);
        if init.contains(d) {
            let i = choose|i: int| 0 <= i < init.len() && init[i] == d;
            assert(ds[i] == d);
            assert(ds.contains(d));
            assert(ds[i] != ds[ds.len() - 1]);
        } else if ds.last() == d {
            assert(ds[ds.len() - 1] == d);
        } else {
            if ds.contains(d) {
                let i = choose|i: int| 0 <= i < ds.len() && ds[i] == d;
                assert(init[i] == d);
            }
        }
    }
}

proof fn lemma_sizes_rows_in(rows: Seq<DfRow>, ds: Seq<Seq<char>>)
    requires
        forall|i: int, j: int| 0 <= i < j < ds.len() ==> #[trigger] ds[i] != #[trigger] ds[j],
    ensures
        sizes_of(rows, ds) == rows_in(rows, ds),
    decreases rows.len(),
{
    if rows.len() == 0 {
        lemma_sizes_empty(rows, ds);
    } else {
        let init = rows.drop_last();
        lemma_sizes_rows_in(init, ds);
        assert(init.push(rows.last()) =~= rows);
        lemma_sizes_push(init, rows.last(), ds);
    }
}

proof fn lemma_sizes_empty(rows: Seq<DfRow>, ds: Seq<Seq<char>>)
    requires
        rows.len() == 0,
    ensures
        sizes_of(rows, ds) == 0,
    decreases ds.len(),
{
    if ds.len() > 0 {
        lemma_sizes_empty(rows, ds.drop_last());
    }
}

proof fn lemma_rows_in_all(rows: Seq<DfRow>, ds: Seq<Seq<char>>)
    requires
        forall|i: int|
            0 <= i < rows.len() && (#[trigger] rows[i]).total > 0 ==> ds.contains(
                parent_drive(rows[i].fs),
            ),
    ensures
        rows_in(rows, ds) == rows_total(rows),
    decreases rows.len(),
{
    if rows.len() > 0 {
        let init = rows.drop_last();
        assert forall|i: int| 0 <= i < init.len() && (#[trigger] init[i]).total > 0 implies ds.contains(
            parent_drive(init[i].fs),
        ) by {
            assert(rows[i] == init[i]);
        }
        lemma_rows_in_all(init, ds);
        assert(rows[rows.len() - 1] == rows.last());
    }
}

proof fn lemma_row_in_sum(rows: Seq<DfRow>, i: int)
    requires
        0 <= i < rows.len(),
    ensures
        drive_sums(rows, parent_drive(rows[i].fs)).0 >= rows[i].total,
        has_drive(rows, parent_drive(rows[i].fs)),
    decreases rows.len(),
{
    let d = parent_drive(rows[i].fs);
    if i < rows.len() - 1 {
        lemma_row_in_sum(rows.drop_last(), i);
        assert(rows.drop_last()[i] == rows[i]);
        assert(rows.drop_last().push(rows.last()) =~= rows);
        lemma_has_drive_push(rows.drop_last(), rows.last(), d);
    } else {
        assert(rows.drop_last().push(rows.last()) =~= rows);
        lemma_has_drive_push(rows.drop_last(), rows.last(), d);
    }
}

proof fn lemma_list_sizes(rows: Seq<DfRow>, list: Seq<DriveUsage>)
    requires
        forall|k: int|
            0 <= k < list.len() ==> drive_sums(rows, (#[trigger] list[k]).drive@).0
                == list[k].total_kb as nat,
    ensures
        list_total(list) == sizes_of(rows, list.map_values(|u: DriveUsage| u.drive@)),
    decreases list.len(),
{
    if list.len() > 0 {
        let init = list.drop_last();
        assert forall|k: int| 0 <= k < init.len() implies drive_sums(
            rows,
            (#[trigger] init[k]).drive@,
        ).0 == init[k].total_kb as nat by {
            assert(list[k] == init[k]);
        }
        lemma_list_sizes(rows, init);
        assert(list.map_values(|u: DriveUsage| u.drive@).drop_last() =~= init.map_values(
            |u: DriveUsage| u.drive@,
        ));
        assert(list[list.len() - 1] == list.last());
    }
}

/// The drive list accounts for every partition once: the sizes of the
/// drives add up to the sizes of all the partitions the report lists
/// (each device counted at its first row).
pub proof fn law_drive_sizes_add_up(rows: Seq<DfRow>, list: Seq<DriveUsage>)
    requires
        is_drive_list(rows, list),
    ensures
        list_total(list) == rows_total(rows),
{
    let ds = list.map_values(|u: DriveUsage| u.drive@);
    assert forall|i: int, j: int| 0 <= i < j < ds.len() implies #[trigger] ds[i]
        != #[trigger] ds[j] by {
        assert(lex_lt(list[i].drive@, list[j].drive@));
        crate::order::lemma_lex_irreflexive(list[i].drive@);
    }
    assert forall|k: int| 0 <= k < list.len() implies drive_sums(
        rows,
        (#[trigger] list[k]).drive@,
    ).0 == list[k].total_kb as nat by {}
    lemma_list_sizes(rows, list);
    lemma_sizes_rows_in(rows, ds);
    assert forall|i: int| 0 <= i < rows.len() && (#[trigger] rows[i]).total > 0 implies ds.contains(
        parent_drive(rows[i].fs),
    ) by {
        let d = parent_drive(rows[i].fs);
        lemma_row_in_sum(rows, i);
        assert(drive_sums(rows, d).0 > 0);
        let k = choose|k: int| 0 <= k < list.len() && #[trigger] list[k].drive@ == d;
        assert(ds[k] == d);
    }
    lemma_rows_in_all(rows, ds);
}

} // verus!
