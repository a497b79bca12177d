//! The system monitor: processor time from `/proc/stat`, the load between
//! two readings, the memory figures of `/proc/meminfo`, and the channels
//! of the chart colours.
use vstd::prelude::*;

use crate::text::{
    chars_eq_str, chars_of, lines, parse_hex_u32, parse_hex_u32_exec, parse_u64, parse_u64_exec,
    split_lines, split_words, strip_char_start, strip_char_start_exec, string_of, words,
};

verus! {

// ---------------------------------------------------------------------------
// Processor time
// ---------------------------------------------------------------------------
/// Processor time since boot, in clock ticks: all of it, and the idle part.
#[derive(Clone, Copy, Debug, PartialEq, Eq, Structural)]
pub struct CpuTime {
    pub total: u64,
    pub idle: u64,
}

/// The fields of the first line of `/proc/stat`, if it has one.
pub open spec fn stat_first_words(stat: Seq<char>) -> Option<Seq<Seq<char>>> {
    let ls = lines(stat);
    if ls.len() > 0 {
        Some(words(ls[0]))
    } else {
        None
    }
}

/// Field `i` as a number: 0 where it is missing or no number.
pub open spec fn field_or_zero(ws: Seq<Seq<char>>, i: int) -> nat {
    if 0 <= i < ws.len() {
        match parse_u64(ws[i]) {
            Some(v) => v as nat,
            None => 0,
        }
    } else {
        0
    }
}

/// Idle time of a `cpu` line: the idle and the I/O wait fields.
pub open spec fn cpu_idle(ws: Seq<Seq<char>>) -> nat {
    field_or_zero(ws, 4) + field_or_zero(ws, 5)
}

/// Total time of a `cpu` line: user, nice, system, idle time, irq,
/// softirq and steal.
pub open spec fn cpu_total(ws: Seq<Seq<char>>) -> nat {
    field_or_zero(ws, 1) + field_or_zero(ws, 2) + field_or_zero(ws, 3) + cpu_idle(ws)
        + field_or_zero(ws, 6) + field_or_zero(ws, 7) + field_or_zero(ws, 8)
}

/// The first line is the summary line of all processors: five or more
/// fields, the first `cpu`.
pub open spec fn is_cpu_line(ws: Seq<Seq<char>>) -> bool {
    ws.len() >= 5 && ws[0] == "cpu"@
}

/// The times that the first line of `stat` reports, if it is the summary
/// line: (total, idle).
pub open spec fn cpu_times(stat: Seq<char>) -> Option<(nat, nat)> {
    match stat_first_words(stat) {
        Some(ws) => if is_cpu_line(ws) {
            Some((cpu_total(ws), cpu_idle(ws)))
        } else {
            None
        },
        None => None,
    }
}

/// The sums of the summary line exceed what a `u64` holds.
pub open spec fn cpu_sum_overflows(stat: Seq<char>) -> bool {
    match cpu_times(stat) {
        Some((t, _)) => t > u64::MAX,
        None => false,
    }
}

fn field_exec(ws: &Vec<Vec<char>>, i: usize) -> (r: u64)
    ensures
        r as nat == field_or_zero(ws@.map_values(|w: Vec<char>| w@), i as int),
{
    if i < ws.len() {
        match parse_u64_exec(&ws[i]) {
            Some(v) => v,
            None => 0,
        }
    } else {
        0
    }
}

/// Whether the sums of the summary line of `stat` fit in a `u64` (they do
/// on every real system; reading them otherwise overflows).
pub fn cpu_times_fit(stat: &str) -> (b: bool)
    ensures
        b == !cpu_sum_overflows(stat@),
{
    let cs = chars_of(stat);
    let ls = split_lines(&cs);
    if ls.len() == 0 {
        return true;
    }
    let ws = split_words(&ls[0]);
    let ghost wv = ws@.map_values(|w: Vec<char>| w@);
    assert(wv =~= words(lines(stat@)[0]));
    if !(ws.len() >= 5 && chars_eq_str(&ws[0], "cpu")) {
        return true;
    }
    let mut sum: u128 = 0;
    let mut i: usize = 1;
    while i <= 8
        invariant
            1 <= i <= 9,
            wv == ws@.map_values(|w: Vec<char>| w@),
            sum as nat == (if i > 1 { field_or_zero(wv, 1) } else { 0 }) + (if i > 2 {
                field_or_zero(wv, 2)
            } else {
                0
            }) + (if i > 3 { field_or_zero(wv, 3) } else { 0 }) + (if i > 4 {
                field_or_zero(wv, 4)
            } else {
                0
            }) + (if i > 5 { field_or_zero(wv, 5) } else { 0 }) + (if i > 6 {
                field_or_zero(wv, 6)
            } else {
                0
            }) + (if i > 7 { field_or_zero(wv, 7) } else { 0 }) + (if i > 8 {
                field_or_zero(wv, 8)
            } else {
                0
            }),
            sum <= (i - 1) * u64::MAX,
        decreases 9 - i,
    {
        let f = field_exec(&ws, i);
        sum = sum + f as u128;
        i += 1;
    }
    sum <= u64::MAX as u128
}

/// The processor times of the summary line of `/proc/stat` (`None` where
/// the first line is not that line).
pub fn get_cpu_raw(stat: &str) -> (r: Option<CpuTime>)
    requires
        !cpu_sum_overflows(stat@),
    ensures
        match r {
            Some(c) => cpu_times(stat@) == Some((c.total as nat, c.idle as nat)),
            None => cpu_times(stat@) is None,
        },
{
    let cs = chars_of(stat);
    let ls = split_lines(&cs);
    if ls.len() == 0 {
        return None;
    }
    let ws = split_words(&ls[0]);
    let ghost wv = ws@.map_values(|w: Vec<char>| w@);
    assert(wv =~= words(lines(stat@)[0]));
    if ws.len() >= 5 && chars_eq_str(&ws[0], "cpu") {
        let user = field_exec(&ws, 1);
        let nice = field_exec(&ws, 2);
        let system = field_exec(&ws, 3);
        let idle = field_exec(&ws, 4);
        let iowait = field_exec(&ws, 5);
        let irq = field_exec(&ws, 6);
        let softirq = field_exec(&ws, 7);
        let steal = field_exec(&ws, 8);
        let idle_time = idle + iowait;
        let total_time = user + nice + system + idle_time + irq + softirq + steal;
        Some(CpuTime { total: total_time, idle: idle_time })
    } else {
        None
    }
}

/// The processor time used and elapsed between two readings, where there
/// was an earlier reading and time elapsed: (used, elapsed), each
/// difference taken as 0 where the later reading is smaller. The load is
/// `used / elapsed`; without such a pair it shows as 0.
pub fn cpu_usage(last: Option<CpuTime>, current: CpuTime) -> (r: Option<(u64, u64)>)
    ensures
        r matches Some((used, elapsed)) ==> used <= elapsed && elapsed > 0,
        match last {
            None => r is None,
            Some(l) => {
                let total_diff: int = if current.total >= l.total {
                    current.total - l.total
                } else {
                    0
                };
                let idle_diff: int = if current.idle >= l.idle {
                    current.idle - l.idle
                } else {
                    0
                };
                if total_diff > 0 {
                    r == Some(
                        (
                            (if total_diff >= idle_diff {
                                total_diff - idle_diff
                            } else {
                                0
                            }) as u64,
                            total_diff as u64,
                        ),
                    )
                } else {
                    r is None
                }
            },
        },
{
    match last {
        None => None,
        Some(l) => {
            let total_diff = current.total.saturating_sub(l.total);
            let idle_diff = current.idle.saturating_sub(l.idle);
            if total_diff > 0 {
                let used_diff = total_diff.saturating_sub(idle_diff);
                Some((used_diff, total_diff))
            } else {
                None
            }
        },
    }
}

// ---------------------------------------------------------------------------
// Memory
// ---------------------------------------------------------------------------
/// The value field of the last line of `ls` whose first field is `key`
/// (lines of two or more fields only).
pub open spec fn last_field(ls: Seq<Seq<char>>, key: Seq<char>) -> Option<Seq<char>>
    decreases ls.len(),
{
    if ls.len() == 0 {
        None
    } else {
        let ws = words(ls.last());
        if ws.len() >= 2 && ws[0] == key {
            Some(ws[1])
        } else {
            last_field(ls.drop_last(), key)
        }
    }
}

/// The text of the `MemTotal:` and `MemAvailable:` values of
/// `/proc/meminfo` (for each the last line that gives it). The figures are
/// read from these as decimal numbers, 0 where one does not read.
pub fn meminfo_fields(meminfo: &str) -> (r: (Option<String>, Option<String>))
    ensures
        match r.0 {
            Some(t) => last_field(lines(meminfo@), "MemTotal:"@) == Some(t@),
            None => last_field(lines(meminfo@), "MemTotal:"@) is None,
        },
        match r.1 {
            Some(a) => last_field(lines(meminfo@), "MemAvailable:"@) == Some(a@),
            None => last_field(lines(meminfo@), "MemAvailable:"@) is None,
        },
{
    let cs = chars_of(meminfo);
    let ls = split_lines(&cs);
    let ghost all = lines(meminfo@);
    proof {
        reveal_strlit("MemTotal:");
        reveal_strlit("MemAvailable:");
        assert("MemTotal:"@.len() != "MemAvailable:"@.len());
    }
    let mut total: Option<String> = None;
    let mut avail: Option<String> = None;
    let mut i: usize = 0;
    assert(all.take(0) =~= Seq::<Seq<char>>::empty());
    while i < ls.len()
        invariant
            i <= ls@.len(),
            ls@.len() == all.len(),
            all == lines(meminfo@),
            "MemTotal:"@ != "MemAvailable:"@,
            forall|k: int| 0 <= k < ls@.len() ==> #[trigger] ls@[k]@ == all[k],
            match total {
                Some(t) => last_field(all.take(i as int), "MemTotal:"@) == Some(t@),
                None => last_field(all.take(i as int), "MemTotal:"@) is None,
            },
            match avail {
                Some(a) => last_field(all.take(i as int), "MemAvailable:"@) == Some(a@),
                None => last_field(all.take(i as int), "MemAvailable:"@) is None,
            },
        decreases ls@.len() - i,
    {
        assert(all.take(i + 1).drop_last() =~= all.take(i as int));
        assert(all.take(i + 1).last() == all[i as int]);
        let ws = split_words(&ls[i]);
        if ws.len() >= 2 {
            if chars_eq_str(&ws[0], "MemTotal:") {
                total = Some(string_of(&ws[1]));
            } else if chars_eq_str(&ws[0], "MemAvailable:") {
                avail = Some(string_of(&ws[1]));
            }
        }
        i += 1;
    }
    assert(all.take(ls@.len() as int) =~= all);
    (total, avail)
}

// ---------------------------------------------------------------------------
// Chart colours
// ---------------------------------------------------------------------------
/// The red, green and blue channels of a colour written as hexadecimal
/// digits after any number of `#`: `None` where the rest is no hexadecimal
/// number that fits in 32 bits (the chart then draws in grey).
pub open spec fn rgb_channels(hex: Seq<char>) -> Option<(u8, u8, u8)> {
    match parse_hex_u32(strip_char_start(hex, '#')) {
        Some(v) => Some(
            ((v as nat / 0x10000 % 0x100) as u8, (v as nat / 0x100 % 0x100) as u8, (v as nat
                % 0x100) as u8),
        ),
        None => None,
    }
}

/// The channels of a colour in hexadecimal notation (see `rgb_channels`);
/// each is shown as a fraction of 255.
pub fn hex_rgb_channels(hex: &str) -> (r: Option<(u8, u8, u8)>)
    ensures
        r == rgb_channels(hex@),
{
    let cs = chars_of(hex);
    let clean = strip_char_start_exec(&cs, '#');
    match parse_hex_u32_exec(&clean) {
        Some(val) => {
            let r = ((val >> 16) & 0xFF) as u8;
            let g = ((val >> 8) & 0xFF) as u8;
            let b = (val & 0xFF) as u8;
            assert((val >> 16) & 0xFF == val / 0x10000 % 0x100) by (bit_vector);
            assert((val >> 8) & 0xFF == val / 0x100 % 0x100) by (bit_vector);
            assert(val & 0xFF == val % 0x100) by (bit_vector);
            Some((r, g, b))
        },
        None => None,
    }
}

} // verus!
