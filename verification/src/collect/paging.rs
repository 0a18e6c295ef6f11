//! Pagefile / swap usage.

use vstd::prelude::*;
use crate::collect::memory::sat_sub;
use crate::collect::meminfo::{lookup, MemInfo};
use crate::text::{
    after_first_word, chars_of, first_word, lemma_filter_map_push, lemma_split_nonempty, parse_u64,
    parse_u64_range, push_range, split_on, word_at,
};

verus! {

/// Aggregate across all pagefile/swap entries, with the per-file entries.
#[derive(Clone, Debug)]
pub struct PagefileSnapshot {
    pub total_bytes: u64,
    pub used_bytes: u64,
    /// Per-file entries (Windows: one per pagefile; Linux/macOS: one per swap device)
    pub entries: Vec<PagefileEntry>,
}

/// One pagefile or swap device.
#[derive(Clone, Debug)]
pub struct PagefileEntry {
    /// Path or device label
    pub path: String,
    pub total_bytes: u64,
    pub used_bytes: u64,
}

impl Default for PagefileSnapshot {
    fn default() -> (p: Self)
        ensures
            p.total_bytes == 0,
            p.used_bytes == 0,
            p.entries@.len() == 0,
    {
        PagefileSnapshot { total_bytes: 0, used_bytes: 0, entries: Vec::new() }
    }
}

/// Sum of the entries' sizes.
pub open spec fn entries_total(e: Seq<PagefileEntry>) -> int
    decreases e.len(),
{
    if e.len() == 0 {
        0
    } else {
        entries_total(e.drop_last()) + e.last().total_bytes
    }
}

/// Sum of the entries' usage.
pub open spec fn entries_used(e: Seq<PagefileEntry>) -> int
    decreases e.len(),
{
    if e.len() == 0 {
        0
    } else {
        entries_used(e.drop_last()) + e.last().used_bytes
    }
}

/// A snapshot with one aggregate entry named `label` that holds the totals.
pub fn aggregate(label: &str, total: u64, used: u64) -> (p: PagefileSnapshot)
    ensures
        p.total_bytes == total,
        p.used_bytes == used,
        p.entries@.len() == 1,
        p.entries@[0].path@ == label@,
        p.entries@[0].total_bytes == total,
        p.entries@[0].used_bytes == used,
        entries_total(p.entries@) == p.total_bytes,
        entries_used(p.entries@) == p.used_bytes,
{
    let entry = PagefileEntry { path: label.to_owned(), total_bytes: total, used_bytes: used };
    let mut entries: Vec<PagefileEntry> = Vec::new();
    entries.push(entry);
    let p = PagefileSnapshot { total_bytes: total, used_bytes: used, entries };
    assert(p.entries@.drop_last() =~= Seq::<PagefileEntry>::empty());
    assert(entries_total(p.entries@.drop_last()) == 0);
    assert(entries_used(p.entries@.drop_last()) == 0);
    p
}

/// A line of the Linux swap device table (`/proc/swaps`): its first word is
/// the device's path, its third and fourth words the size and the amount in
/// use, in kB.  A line whose third or fourth word is not a number (the
/// heading), or whose figures do not fit in 64 bits as bytes, lists no device.
pub open spec fn swap_line(line: Seq<char>) -> Option<(Seq<char>, nat, nat)> {
    let path = first_word(line);
    let rest2 = after_first_word(after_first_word(line));
    let size = parse_u64(first_word(rest2));
    let used = parse_u64(first_word(after_first_word(rest2)));
    match size {
        Some(kb) => match used {
            Some(ukb) => if path.len() > 0 && kb * 1024 <= u64::MAX && ukb * 1024 <= u64::MAX {
                Some((path, kb * 1024, ukb * 1024))
            } else {
                None
            },
            None => None,
        },
        None => None,
    }
}

/// The devices that the table lists, in line order: path, size and use in bytes.
pub open spec fn swap_devices(content: Seq<char>) -> Seq<(Seq<char>, nat, nat)> {
    split_on(content, '\n').filter_map(|l: Seq<char>| swap_line(l))
}

/// An entry as (path, size, use).
pub open spec fn entry_view(e: PagefileEntry) -> (Seq<char>, nat, nat) {
    (e.path@, e.total_bytes as nat, e.used_bytes as nat)
}

/// The entries as (path, size, use) triples.
pub open spec fn entry_views(e: Seq<PagefileEntry>) -> Seq<(Seq<char>, nat, nat)> {
    e.map_values(|x: PagefileEntry| entry_view(x))
}

/// The device listed by the line `v[from..to]`, if any.
fn swap_entry(v: &Vec<char>, from: usize, to: usize) -> (r: Option<PagefileEntry>)
    requires
        from <= to <= v.len(),
    ensures
        match r {
            None => swap_line(v@.subrange(from as int, to as int)) is None,
            Some(e) => swap_line(v@.subrange(from as int, to as int)) == Some(entry_view(e)),
        },
{
    let (a0, b0) = word_at(v, from, to);
    let (_a1, b1) = word_at(v, b0, to);
    let (a2, b2) = word_at(v, b1, to);
    let (a3, b3) = word_at(v, b2, to);
    if a0 == b0 {
        return None;
    }
    let size = parse_u64_range(v, a2, b2);
    let used = parse_u64_range(v, a3, b3);
    match size {
        Some(kb) => match used {
            Some(ukb) => {
                if kb <= u64::MAX / 1024 && ukb <= u64::MAX / 1024 {
                    let mut path = String::new();
                    push_range(&mut path, v, a0, b0);
                    assert(path@ =~= v@.subrange(a0 as int, b0 as int));
                    Some(PagefileEntry { path, total_bytes: kb * 1024, used_bytes: ukb * 1024 })
                } else {
                    None
                }
            },
            None => None,
        },
        None => None,
    }
}

/// Reads the Linux swap device table (`/proc/swaps`): one entry per device
/// line (see `swap_line`), in order.
pub fn parse_swaps(content: &str) -> (devices: Vec<PagefileEntry>)
    ensures
        entry_views(devices@) == swap_devices(content@),
{
    let v = chars_of(content);
    let ghost f = |l: Seq<char>| swap_line(l);
    let mut devices: Vec<PagefileEntry> = Vec::new();
    let ghost mut done: Seq<Seq<char>> = seq![];
    let mut start: usize = 0;
    let mut i: usize = 0;
    assert(v@.take(0) =~= Seq::<char>::empty());
    assert(split_on(v@.take(0), '\n') =~= done.push(v@.subrange(0, 0)));
    assert(entry_views(devices@) =~= done.filter_map(f));
    while i < v.len()
        invariant
            start <= i <= v.len(),
            split_on(v@.take(i as int), '\n') == done.push(v@.subrange(start as int, i as int)),
            entry_views(devices@) == done.filter_map(f),
            f == (|l: Seq<char>| swap_line(l)),
        decreases v.len() - i,
    {
        let ghost prev = v@.take(i as int);
        let ghost next = v@.take(i as int + 1);
        assert(next.drop_last() =~= prev);
        assert(next.last() == v@[i as int]);
        assert(next.len() > 0);
        if v[i] == '\n' {
            let ghost line = v@.subrange(start as int, i as int);
            let parsed = swap_entry(&v, start, i);
            proof {
                lemma_filter_map_push(done, line, f);
            }
            match parsed {
                Some(e) => {
                    devices.push(e);
                    assert(entry_views(devices@) =~= done.push(line).filter_map(f));
                },
                None => {},
            }
            assert(split_on(next, '\n') == split_on(prev, '\n').push(seq![]));
            proof {
                done = done.push(line);
            }
            start = i + 1;
            assert(v@.subrange(start as int, (i + 1) as int) =~= Seq::<char>::empty());
            assert(split_on(next, '\n') =~= done.push(v@.subrange(start as int, (i + 1) as int)));
        } else {
            proof {
                lemma_split_nonempty(prev, '\n');
            }
            let ghost rest = split_on(prev, '\n');
            assert(split_on(next, '\n') == rest.update(rest.len() - 1, rest.last().push(v@[i as int])));
            assert(rest.last() == v@.subrange(start as int, i as int));
            assert(rest.last().push(v@[i as int]) =~= v@.subrange(start as int, (i + 1) as int));
            assert(split_on(next, '\n') =~= done.push(v@.subrange(start as int, (i + 1) as int)));
        }
        i = i + 1;
    }
    let ghost line = v@.subrange(start as int, i as int);
    assert(v@.take(i as int) =~= content@);
    let parsed = swap_entry(&v, start, i);
    proof {
        lemma_filter_map_push(done, line, f);
    }
    match parsed {
        Some(e) => {
            devices.push(e);
            assert(entry_views(devices@) =~= done.push(line).filter_map(f));
        },
        None => {},
    }
    devices
}

/// Swap on Linux: the totals from the memory table (used is total minus
/// free, floored at 0) and one entry per device that the swap device table
/// (`/proc/swaps`) lists.
pub fn collect(info: &MemInfo, swaps: &str) -> (p: PagefileSnapshot)
    ensures
        p.total_bytes == lookup(info@, "SwapTotal"@),
        p.used_bytes == sat_sub(lookup(info@, "SwapTotal"@), lookup(info@, "SwapFree"@)),
        p.used_bytes <= p.total_bytes,
        entry_views(p.entries@) == swap_devices(swaps@),
{
    let total = info.get("SwapTotal");
    let free = info.get("SwapFree");
    PagefileSnapshot {
        total_bytes: total,
        used_bytes: total.saturating_sub(free),
        entries: parse_swaps(swaps),
    }
}

} // verus!
