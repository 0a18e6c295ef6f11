//! The `key: value kB` table that Linux publishes in `/proc/meminfo`.

use vstd::prelude::*;
use crate::text::{
    chars_of, copy_range, drop_trailing_space, first_index_of, first_word, is_first_at,
    lemma_filter_map_push, lemma_split_nonempty, parse_u64, parse_u64_range, same_chars, skip_space, split_on, trim,
    word_end,
};

verus! {

/// The entry that one line contributes: the trimmed text before the first
/// `:` and the number (in kB) that starts the rest, 0 when that is not a
/// number; a line without `:` contributes nothing.
pub open spec fn line_entry(line: Seq<char>) -> Option<(Seq<char>, nat)> {
    match first_index_of(line, ':') {
        None => None,
        Some(i) => Some(
            (
                trim(line.take(i)),
                match parse_u64(first_word(line.skip(i + 1))) {
                    Some(kb) => kb,
                    None => 0,
                },
            ),
        ),
    }
}

/// All entries of the table, in line order (values in kB).
pub open spec fn table_entries(content: Seq<char>) -> Seq<(Seq<char>, nat)> {
    split_on(content, '\n').filter_map(|l: Seq<char>| line_entry(l))
}

/// Every value of the table, in bytes, fits in 64 bits.
pub open spec fn values_fit(entries: Seq<(Seq<char>, nat)>) -> bool {
    forall|i: int| 0 <= i < entries.len() ==> #[trigger] entries[i].1 * 1024 <= u64::MAX
}

/// The entries with their values converted to bytes.
pub open spec fn in_bytes(entries: Seq<(Seq<char>, nat)>) -> Seq<(Seq<char>, u64)> {
    entries.map_values(|e: (Seq<char>, nat)| (e.0, (e.1 * 1024) as u64))
}

/// Value of the last entry named `key`, 0 when there is none.
pub open spec fn lookup(entries: Seq<(Seq<char>, u64)>, key: Seq<char>) -> u64
    decreases entries.len(),
{
    if entries.len() == 0 {
        0
    } else if entries.last().0 == key {
        entries.last().1
    } else {
        lookup(entries.drop_last(), key)
    }
}

/// A parsed `/proc/meminfo` table, values in bytes.
pub struct MemInfo {
    entries: Vec<(Vec<char>, u64)>,
}

/// The table held by a vector of (key, bytes) pairs.
spec fn entries_view(e: Seq<(Vec<char>, u64)>) -> Seq<(Seq<char>, u64)> {
    e.map_values(|x: (Vec<char>, u64)| (x.0@, x.1))
}

impl View for MemInfo {
    type V = Seq<(Seq<char>, u64)>;

    closed spec fn view(&self) -> Seq<(Seq<char>, u64)> {
        entries_view(self.entries@)
    }
}

proof fn lemma_push_entry(done: Seq<(Seq<char>, nat)>, e: (Seq<char>, nat))
    ensures
        values_fit(done.push(e)) == (values_fit(done) && e.1 * 1024 <= u64::MAX),
        in_bytes(done.push(e)) =~= in_bytes(done).push((e.0, (e.1 * 1024) as u64)),
{
    let d2 = done.push(e);
    if values_fit(done) && e.1 * 1024 <= u64::MAX {
        assert forall|i: int| 0 <= i < d2.len() implies #[trigger] d2[i].1 * 1024
            <= u64::MAX by {
            if i < done.len() {
                assert(d2[i] == done[i]);
            }
        }
    }
    if values_fit(d2) {
        assert forall|i: int| 0 <= i < done.len() implies #[trigger] done[i].1 * 1024
            <= u64::MAX by {
            assert(d2[i] == done[i]);
        }
        assert(d2[done.len() as int] == e);
    }
}

/// The entry of the line `v[from..to]`.
fn parse_line(v: &Vec<char>, from: usize, to: usize) -> (r: Option<(Vec<char>, u64)>)
    requires
        from <= to <= v.len(),
    ensures
        match r {
            None => line_entry(v@.subrange(from as int, to as int)) is None,
            Some(e) => line_entry(v@.subrange(from as int, to as int)) == Some(
                (e.0@, e.1 as nat),
            ),
        },
{
    let ghost line = v@.subrange(from as int, to as int);
    let mut k = from;
    while k < to && v[k] != ':'
        invariant
            from <= k <= to <= v.len(),
            line == v@.subrange(from as int, to as int),
            forall|j: int| 0 <= j < k - from ==> line[j] != ':',
        decreases to - k,
    {
        k = k + 1;
    }
    if k == to {
        assert(!exists|i: int| is_first_at(line, ':', i));
        return None;
    }
    let ghost i = (k - from) as int;
    assert(is_first_at(line, ':', i));
    assert(first_index_of(line, ':') == Some(i)) by {
        let c = choose|j: int| is_first_at(line, ':', j);
        assert(is_first_at(line, ':', c));
        assert(c == i);
    }
    let ks = skip_space(v, from, k);
    let ke = drop_trailing_space(v, ks, k);
    assert(line.take(i) =~= v@.subrange(from as int, k as int));
    let key = copy_range(v, ks, ke);
    let ws = skip_space(v, k + 1, to);
    let we = word_end(v, ws, to);
    assert(line.skip(i + 1) =~= v@.subrange((k + 1) as int, to as int));
    let kb = match parse_u64_range(v, ws, we) {
        Some(x) => x,
        None => 0,
    };
    Some((key, kb))
}

impl MemInfo {
    /// Value of `key` in bytes: that of the last line naming it, 0 when no line does.
    pub fn get(&self, key: &str) -> (value: u64)
        ensures
            value == lookup(self@, key@),
    {
        let want = chars_of(key);
        let mut value: u64 = 0;
        let mut i: usize = 0;
        while i < self.entries.len()
            invariant
                i <= self.entries.len(),
                want@ == key@,
                value == lookup(self@.take(i as int), key@),
            decreases self.entries.len() - i,
        {
            assert(self@.take((i + 1) as int).drop_last() =~= self@.take(i as int));
            if same_chars(&self.entries[i].0, &want) {
                value = self.entries[i].1;
            }
            i = i + 1;
        }
        assert(self@.take(i as int) =~= self@);
        value
    }
}

/// Reads the text of `/proc/meminfo`.  Gives `None` exactly when some value,
/// converted from kB to bytes, does not fit in 64 bits.
pub fn parse_meminfo(content: &str) -> (r: Option<MemInfo>)
    ensures
        r is None <==> !values_fit(table_entries(content@)),
        r matches Some(m) ==> m@ == in_bytes(table_entries(content@)),
{
    let v = chars_of(content);
    let ghost f = |l: Seq<char>| line_entry(l);
    let mut entries: Vec<(Vec<char>, u64)> = Vec::new();
    let ghost mut done: Seq<Seq<char>> = seq![];
    let mut fits = true;
    let mut start: usize = 0;
    let mut i: usize = 0;
    assert(v@.take(0) =~= Seq::<char>::empty());
    assert(split_on(v@.take(0), '\n') =~= done.push(v@.subrange(0, 0)));
    assert(entries_view(entries@) =~= in_bytes(done.filter_map(f)));
    while i < v.len()
        invariant
            start <= i <= v.len(),
            split_on(v@.take(i as int), '\n') == done.push(v@.subrange(start as int, i as int)),
            fits == values_fit(done.filter_map(f)),
            fits ==> entries_view(entries@) == in_bytes(done.filter_map(f)),
            f == (|l: Seq<char>| line_entry(l)),
        decreases v.len() - i,
    {
        let ghost prev = v@.take(i as int);
        let ghost next = v@.take(i as int + 1);
        assert(next.drop_last() =~= prev);
        assert(next.last() == v@[i as int]);
        assert(next.len() > 0);
        if v[i] == '\n' {
            let ghost line = v@.subrange(start as int, i as int);
            let parsed = parse_line(&v, start, i);
            proof {
                lemma_filter_map_push(done, line, f);
            }
            match parsed {
                Some(e) => {
                    proof {
                        lemma_push_entry(done.filter_map(f), (e.0@, e.1 as nat));
                    }
                    if e.1 <= u64::MAX / 1024 {
                        if fits {
                            entries.push((e.0, e.1 * 1024));
                            assert(entries_view(entries@) =~= in_bytes(
                                done.push(line).filter_map(f),
                            ));
                        }
                    } else {
                        fits = false;
                    }
                },
                None => {},
            }
            assert(split_on(next, '\n') == split_on(prev, '\n').push(seq![]));
            proof {
                done = done.push(line);
            }
            start = i + 1;
            assert(v@.subrange(start as int, (i + 1) as int) =~= Seq::<char>::empty());
            assert(split_on(next, '\n') =~= done.push(
                v@.subrange(start as int, (i + 1) as int),
            ));
        } else {
            proof {
                lemma_split_nonempty(prev, '\n');
            }
            let ghost rest = split_on(prev, '\n');
            assert(split_on(next, '\n') == rest.update(rest.len() - 1, rest.last().push(v@[i as int])));
            assert(rest.last() == v@.subrange(start as int, i as int));
            assert(rest.last().push(v@[i as int]) =~= v@.subrange(start as int, (i + 1) as int));
            assert(split_on(next, '\n') =~= done.push(
                v@.subrange(start as int, (i + 1) as int),
            ));
        }
        i = i + 1;
    }
    let ghost line = v@.subrange(start as int, i as int);
    assert(v@.take(i as int) =~= content@);
    let parsed = parse_line(&v, start, i);
    proof {
        lemma_filter_map_push(done, line, f);
    }
    match parsed {
        Some(e) => {
            proof {
                lemma_push_entry(done.filter_map(f), (e.0@, e.1 as nat));
            }
            if e.1 <= u64::MAX / 1024 && fits {
                entries.push((e.0, e.1 * 1024));
                assert(entries_view(entries@) =~= in_bytes(done.push(line).filter_map(f)));
                Some(MemInfo { entries })
            } else {
                None
            }
        },
        None => {
            if fits {
                Some(MemInfo { entries })
            } else {
                None
            }
        },
    }
}

} // verus!
