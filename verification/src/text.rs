//! Character-level helpers shared by the formatting and parsing code.

use vstd::prelude::*;
use vstd::string::*;

verus! {

/// The decimal digit character for `d` (taken modulo ten).
pub open spec fn digit_char(d: nat) -> char {
    seq!['0', '1', '2', '3', '4', '5', '6', '7', '8', '9'][(d % 10) as int]
}

/// Decimal digits of `n`, most significant first, without leading zeros
/// (zero is written as a single `0`).
pub open spec fn decimal(n: nat) -> Seq<char>
    decreases n,
{
    if n < 10 {
        seq![digit_char(n)]
    } else {
        decimal(n / 10).push(digit_char(n % 10))
    }
}

/// The lowest `width` decimal digits of `n`, padded with leading zeros.
pub open spec fn padded_decimal(n: nat, width: nat) -> Seq<char>
    decreases width,
{
    if width == 0 {
        seq![]
    } else {
        padded_decimal(n / 10, (width - 1) as nat).push(digit_char(n % 10))
    }
}

/// Appends one character to a string (`String::push`).
#[verifier::external_body]
pub fn push_char(s: &mut String, c: char)
    ensures
        final(s)@ == old(s)@.push(c),
{
    s.push(c);
}

/// The digit character for `d % 10`.
pub fn digit_of(d: u128) -> (c: char)
    ensures
        c == digit_char(d as nat),
{
    let r = d % 10;
    if r == 0 {
        '0'
    } else if r == 1 {
        '1'
    } else if r == 2 {
        '2'
    } else if r == 3 {
        '3'
    } else if r == 4 {
        '4'
    } else if r == 5 {
        '5'
    } else if r == 6 {
        '6'
    } else if r == 7 {
        '7'
    } else if r == 8 {
        '8'
    } else {
        '9'
    }
}

/// Appends the decimal representation of `n`.
pub fn push_decimal(out: &mut String, n: u128)
    ensures
        final(out)@ == old(out)@ + decimal(n as nat),
    decreases n,
{
    if n >= 10 {
        push_decimal(out, n / 10);
    }
    push_char(out, digit_of(n));
}

/// Appends the lowest `width` digits of `n`, zero-padded.
pub fn push_padded_decimal(out: &mut String, n: u128, width: u32)
    ensures
        final(out)@ == old(out)@ + padded_decimal(n as nat, width as nat),
    decreases width,
{
    if width > 0 {
        push_padded_decimal(out, n / 10, width - 1);
        push_char(out, digit_of(n));
    }
}

/// The decimal representation of `n` as a new string.
pub fn decimal_string(n: u128) -> (s: String)
    ensures
        s@ == decimal(n as nat),
{
    let mut s = String::new();
    push_decimal(&mut s, n);
    s
}

/// The characters of `s`, in order.
pub fn chars_of(s: &str) -> (v: Vec<char>)
    ensures
        v@ == s@,
{
    broadcast use vstd::string::group_string_axioms;

    let mut v: Vec<char> = Vec::new();
    for c in it: s.chars()
        invariant
            v@ == it.seq().take(it.index() as int),
    {
        v.push(c);
    }
    assert(v@ =~= s@);
    v
}

/// Unicode `White_Space` characters (what `char::is_whitespace` accepts).
pub open spec fn is_space(c: char) -> bool {
    let x = c as u32;
    (0x09 <= x <= 0x0d) || x == 0x20 || x == 0x85 || x == 0xa0 || x == 0x1680 || (0x2000 <= x
        <= 0x200a) || x == 0x2028 || x == 0x2029 || x == 0x202f || x == 0x205f || x == 0x3000
}

/// Whether `c` is Unicode white space.
pub fn is_space_char(c: char) -> (b: bool)
    ensures
        b == is_space(c),
{
    let x = c as u32;
    (0x09 <= x && x <= 0x0d) || x == 0x20 || x == 0x85 || x == 0xa0 || x == 0x1680 || (0x2000
        <= x && x <= 0x200a) || x == 0x2028 || x == 0x2029 || x == 0x202f || x == 0x205f || x
        == 0x3000
}

/// `s` without its leading white space.
pub open spec fn trim_start(s: Seq<char>) -> Seq<char>
    decreases s.len(),
{
    if s.len() > 0 && is_space(s[0]) {
        trim_start(s.drop_first())
    } else {
        s
    }
}

/// `s` without its trailing white space.
pub open spec fn trim_end(s: Seq<char>) -> Seq<char>
    decreases s.len(),
{
    if s.len() > 0 && is_space(s.last()) {
        trim_end(s.drop_last())
    } else {
        s
    }
}

/// `s` without white space at either end.
pub open spec fn trim(s: Seq<char>) -> Seq<char> {
    trim_end(trim_start(s))
}

/// The characters of `s` before its first white space.
pub open spec fn leading_word(s: Seq<char>) -> Seq<char>
    decreases s.len(),
{
    if s.len() == 0 || is_space(s[0]) {
        seq![]
    } else {
        seq![s[0]] + leading_word(s.drop_first())
    }
}

/// The first white-space separated word of `s` (empty when there is none).
pub open spec fn first_word(s: Seq<char>) -> Seq<char> {
    leading_word(trim_start(s))
}

/// What follows the first word of `s` (the white space before that word dropped).
pub open spec fn after_first_word(s: Seq<char>) -> Seq<char> {
    trim_start(s).skip(first_word(s).len() as int)
}

/// `i` is the position of the first `c` in `s`.
pub open spec fn is_first_at(s: Seq<char>, c: char, i: int) -> bool {
    0 <= i < s.len() && s[i] == c && forall|j: int| 0 <= j < i ==> s[j] != c
}

/// Position of the first `c` in `s`, if any.
pub open spec fn first_index_of(s: Seq<char>, c: char) -> Option<int> {
    if exists|i: int| is_first_at(s, c, i) {
        Some(choose|i: int| is_first_at(s, c, i))
    } else {
        None
    }
}

/// The pieces of `s` between occurrences of `sep`: each `sep` starts a new
/// piece and every other character extends the current one, so there is
/// always at least one (possibly empty) piece.
pub open spec fn split_on(s: Seq<char>, sep: char) -> Seq<Seq<char>>
    decreases s.len(),
{
    if s.len() == 0 {
        seq![seq![]]
    } else {
        let rest = split_on(s.drop_last(), sep);
        if s.last() == sep {
            rest.push(seq![])
        } else {
            rest.update(rest.len() - 1, rest.last().push(s.last()))
        }
    }
}

/// Splitting always yields at least one piece.
pub proof fn lemma_split_nonempty(s: Seq<char>, sep: char)
    ensures
        split_on(s, sep).len() >= 1,
    decreases s.len(),
{
    if s.len() > 0 {
        lemma_split_nonempty(s.drop_last(), sep);
    }
}

/// Value of a run of decimal digits.
pub open spec fn digits_value(d: Seq<char>) -> nat
    decreases d.len(),
{
    if d.len() == 0 {
        0
    } else {
        10 * digits_value(d.drop_last()) + digit_value(d.last())
    }
}

/// Numeric value of a decimal digit character.
pub open spec fn digit_value(c: char) -> nat {
    (c as int - '0' as int) as nat
}

pub open spec fn is_digit(c: char) -> bool {
    '0' <= c <= '9'
}

/// The digit part of unsigned decimal text: without one leading `+`.
pub open spec fn unsigned_digits(t: Seq<char>) -> Seq<char> {
    if t.len() > 0 && t[0] == '+' {
        t.drop_first()
    } else {
        t
    }
}

/// Every character of `d` is an ASCII digit.
pub open spec fn all_digits(d: Seq<char>) -> bool {
    forall|i: int| 0 <= i < d.len() ==> is_digit(#[trigger] d[i])
}

/// Unsigned decimal text as `u64` parsing reads it: an optional `+`, then
/// one or more ASCII digits whose value fits in 64 bits.
pub open spec fn parse_u64(t: Seq<char>) -> Option<nat> {
    let d = unsigned_digits(t);
    if d.len() > 0 && all_digits(d) && digits_value(d) <= u64::MAX {
        Some(digits_value(d))
    } else {
        None
    }
}

/// First position in `from..to` that is not white space (or `to`).
pub fn skip_space(v: &Vec<char>, from: usize, to: usize) -> (k: usize)
    requires
        from <= to <= v.len(),
    ensures
        from <= k <= to,
        v@.subrange(k as int, to as int) == trim_start(v@.subrange(from as int, to as int)),
{
    let mut k = from;
    while k < to && is_space_char(v[k])
        invariant
            from <= k <= to <= v.len(),
            trim_start(v@.subrange(k as int, to as int)) == trim_start(
                v@.subrange(from as int, to as int),
            ),
        decreases to - k,
    {
        assert(v@.subrange(k as int, to as int).drop_first() =~= v@.subrange(
            (k + 1) as int,
            to as int,
        ));
        k = k + 1;
    }
    k
}

/// End of `from..to` once trailing white space is dropped.
pub fn drop_trailing_space(v: &Vec<char>, from: usize, to: usize) -> (k: usize)
    requires
        from <= to <= v.len(),
    ensures
        from <= k <= to,
        v@.subrange(from as int, k as int) == trim_end(v@.subrange(from as int, to as int)),
{
    let mut k = to;
    while k > from && is_space_char(v[k - 1])
        invariant
            from <= k <= to <= v.len(),
            trim_end(v@.subrange(from as int, k as int)) == trim_end(
                v@.subrange(from as int, to as int),
            ),
        decreases k,
    {
        assert(v@.subrange(from as int, k as int).drop_last() =~= v@.subrange(
            from as int,
            (k - 1) as int,
        ));
        k = k - 1;
    }
    k
}

/// End of the word that starts at `from` (the first white space or `to`).
pub fn word_end(v: &Vec<char>, from: usize, to: usize) -> (k: usize)
    requires
        from <= to <= v.len(),
    ensures
        from <= k <= to,
        v@.subrange(from as int, k as int) == leading_word(v@.subrange(from as int, to as int)),
{
    let mut k = from;
    while k < to && !is_space_char(v[k])
        invariant
            from <= k <= to <= v.len(),
            leading_word(v@.subrange(from as int, to as int)) == v@.subrange(
                from as int,
                k as int,
            ) + leading_word(v@.subrange(k as int, to as int)),
        decreases to - k,
    {
        assert(v@.subrange(k as int, to as int).drop_first() =~= v@.subrange(
            (k + 1) as int,
            to as int,
        ));
        assert(v@.subrange(from as int, (k + 1) as int) =~= v@.subrange(from as int, k as int)
            + seq![v@[k as int]]);
        k = k + 1;
    }
    assert(v@.subrange(from as int, to as int) =~= v@.subrange(from as int, k as int)
        + v@.subrange(k as int, to as int)) by {}
    k
}

/// The characters of `v` in `from..to`, as a new vector.
pub fn copy_range(v: &Vec<char>, from: usize, to: usize) -> (r: Vec<char>)
    requires
        from <= to <= v.len(),
    ensures
        r@ == v@.subrange(from as int, to as int),
{
    let mut r: Vec<char> = Vec::new();
    let mut k = from;
    while k < to
        invariant
            from <= k <= to <= v.len(),
            r@ == v@.subrange(from as int, k as int),
        decreases to - k,
    {
        r.push(v[k]);
        k = k + 1;
        assert(r@ =~= v@.subrange(from as int, k as int));
    }
    r
}

/// Whether two character vectors hold the same characters.
pub fn same_chars(a: &Vec<char>, b: &Vec<char>) -> (eq: bool)
    ensures
        eq == (a@ == b@),
{
    if a.len() != b.len() {
        return false;
    }
    let mut k: usize = 0;
    while k < a.len()
        invariant
            a.len() == b.len(),
            k <= a.len(),
            forall|j: int| 0 <= j < k ==> a@[j] == b@[j],
        decreases a.len() - k,
    {
        if a[k] != b[k] {
            return false;
        }
        k = k + 1;
    }
    assert(a@ =~= b@);
    true
}

/// Reads `from..to` as unsigned decimal text (see `parse_u64`).
pub fn parse_u64_range(v: &Vec<char>, from: usize, to: usize) -> (r: Option<u64>)
    requires
        from <= to <= v.len(),
    ensures
        match r {
            Some(x) => parse_u64(v@.subrange(from as int, to as int)) == Some(x as nat),
            None => parse_u64(v@.subrange(from as int, to as int)) is None,
        },
{
    let ghost t = v@.subrange(from as int, to as int);
    let mut k = from;
    if k < to && v[k] == '+' {
        k = k + 1;
    }
    let ghost d = v@.subrange(k as int, to as int);
    assert(d =~= unsigned_digits(t));
    if k == to {
        return None;
    }
    let start = k;
    let mut value: u64 = 0;
    while k < to
        invariant
            from <= start <= k <= to <= v.len(),
            d == v@.subrange(start as int, to as int),
            t == v@.subrange(from as int, to as int),
            d == unsigned_digits(t),
            d.len() > 0,
            forall|j: int| start <= j < k ==> is_digit(#[trigger] v@[j]),
            value == digits_value(v@.subrange(start as int, k as int)),
        decreases to - k,
    {
        let c = v[k];
        if !('0' <= c && c <= '9') {
            assert(!is_digit(d[k - start]));
            assert(!all_digits(d));
            assert(parse_u64(t) is None);
            return None;
        }
        let dv = (c as u32 - '0' as u32) as u64;
        assert(v@.subrange(start as int, (k + 1) as int).drop_last() =~= v@.subrange(
            start as int,
            k as int,
        ));
        if value > (u64::MAX - dv) / 10 {
            proof {
                lemma_digits_grow(d, (k + 1 - start) as int);
                assert(d.take((k + 1 - start) as int) =~= v@.subrange(
                    start as int,
                    (k + 1) as int,
                ));
                assert(digits_value(v@.subrange(start as int, (k + 1) as int)) == 10 * value
                    + dv);
                assert(digits_value(d) > u64::MAX) by (nonlinear_arith)
                    requires
                        value > (u64::MAX - dv) / 10,
                        digits_value(d) >= 10 * value + dv,
                        dv <= 9,
                ;
                assert(parse_u64(t) is None);
            }
            return None;
        }
        value = value * 10 + dv;
        k = k + 1;
    }
    assert(v@.subrange(start as int, k as int) =~= d);
    Some(value)
}

/// Adding digits never lowers the value of a digit run.
pub proof fn lemma_digits_grow(d: Seq<char>, n: int)
    requires
        0 <= n <= d.len(),
    ensures
        digits_value(d.take(n)) <= digits_value(d),
    decreases d.len() - n,
{
    if n < d.len() {
        lemma_digits_grow(d, n + 1);
        assert(d.take(n + 1).drop_last() =~= d.take(n));
    } else {
        assert(d.take(n) =~= d);
    }
}

/// The first word of `v[from..to]`, as the range `ws..we`, and where the rest begins (`we`).
pub fn word_at(v: &Vec<char>, from: usize, to: usize) -> (r: (usize, usize))
    requires
        from <= to <= v.len(),
    ensures
        from <= r.0 <= r.1 <= to,
        v@.subrange(r.0 as int, r.1 as int) == first_word(v@.subrange(from as int, to as int)),
        v@.subrange(r.1 as int, to as int) == after_first_word(
            v@.subrange(from as int, to as int),
        ),
{
    let ws = skip_space(v, from, to);
    let we = word_end(v, ws, to);
    assert(v@.subrange(ws as int, to as int).skip(we - ws) =~= v@.subrange(we as int, to as int));
    (ws, we)
}

/// Splitting off one more line: the mapped lines gain that line's image, if it has one.
pub proof fn lemma_filter_map_push<T>(
    done: Seq<Seq<char>>,
    line: Seq<char>,
    f: spec_fn(Seq<char>) -> Option<T>,
)
    ensures
        done.push(line).filter_map(f) == (match f(line) {
            Some(x) => done.filter_map(f).push(x),
            None => done.filter_map(f),
        }),
{
    assert(done.push(line).drop_last() =~= done);
    assert(done.push(line).last() == line);
    match f(line) {
        Some(x) => {
            assert(done.filter_map(f) + seq![x] =~= done.filter_map(f).push(x));
        },
        None => {},
    }
}

/// Appends the characters of `v` in `from..to`.
pub fn push_range(out: &mut String, v: &Vec<char>, from: usize, to: usize)
    requires
        from <= to <= v.len(),
    ensures
        final(out)@ == old(out)@ + v@.subrange(from as int, to as int),
{
    let ghost start = out@;
    let mut k = from;
    while k < to
        invariant
            from <= k <= to <= v.len(),
            out@ == start + v@.subrange(from as int, k as int),
        decreases to - k,
    {
        push_char(out, v[k]);
        k = k + 1;
        assert(out@ =~= start + v@.subrange(from as int, k as int));
    }
}

/// `s` without any trailing `c`.
pub open spec fn trim_end_char(s: Seq<char>, c: char) -> Seq<char>
    decreases s.len(),
{
    if s.len() > 0 && s.last() == c {
        trim_end_char(s.drop_last(), c)
    } else {
        s
    }
}

/// `s` followed by spaces up to `width` characters.
pub open spec fn pad_right(s: Seq<char>, width: nat) -> Seq<char> {
    if s.len() < width {
        s + Seq::new((width - s.len()) as nat, |i: int| ' ')
    } else {
        s
    }
}

/// `s` preceded by spaces up to `width` characters.
pub open spec fn pad_left(s: Seq<char>, width: nat) -> Seq<char> {
    if s.len() < width {
        Seq::new((width - s.len()) as nat, |i: int| ' ') + s
    } else {
        s
    }
}

/// Appends `n` spaces.
pub fn push_spaces(out: &mut String, n: usize)
    ensures
        final(out)@ == old(out)@ + Seq::new(n as nat, |i: int| ' '),
{
    let ghost start = out@;
    let mut k: usize = 0;
    while k < n
        invariant
            k <= n,
            out@ == start + Seq::new(k as nat, |i: int| ' '),
        decreases n - k,
    {
        push_char(out, ' ');
        k = k + 1;
        assert(out@ =~= start + Seq::new(k as nat, |i: int| ' '));
    }
}

/// The pieces joined with `sep` between neighbours.
pub open spec fn join(parts: Seq<Seq<char>>, sep: Seq<char>) -> Seq<char>
    decreases parts.len(),
{
    if parts.len() == 0 {
        seq![]
    } else if parts.len() == 1 {
        parts[0]
    } else {
        join(parts.drop_last(), sep) + sep + parts.last()
    }
}

/// The views of a vector of strings.
pub open spec fn string_views(v: Seq<String>) -> Seq<Seq<char>> {
    v.map_values(|s: String| s@)
}

/// Appends the first `count` strings of `parts` joined with `sep`.
pub fn push_joined(out: &mut String, parts: &Vec<String>, count: usize, sep: &str)
    requires
        count <= parts.len(),
    ensures
        final(out)@ == old(out)@ + join(string_views(parts@.take(count as int)), sep@),
{
    let ghost start = out@;
    let mut k: usize = 0;
    while k < count
        invariant
            k <= count <= parts.len(),
            out@ == start + join(string_views(parts@.take(k as int)), sep@),
        decreases count - k,
    {
        let ghost before = string_views(parts@.take(k as int));
        let ghost after = string_views(parts@.take(k as int + 1));
        assert(after.drop_last() =~= before);
        assert(after.last() == parts@[k as int]@);
        if k > 0 {
            out.append(sep);
        }
        out.append(parts[k].as_str());
        k = k + 1;
        assert(out@ =~= start + join(after, sep@));
    }
}

} // verus!
