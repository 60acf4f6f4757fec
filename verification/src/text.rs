//! Character classes and small operations on sequences of characters.

use vstd::prelude::*;

verus! {

/// `String::push` appends one character to the end of the string.
pub assume_specification[ String::push ](s: &mut String, ch: char)
    ensures
        final(s)@ == old(s)@.push(ch),
;

/// Whether `c` is white space: the code points to which Unicode gives the
/// property `White_Space`.
pub open spec fn is_space(c: char) -> bool {
    let n = c as u32;
    ||| 0x09 <= n <= 0x0D
    ||| n == 0x20
    ||| n == 0x85
    ||| n == 0xA0
    ||| n == 0x1680
    ||| 0x2000 <= n <= 0x200A
    ||| n == 0x2028
    ||| n == 0x2029
    ||| n == 0x202F
    ||| n == 0x205F
    ||| n == 0x3000
}

/// Tests for white space.
pub fn is_whitespace(c: char) -> (b: bool)
    ensures
        b == is_space(c),
{
    let n: u32 = c as u32;
    (0x09 <= n && n <= 0x0D) || n == 0x20 || n == 0x85 || n == 0xA0 || n == 0x1680 || (0x2000 <= n
        && n <= 0x200A) || n == 0x2028 || n == 0x2029 || n == 0x202F || n == 0x205F || n == 0x3000
}

/// The first position in `from..to` that holds no white space, or `to`.
pub open spec fn trim_lo(s: Seq<char>, from: int, to: int) -> int
    decreases to - from,
{
    if 0 <= from < to <= s.len() && is_space(s[from]) {
        trim_lo(s, from + 1, to)
    } else {
        from
    }
}

/// The end of the last stretch in `from..to` that ends in something other
/// than white space, or `from`.
pub open spec fn trim_hi(s: Seq<char>, from: int, to: int) -> int
    decreases to - from,
{
    if 0 <= from < to <= s.len() && is_space(s[to - 1]) {
        trim_hi(s, from, to - 1)
    } else {
        to
    }
}

/// The characters of `from..to` without the white space at either end.
pub open spec fn trimmed(s: Seq<char>, from: int, to: int) -> Seq<char> {
    let lo = trim_lo(s, from, to);
    s.subrange(lo, trim_hi(s, lo, to))
}

/// The whole of `s` without the white space at either end.
pub open spec fn trim(s: Seq<char>) -> Seq<char> {
    trimmed(s, 0, s.len() as int)
}

/// Whether `from..to` holds white space only.
pub open spec fn is_blank(s: Seq<char>, from: int, to: int) -> bool {
    trim_lo(s, from, to) >= to
}

/// `trim_lo` lies within `from..to`, passes over white space only, and
/// stops at the first character that is none.
pub proof fn lemma_trim_lo_bounds(s: Seq<char>, from: int, to: int)
    requires
        0 <= from <= to <= s.len(),
    ensures
        from <= trim_lo(s, from, to) <= to,
        forall|i: int| from <= i < trim_lo(s, from, to) ==> is_space(#[trigger] s[i]),
        trim_lo(s, from, to) < to ==> !is_space(s[trim_lo(s, from, to)]),
    decreases to - from,
{
    if from < to && is_space(s[from]) {
        lemma_trim_lo_bounds(s, from + 1, to);
    }
}

/// `trim_hi` lies within `from..to`, leaves out white space only, and
/// stops after the last character that is none.
pub proof fn lemma_trim_hi_bounds(s: Seq<char>, from: int, to: int)
    requires
        0 <= from <= to <= s.len(),
    ensures
        from <= trim_hi(s, from, to) <= to,
        forall|i: int| trim_hi(s, from, to) <= i < to ==> is_space(#[trigger] s[i]),
        from < trim_hi(s, from, to) ==> !is_space(s[trim_hi(s, from, to) - 1]),
    decreases to - from,
{
    if from < to && is_space(s[to - 1]) {
        lemma_trim_hi_bounds(s, from, to - 1);
    }
}

/// The bounds of `from..to` without the white space at either end.
pub fn trim_bounds(v: &Vec<char>, from: usize, to: usize) -> (r: (usize, usize))
    requires
        from <= to <= v.len(),
    ensures
        r.0 == trim_lo(v@, from as int, to as int),
        r.1 == trim_hi(v@, r.0 as int, to as int),
        from <= r.0 <= r.1 <= to,
        v@.subrange(r.0 as int, r.1 as int) == trimmed(v@, from as int, to as int),
{
    let mut lo: usize = from;
    while lo < to && is_whitespace(v[lo])
        invariant
            from <= lo <= to <= v.len(),
            trim_lo(v@, from as int, to as int) == trim_lo(v@, lo as int, to as int),
        decreases to - lo,
    {
        lo += 1;
    }
    let mut hi: usize = to;
    while lo < hi && is_whitespace(v[hi - 1])
        invariant
            lo <= hi <= to <= v.len(),
            trim_hi(v@, lo as int, to as int) == trim_hi(v@, lo as int, hi as int),
        decreases hi - lo,
    {
        hi -= 1;
    }
    (lo, hi)
}

/// The characters of `s`, in order.
pub fn chars_of(s: &str) -> (v: Vec<char>)
    ensures
        v@ == s@,
{
    let mut v: Vec<char> = Vec::new();
    for c in it: s.chars()
        invariant
            v@ == it.seq().take(it.index() as int),
            it.seq() == s@,
    {
        v.push(c);
    }
    v
}

/// The string that holds the characters of `from..to`.
pub fn string_of(v: &Vec<char>, from: usize, to: usize) -> (s: String)
    requires
        from <= to <= v.len(),
    ensures
        s@ == v@.subrange(from as int, to as int),
{
    let mut s = String::new();
    let mut i: usize = from;
    while i < to
        invariant
            from <= i <= to <= v.len(),
            s@ == v@.subrange(from as int, i as int),
        decreases to - i,
    {
        s.push(v[i]);
        i += 1;
        assert(v@.subrange(from as int, i as int) == v@.subrange(from as int, i - 1).push(
            v@[i - 1],
        ));
    }
    s
}

/// The decimal digit that stands for `d`.
pub open spec fn digit(d: int) -> char {
    if d == 0 {
        '0'
    } else if d == 1 {
        '1'
    } else if d == 2 {
        '2'
    } else if d == 3 {
        '3'
    } else if d == 4 {
        '4'
    } else if d == 5 {
        '5'
    } else if d == 6 {
        '6'
    } else if d == 7 {
        '7'
    } else if d == 8 {
        '8'
    } else {
        '9'
    }
}

/// The decimal numeral of `n`, without leading zeros.
pub open spec fn decimal(n: nat) -> Seq<char>
    decreases n,
{
    if n < 10 {
        seq![digit(n as int)]
    } else {
        decimal(n / 10).push(digit((n % 10) as int))
    }
}

fn digit_char(d: usize) -> (c: char)
    requires
        d < 10,
    ensures
        c == digit(d as int),
{
    if d == 0 {
        '0'
    } else if d == 1 {
        '1'
    } else if d == 2 {
        '2'
    } else if d == 3 {
        '3'
    } else if d == 4 {
        '4'
    } else if d == 5 {
        '5'
    } else if d == 6 {
        '6'
    } else if d == 7 {
        '7'
    } else if d == 8 {
        '8'
    } else {
        '9'
    }
}

/// Appends the decimal numeral of `n` to `out`.
pub fn push_decimal(out: &mut String, n: usize)
    ensures
        final(out)@ == old(out)@ + decimal(n as nat),
    decreases n,
{
    if n >= 10 {
        push_decimal(out, n / 10);
    }
    out.push(digit_char(n % 10));
    proof {
        if n >= 10 {
            assert(final(out)@ =~= old(out)@ + decimal(n as nat));
        } else {
            assert(final(out)@ =~= old(out)@ + decimal(n as nat));
        }
    }
}

/// A copy of the characters of `from..to`.
pub fn slice_of(v: &Vec<char>, from: usize, to: usize) -> (r: Vec<char>)
    requires
        from <= to <= v.len(),
    ensures
        r@ == v@.subrange(from as int, to as int),
{
    let mut r: Vec<char> = Vec::new();
    let mut i: usize = from;
    while i < to
        invariant
            from <= i <= to <= v.len(),
            r@ == v@.subrange(from as int, i as int),
        decreases to - i,
    {
        r.push(v[i]);
        i += 1;
        assert(v@.subrange(from as int, i as int) == v@.subrange(from as int, i - 1).push(
            v@[i - 1],
        ));
    }
    r
}

/// Whether `v` begins with the characters of `prefix`.
pub fn starts_with(v: &Vec<char>, prefix: &str) -> (b: bool)
    ensures
        b == prefix@.is_prefix_of(v@),
{
    let p = chars_of(prefix);
    if p.len() > v.len() {
        return false;
    }
    let mut i: usize = 0;
    while i < p.len()
        invariant
            i <= p.len() <= v.len(),
            p@ == prefix@,
            forall|k: int| 0 <= k < i ==> p@[k] == v@[k],
        decreases p.len() - i,
    {
        if p[i] != v[i] {
            assert(prefix@[i as int] != v@.subrange(0, prefix@.len() as int)[i as int]);
            return false;
        }
        i += 1;
    }
    assert(prefix@ =~= v@.subrange(0, prefix@.len() as int));
    true
}

/// The position of the first `sep` at or after `from`, or the length of `s`.
pub open spec fn piece_end(s: Seq<char>, sep: char, from: int) -> int
    decreases s.len() - from,
{
    if 0 <= from < s.len() && s[from] != sep {
        piece_end(s, sep, from + 1)
    } else {
        from
    }
}

/// The pieces of `s` from `from` on: the stretches between one `sep` and
/// the next.
pub open spec fn pieces_from(s: Seq<char>, sep: char, from: int) -> Seq<Seq<char>>
    decreases s.len() - from,
{
    let end = piece_end(s, sep, from);
    if 0 <= from <= end < s.len() {
        seq![s.subrange(from, end)] + pieces_from(s, sep, end + 1)
    } else if 0 <= from <= s.len() {
        seq![s.subrange(from, s.len() as int)]
    } else {
        Seq::empty()
    }
}

/// The pieces into which the occurrences of `sep` cut `s`. Where `sep`
/// occurs `n` times there are `n + 1` pieces, empty ones among them.
pub open spec fn split(s: Seq<char>, sep: char) -> Seq<Seq<char>> {
    pieces_from(s, sep, 0)
}

/// A piece ends at or after the position at which it begins, within `s`,
/// at a `sep` or at the end of `s`, and holds no `sep`.
pub proof fn lemma_piece_end(s: Seq<char>, sep: char, from: int)
    requires
        0 <= from <= s.len(),
    ensures
        from <= piece_end(s, sep, from) <= s.len(),
        forall|i: int| from <= i < piece_end(s, sep, from) ==> #[trigger] s[i] != sep,
        piece_end(s, sep, from) < s.len() ==> s[piece_end(s, sep, from)] == sep,
    decreases s.len() - from,
{
    if from < s.len() && s[from] != sep {
        lemma_piece_end(s, sep, from + 1);
    }
}

/// The views of `rows`, in order.
pub open spec fn rows_view(rows: Seq<Vec<char>>) -> Seq<Seq<char>> {
    Seq::new(rows.len(), |i: int| rows[i]@)
}

/// Cuts `v` into pieces at each `sep`.
pub fn split_at(v: &Vec<char>, sep: char) -> (rows: Vec<Vec<char>>)
    ensures
        rows_view(rows@) == split(v@, sep),
{
    let mut rows: Vec<Vec<char>> = Vec::new();
    let mut row: Vec<char> = Vec::new();
    let ghost mut start: int = 0;
    let mut i: usize = 0;
    while i < v.len()
        invariant
            0 <= start <= i <= v.len(),
            row@ == v@.subrange(start, i as int),
            piece_end(v@, sep, start) == piece_end(v@, sep, i as int),
            rows_view(rows@) + pieces_from(v@, sep, start) == pieces_from(v@, sep, 0),
        decreases v.len() - i,
    {
        let c = v[i];
        if c == sep {
            proof {
                assert(rows_view(rows@.push(row)) =~= rows_view(rows@) + seq![row@]);
                assert((rows_view(rows@) + seq![row@]) + pieces_from(v@, sep, i + 1) =~= rows_view(
                    rows@,
                ) + (seq![row@] + pieces_from(v@, sep, i + 1)));
                start = i + 1;
            }
            rows.push(row);
            row = Vec::new();
            assert(row@ =~= v@.subrange(i + 1, i + 1));
        } else {
            row.push(c);
            assert(row@ =~= v@.subrange(start, i + 1));
        }
        i += 1;
    }
    proof {
        assert(rows_view(rows@.push(row)) =~= rows_view(rows@) + seq![row@]);
    }
    rows.push(row);
    rows
}

/// The position of the first white space at or after `from`, or the length
/// of `s`.
pub open spec fn word_end(s: Seq<char>, from: int) -> int
    decreases s.len() - from,
{
    if 0 <= from < s.len() && !is_space(s[from]) {
        word_end(s, from + 1)
    } else {
        from
    }
}

/// A word ends within `s`, and after its first character where it has one.
pub proof fn lemma_word_end(s: Seq<char>, from: int)
    requires
        0 <= from <= s.len(),
    ensures
        from <= word_end(s, from) <= s.len(),
        from < s.len() && !is_space(s[from]) ==> from < word_end(s, from),
    decreases s.len() - from,
{
    if from < s.len() && !is_space(s[from]) {
        lemma_word_end(s, from + 1);
    }
}

/// The words of `s` from `from` on: the longest stretches without white
/// space.
pub open spec fn words_from(s: Seq<char>, from: int) -> Seq<Seq<char>>
    decreases s.len() - from,
{
    if 0 <= from <= s.len() {
        let start = trim_lo(s, from, s.len() as int);
        if start < s.len() {
            proof {
                lemma_trim_lo_bounds(s, from, s.len() as int);
                lemma_word_end(s, start);
            }
            seq![s.subrange(start, word_end(s, start))] + words_from(s, word_end(s, start))
        } else {
            Seq::empty()
        }
    } else {
        Seq::empty()
    }
}

/// The words of `s`: what white space separates. No word is empty.
pub open spec fn words(s: Seq<char>) -> Seq<Seq<char>> {
    words_from(s, 0)
}

/// Cuts `v` into its words.
pub fn split_words(v: &Vec<char>) -> (rows: Vec<Vec<char>>)
    ensures
        rows_view(rows@) == words(v@),
{
    let mut rows: Vec<Vec<char>> = Vec::new();
    let mut i: usize = 0;
    loop
        invariant
            i <= v.len(),
            rows_view(rows@) + words_from(v@, i as int) == words_from(v@, 0),
        ensures
            rows_view(rows@) == words(v@),
        decreases v.len() - i,
    {
        let (start, _) = trim_bounds(v, i, v.len());
        if start >= v.len() {
            assert(rows_view(rows@) + Seq::<Seq<char>>::empty() =~= rows_view(rows@));
            break;
        }
        let mut end: usize = start;
        while end < v.len() && !is_whitespace(v[end])
            invariant
                start <= end <= v.len(),
                word_end(v@, start as int) == word_end(v@, end as int),
            decreases v.len() - end,
        {
            end += 1;
        }
        proof {
            lemma_trim_lo_bounds(v@, i as int, v@.len() as int);
            lemma_word_end(v@, start as int);
        }
        let word = slice_of(v, start, end);
        proof {
            assert(rows_view(rows@.push(word)) =~= rows_view(rows@) + seq![word@]);
            assert((rows_view(rows@) + seq![word@]) + words_from(v@, end as int) =~= rows_view(rows@)
                + (seq![word@] + words_from(v@, end as int)));
        }
        rows.push(word);
        i = end;
    }
    rows
}

} // verus!
