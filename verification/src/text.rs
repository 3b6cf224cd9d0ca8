//! Character-level text handling shared by the parsers: line splitting,
//! whitespace, prefix stripping and decimal numbers, each with the meaning
//! that the standard library gives it (`str::lines`, `char::is_whitespace`,
//! `str::trim`, `str::split_whitespace`, `str::strip_prefix`, `str::parse`).

use vstd::prelude::*;

verus! {

broadcast use vstd::string::group_string_axioms;

/// The Unicode `White_Space` property, as `char::is_whitespace` tests it.
pub open spec fn is_ws(c: char) -> bool {
    let u = c as u32;
    (0x9 <= u <= 0xD) || u == 0x20 || u == 0x85 || u == 0xA0 || u == 0x1680 || (0x2000 <= u
        <= 0x200A) || u == 0x2028 || u == 0x2029 || u == 0x202F || u == 0x205F || u == 0x3000
}

/// `s` without its leading whitespace.
pub open spec fn trim_start(s: Seq<char>) -> Seq<char>
    decreases s.len(),
{
    if s.len() > 0 && is_ws(s[0]) {
        trim_start(s.drop_first())
    } else {
        s
    }
}

/// `s` without its trailing whitespace.
pub open spec fn trim_end(s: Seq<char>) -> Seq<char>
    decreases s.len(),
{
    if s.len() > 0 && is_ws(s.last()) {
        trim_end(s.drop_last())
    } else {
        s
    }
}

/// `s` without leading and trailing whitespace (`str::trim`).
pub open spec fn trim(s: Seq<char>) -> Seq<char> {
    trim_end(trim_start(s))
}

/// Index of the first `'\n'` at or after `i`, or `s.len()` when there is none.
pub open spec fn line_end(s: Seq<char>, i: int) -> int
    decreases s.len() - i,
{
    if i >= s.len() {
        s.len() as int
    } else if s[i] == '\n' {
        i
    } else {
        line_end(s, i + 1)
    }
}

/// `l` without one trailing `'\r'`.
pub open spec fn strip_cr(l: Seq<char>) -> Seq<char> {
    if l.len() > 0 && l.last() == '\r' {
        l.drop_last()
    } else {
        l
    }
}

/// The lines of `s` starting at index `i`: split at `'\n'`; a line that ended
/// in `"\r\n"` loses the `'\r'`; a final `'\n'` does not start an empty line.
pub open spec fn lines_from(s: Seq<char>, i: int) -> Seq<Seq<char>>
    decreases s.len() - i,
    via lines_from_decreases
{
    if i < 0 || i >= s.len() {
        Seq::empty()
    } else {
        let e = line_end(s, i);
        if e < s.len() {
            seq![strip_cr(s.subrange(i, e))] + lines_from(s, e + 1)
        } else {
            seq![s.subrange(i, e)]
        }
    }
}

#[via_fn]
proof fn lines_from_decreases(s: Seq<char>, i: int) {
    if 0 <= i < s.len() {
        lemma_line_end_bounds(s, i);
    }
}

/// `str::lines`.
pub open spec fn lines(s: Seq<char>) -> Seq<Seq<char>> {
    lines_from(s, 0)
}

/// Index of the first whitespace character at or after `i`, or `s.len()`.
pub open spec fn word_end(s: Seq<char>, i: int) -> int
    decreases s.len() - i,
{
    if i >= s.len() {
        s.len() as int
    } else if is_ws(s[i]) {
        i
    } else {
        word_end(s, i + 1)
    }
}

/// The first whitespace-delimited word of `s` (`split_whitespace().next()`).
pub open spec fn first_word(s: Seq<char>) -> Option<Seq<char>> {
    let t = trim_start(s);
    if t.len() == 0 {
        None
    } else {
        Some(t.subrange(0, word_end(t, 0)))
    }
}

/// Whether `s` begins with `p`.
pub open spec fn has_prefix(s: Seq<char>, p: Seq<char>) -> bool {
    p.len() <= s.len() && s.subrange(0, p.len() as int) == p
}

/// Whether `s` ends with `p`.
pub open spec fn has_suffix(s: Seq<char>, p: Seq<char>) -> bool {
    p.len() <= s.len() && s.subrange(s.len() - p.len(), s.len() as int) == p
}

pub open spec fn is_digit(c: char) -> bool {
    '0' <= c <= '9'
}

/// The value of a string of decimal digits.
pub open spec fn digits_value(s: Seq<char>) -> int
    decreases s.len(),
{
    if s.len() == 0 {
        0
    } else {
        digits_value(s.drop_last()) * 10 + (s.last() as int - '0' as int)
    }
}

/// The digits of an unsigned decimal literal: an optional `'+'` dropped.
pub open spec fn unsigned_digits(s: Seq<char>) -> Seq<char> {
    if s.len() > 0 && s[0] == '+' {
        s.drop_first()
    } else {
        s
    }
}

/// What `str::parse` gives for an unsigned integer type whose largest value is
/// `max`: an optional `'+'`, then at least one decimal digit and nothing else,
/// and a value no larger than `max`.
pub open spec fn parse_unsigned(s: Seq<char>, max: int) -> Option<int> {
    let d = unsigned_digits(s);
    if d.len() > 0 && (forall|i: int| 0 <= i < d.len() ==> is_digit(#[trigger] d[i]))
        && digits_value(d) <= max {
        Some(digits_value(d))
    } else {
        None
    }
}

/// The characters of `s`, in order.
pub fn chars_of(s: &str) -> (v: Vec<char>)
    ensures
        v@ == s@,
{
    let mut v: Vec<char> = Vec::new();
    for c in it: s.chars()
        invariant
            v@ == it.seq().take(it.index() as int),
    {
        v.push(c);
    }
    assert(v@ =~= s@);
    v
}

/// `char::is_whitespace`.
pub fn is_whitespace_char(c: char) -> (b: bool)
    ensures
        b == is_ws(c),
{
    let u = c as u32;
    (0x9 <= u && u <= 0xD) || u == 0x20 || u == 0x85 || u == 0xA0 || u == 0x1680 || (0x2000 <= u
        && u <= 0x200A) || u == 0x2028 || u == 0x2029 || u == 0x202F || u == 0x205F || u == 0x3000
}

/// Leading whitespace that is skipped first does not change what trimming
/// the start gives.
pub proof fn lemma_trim_start_skip(s: Seq<char>, from: int, lo: int)
    requires
        0 <= from <= lo <= s.len(),
        forall|k: int| from <= k < lo ==> is_ws(s[k]),
    ensures
        trim_start(s.subrange(from, s.len() as int)) == trim_start(s.subrange(lo, s.len() as int)),
    decreases lo - from,
{
    if from < lo {
        assert(s.subrange(from, s.len() as int).drop_first() =~= s.subrange(
            from + 1,
            s.len() as int,
        ));
        lemma_trim_start_skip(s, from + 1, lo);
    }
}

proof fn lemma_trim_end_skip(s: Seq<char>, hi: int, to: int)
    requires
        0 <= hi <= to <= s.len(),
        forall|k: int| hi <= k < to ==> is_ws(s[k]),
    ensures
        trim_end(s.subrange(0, to)) == trim_end(s.subrange(0, hi)),
    decreases to - hi,
{
    if hi < to {
        assert(s.subrange(0, to).drop_last() =~= s.subrange(0, to - 1));
        lemma_trim_end_skip(s, hi, to - 1);
    }
}

/// The bounds of `trim(s[from..to])` within `s`.
pub fn trim_bounds(s: &Vec<char>, from: usize, to: usize) -> (r: (usize, usize))
    requires
        from <= to <= s@.len(),
    ensures
        from <= r.0 <= r.1 <= to,
        s@.subrange(r.0 as int, r.1 as int) == trim(s@.subrange(from as int, to as int)),
{
    let ghost t = s@.subrange(from as int, to as int);
    let mut lo = from;
    while lo < to && is_whitespace_char(s[lo])
        invariant
            from <= lo <= to <= s@.len(),
            forall|k: int| from <= k < lo ==> is_ws(s@[k]),
        decreases to - lo,
    {
        lo = lo + 1;
    }
    proof {
        lemma_trim_start_skip(t, 0, lo - from);
        assert(t.subrange(0, t.len() as int) =~= t);
        let u = t.subrange(lo - from, t.len() as int);
        if u.len() > 0 {
            assert(u[0] == s@[lo as int]);
        }
        assert(trim_start(t) == u);
    }
    let mut hi = to;
    while hi > lo && is_whitespace_char(s[hi - 1])
        invariant
            from <= lo <= hi <= to <= s@.len(),
            forall|k: int| hi <= k < to ==> is_ws(s@[k]),
        decreases hi - lo,
    {
        hi = hi - 1;
    }
    proof {
        let u = s@.subrange(lo as int, to as int);
        lemma_trim_end_skip(u, hi - lo, to - lo);
        assert(u.subrange(0, to - lo) =~= u);
        let w = u.subrange(0, hi - lo);
        if w.len() > 0 {
            assert(w.last() == s@[hi - 1]);
        }
        assert(trim_end(w) == w);
        assert(w =~= s@.subrange(lo as int, hi as int));
        assert(t.subrange(lo - from, t.len() as int) =~= u);
    }
    (lo, hi)
}

/// A line ends within the text, at a newline or at the end, and holds no
/// newline before that.
pub proof fn lemma_line_end_bounds(s: Seq<char>, i: int)
    requires
        0 <= i <= s.len(),
    ensures
        i <= line_end(s, i) <= s.len(),
        line_end(s, i) < s.len() ==> s[line_end(s, i)] == '\n',
        forall|k: int| i <= k < line_end(s, i) ==> s[k] != '\n',
    decreases s.len() - i,
{
    if i < s.len() && s[i] != '\n' {
        lemma_line_end_bounds(s, i + 1);
    }
}

proof fn lemma_line_end_scan(s: Seq<char>, i: int, j: int)
    requires
        0 <= i <= j <= s.len(),
        forall|k: int| i <= k < j ==> s[k] != '\n',
    ensures
        line_end(s, i) == line_end(s, j),
    decreases j - i,
{
    if i < j {
        lemma_line_end_scan(s, i + 1, j);
    }
}

/// The bounds of the lines of `s` (`str::lines`), in order.
pub fn line_bounds(s: &Vec<char>) -> (r: Vec<(usize, usize)>)
    ensures
        r@.len() == lines(s@).len(),
        forall|k: int|
            0 <= k < r@.len() ==> 0 <= (#[trigger] r@[k]).0 <= r@[k].1 <= s@.len() && s@.subrange(
                r@[k].0 as int,
                r@[k].1 as int,
            ) == lines(s@)[k],
{
    let mut r: Vec<(usize, usize)> = Vec::new();
    let mut pos: usize = 0;
    let n = s.len();
    while pos < n
        invariant
            n == s@.len(),
            0 <= pos <= n,
            lines(s@) == Seq::new(r@.len(), |k: int| s@.subrange(r@[k].0 as int, r@[k].1 as int))
                + lines_from(s@, pos as int),
            forall|k: int|
                0 <= k < r@.len() ==> 0 <= (#[trigger] r@[k]).0 <= r@[k].1 <= s@.len(),
        decreases n - pos,
    {
        let mut e = pos;
        while e < n && s[e] != '\n'
            invariant
                n == s@.len(),
                pos <= e <= n,
                forall|k: int| pos <= k < e ==> s@[k] != '\n',
            decreases n - e,
        {
            e = e + 1;
        }
        proof {
            lemma_line_end_scan(s@, pos as int, e as int);
        }
        let ghost before = r@;
        let ghost rest = lines_from(s@, pos as int);
        let next: usize;
        if e < n {
            if e > pos && s[e - 1] == '\r' {
                r.push((pos, e - 1));
                assert(s@.subrange(pos as int, e - 1) =~= strip_cr(s@.subrange(pos as int, e as int)));
            } else {
                r.push((pos, e));
                assert(s@.subrange(pos as int, e as int) =~= strip_cr(s@.subrange(pos as int, e as int)));
            }
            next = e + 1;
        } else {
            r.push((pos, e));
            next = e;
        }
        proof {
            assert(rest == seq![rest[0]] + lines_from(s@, e + 1));
            if e >= n {
                assert(lines_from(s@, e + 1) =~= Seq::<Seq<char>>::empty());
                assert(lines_from(s@, next as int) =~= Seq::<Seq<char>>::empty());
            }
            assert(Seq::new(r@.len(), |k: int| s@.subrange(r@[k].0 as int, r@[k].1 as int)) =~= Seq::new(
                before.len(),
                |k: int| s@.subrange(before[k].0 as int, before[k].1 as int),
            ).push(rest[0]));
            assert(lines(s@) =~= Seq::new(
                r@.len(),
                |k: int| s@.subrange(r@[k].0 as int, r@[k].1 as int),
            ) + lines_from(s@, next as int));
        }
        pos = next;
    }
    proof {
        assert(lines_from(s@, pos as int) =~= Seq::<Seq<char>>::empty());
        assert forall|k: int| 0 <= k < r@.len() implies s@.subrange(
            r@[k].0 as int,
            r@[k].1 as int,
        ) == lines(s@)[k] by {
            assert(lines(s@)[k] == Seq::new(
                r@.len(),
                |k: int| s@.subrange(r@[k].0 as int, r@[k].1 as int),
            )[k]);
        }
    }
    r
}

proof fn lemma_word_end_scan(s: Seq<char>, i: int, j: int)
    requires
        0 <= i <= j <= s.len(),
        forall|k: int| i <= k < j ==> !is_ws(s[k]),
    ensures
        word_end(s, i) == word_end(s, j),
    decreases j - i,
{
    if i < j {
        lemma_word_end_scan(s, i + 1, j);
    }
}

/// The bounds of the first whitespace-delimited word of `s[from..to]`.
pub fn first_word_bounds(s: &Vec<char>, from: usize, to: usize) -> (r: Option<(usize, usize)>)
    requires
        from <= to <= s@.len(),
    ensures
        r is None <==> first_word(s@.subrange(from as int, to as int)) is None,
        r matches Some(b) ==> from <= b.0 <= b.1 <= to && s@.subrange(b.0 as int, b.1 as int)
            == first_word(s@.subrange(from as int, to as int))->0,
        r matches Some(b) ==> (forall|k: int| from <= k < b.0 ==> is_ws(s@[k])) && b.0 < b.1 && !is_ws(
            s@[b.0 as int],
        ) && (forall|k: int| b.0 <= k < b.1 ==> !is_ws(#[trigger] s@[k])) && (b.1 == to || is_ws(
            s@[b.1 as int],
        )),
        r is None ==> forall|k: int| from <= k < to ==> is_ws(s@[k]),
{
    let ghost t = s@.subrange(from as int, to as int);
    let mut lo = from;
    while lo < to && is_whitespace_char(s[lo])
        invariant
            from <= lo <= to <= s@.len(),
            forall|k: int| from <= k < lo ==> is_ws(s@[k]),
        decreases to - lo,
    {
        lo = lo + 1;
    }
    proof {
        lemma_trim_start_skip(t, 0, lo - from);
        assert(t.subrange(0, t.len() as int) =~= t);
        let u = t.subrange(lo - from, t.len() as int);
        if u.len() > 0 {
            assert(u[0] == s@[lo as int]);
        }
        assert(trim_start(t) == u);
        assert(u =~= s@.subrange(lo as int, to as int));
    }
    if lo == to {
        return None;
    }
    let mut hi = lo;
    while hi < to && !is_whitespace_char(s[hi])
        invariant
            from <= lo <= hi <= to <= s@.len(),
            forall|k: int| lo <= k < hi ==> !is_ws(s@[k]),
        decreases to - hi,
    {
        hi = hi + 1;
    }
    proof {
        let u = s@.subrange(lo as int, to as int);
        lemma_word_end_scan(u, 0, hi - lo);
        if hi < to {
            assert(u[hi - lo] == s@[hi as int]);
        }
        assert(word_end(u, hi - lo) == hi - lo);
        assert(u.subrange(0, hi - lo) =~= s@.subrange(lo as int, hi as int));
    }
    Some((lo, hi))
}

/// Whether `s[from..to]` begins with `p`.
pub fn starts_with_at(s: &Vec<char>, from: usize, to: usize, p: &[char]) -> (b: bool)
    requires
        from <= to <= s@.len(),
    ensures
        b == has_prefix(s@.subrange(from as int, to as int), p@),
{
    let plen = p.len();
    if plen > to - from {
        return false;
    }
    let mut i: usize = 0;
    while i < plen
        invariant
            from <= to <= s@.len(),
            plen == p@.len(),
            plen <= to - from,
            0 <= i <= plen,
            forall|k: int| 0 <= k < i ==> s@[from + k] == p@[k],
        decreases plen - i,
    {
        if s[from + i] != p[i] {
            assert(s@.subrange(from as int, to as int).subrange(0, plen as int)[i as int] != p@[i as int]);
            return false;
        }
        i = i + 1;
    }
    assert(s@.subrange(from as int, to as int).subrange(0, plen as int) =~= p@);
    true
}

proof fn lemma_digits_value_prefix(d: Seq<char>, i: int)
    requires
        0 <= i <= d.len(),
        forall|k: int| 0 <= k < d.len() ==> is_digit(#[trigger] d[k]),
    ensures
        digits_value(d.subrange(0, i)) <= digits_value(d),
        digits_value(d) >= 0,
    decreases d.len() - i,
{
    if i < d.len() {
        lemma_digits_value_prefix(d, i + 1);
        let a = d.subrange(0, i + 1);
        assert(a.drop_last() =~= d.subrange(0, i));
        lemma_digits_value_nonneg(d.subrange(0, i));
    } else {
        assert(d.subrange(0, i) =~= d);
        lemma_digits_value_nonneg(d);
    }
}

proof fn lemma_digits_value_nonneg(d: Seq<char>)
    requires
        forall|k: int| 0 <= k < d.len() ==> is_digit(#[trigger] d[k]),
    ensures
        digits_value(d) >= 0,
    decreases d.len(),
{
    if d.len() > 0 {
        lemma_digits_value_nonneg(d.drop_last());
    }
}

/// `str::parse` of `s[from..to]` into an unsigned integer no larger than `max`.
pub fn parse_unsigned_at(s: &Vec<char>, from: usize, to: usize, max: u64) -> (r: Option<u64>)
    requires
        from <= to <= s@.len(),
    ensures
        r is Some <==> parse_unsigned(s@.subrange(from as int, to as int), max as int) is Some,
        r matches Some(v) ==> v == parse_unsigned(s@.subrange(from as int, to as int), max as int)->0,
{
    let ghost t = s@.subrange(from as int, to as int);
    let mut start = from;
    if from < to && s[from] == '+' {
        start = from + 1;
    }
    let ghost d = unsigned_digits(t);
    assert(d =~= s@.subrange(start as int, to as int));
    if start == to {
        return None;
    }
    let mut acc: u64 = 0;
    let mut i = start;
    while i < to
        invariant
            from <= start < to <= s@.len(),
            start <= i <= to,
            d == s@.subrange(start as int, to as int),
            d == unsigned_digits(s@.subrange(from as int, to as int)),
            acc <= max,
            forall|k: int| start <= k < i ==> is_digit(#[trigger] s@[k]),
            acc == digits_value(d.subrange(0, i - start)),
        decreases to - i,
    {
        let c = s[i];
        if !('0' <= c && c <= '9') {
            assert(!is_digit(d[i - start]));
            return None;
        }
        let digit = (c as u32 - '0' as u32) as u64;
        assert(d.subrange(0, i + 1 - start).drop_last() =~= d.subrange(0, i - start));
        if digit > max || acc > (max - digit) / 10 {
            proof {
                assert(acc * 10 + digit > max) by (nonlinear_arith)
                    requires
                        digit > max || acc > (max - digit) / 10,
                        acc >= 0,
                        digit <= 9,
                ;
                if forall|k: int| 0 <= k < d.len() ==> is_digit(#[trigger] d[k]) {
                    lemma_digits_value_prefix(d, i + 1 - start);
                }
            }
            return None;
        }
        acc = acc * 10 + digit;
        i = i + 1;
    }
    assert(d.subrange(0, d.len() as int) =~= d);
    Some(acc)
}

/// Whether `s[from..to]` ends with `p`.
pub fn ends_with_at(s: &Vec<char>, from: usize, to: usize, p: &[char]) -> (b: bool)
    requires
        from <= to <= s@.len(),
    ensures
        b == has_suffix(s@.subrange(from as int, to as int), p@),
{
    let plen = p.len();
    if plen > to - from {
        return false;
    }
    let r = starts_with_at(s, to - plen, to, p);
    assert(s@.subrange(to - plen, to as int).subrange(0, plen as int) =~= s@.subrange(
        from as int,
        to as int,
    ).subrange(to - plen - from, to - from));
    r
}

/// Calls `String::push`, which appends `c`.
#[verifier::external_body]
pub(crate) fn string_push(s: &mut String, c: char)
    ensures
        final(s)@ == old(s)@.push(c),
{
    s.push(c)
}

/// The decimal digits of `n`, most significant first, without leading zeros
/// (`"0"` for zero): what `Display` writes for an unsigned integer.
pub open spec fn decimal(n: nat) -> Seq<char>
    decreases n,
{
    if n < 10 {
        seq![(n + 0x30) as char]
    } else {
        decimal(n / 10).push(((n % 10) + 0x30) as char)
    }
}

/// `n.to_string()`.
pub fn decimal_string(n: u32) -> (s: String)
    ensures
        s@ == decimal(n as nat),
{
    let mut digits: Vec<char> = Vec::new();
    let mut m: u32 = n;
    // digits of n, least significant first
    while m >= 10
        invariant
            decimal(n as nat) == decimal(m as nat) + digits@.reverse(),
        decreases m,
    {
        let d = ((m % 10) as u8 + 0x30) as char;
        proof {
            assert(decimal(m as nat) == decimal((m / 10) as nat).push(d));
            assert(decimal((m / 10) as nat).push(d) + digits@.reverse() =~= decimal((m / 10) as nat)
                + digits@.push(d).reverse());
        }
        digits.push(d);
        m = m / 10;
    }
    let mut s = String::new();
    string_push(&mut s, ((m as u8) + 0x30) as char);
    assert(s@ =~= decimal(m as nat));
    let mut i: usize = digits.len();
    while i > 0
        invariant
            0 <= i <= digits@.len(),
            decimal(n as nat) == s@ + digits@.subrange(0, i as int).reverse(),
        decreases i,
    {
        let c = digits[i - 1];
        proof {
            assert(s@ + digits@.subrange(0, i as int).reverse() =~= s@.push(c) + digits@.subrange(
                0,
                i - 1,
            ).reverse());
        }
        string_push(&mut s, c);
        i = i - 1;
    }
    assert(digits@.subrange(0, 0).reverse() =~= Seq::<char>::empty());
    assert(s@ + Seq::<char>::empty() =~= s@);
    s
}


proof fn lemma_decimal_digits(n: nat)
    ensures
        decimal(n).len() > 0,
        forall|i: int| 0 <= i < decimal(n).len() ==> is_digit(#[trigger] decimal(n)[i]),
        digits_value(decimal(n)) == n,
    decreases n,
{
    if n < 10 {
        let c = (n + 0x30) as char;
        assert(c as int == n + 0x30);
        assert(decimal(n).drop_last() =~= Seq::<char>::empty());
        assert(digits_value(decimal(n)) == digits_value(Seq::<char>::empty()) * 10 + (c as int - '0' as int));
    } else {
        lemma_decimal_digits(n / 10);
        let d = decimal(n / 10);
        let c = ((n % 10) + 0x30) as char;
        assert(c as int == n % 10 + 0x30);
        assert(decimal(n) == d.push(c));
        assert(d.push(c).drop_last() =~= d);
        assert(digits_value(decimal(n)) == digits_value(d) * 10 + (n % 10));
        assert((n / 10) * 10 + n % 10 == n);
        assert forall|i: int| 0 <= i < decimal(n).len() implies is_digit(#[trigger] decimal(n)[i]) by {
            if i < d.len() {
                assert(decimal(n)[i] == d[i]);
            }
        }
    }
}

/// Writing a number in decimal and reading it back gives the number:
/// `n.to_string().parse()` is `Ok(n)` for every `n` no larger than the type's
/// largest value.
pub proof fn lemma_decimal_parses_back(n: nat, max: int)
    requires
        n <= max,
    ensures
        parse_unsigned(decimal(n), max) == Some(n as int),
{
    lemma_decimal_digits(n);
    assert(decimal(n)[0] != '+');
    assert(unsigned_digits(decimal(n)) == decimal(n));
}

} // verus!
