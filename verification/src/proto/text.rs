//! Character-level helpers for the small text formats the crate reads: config
//! lines, control names, sysfs ids.
use vstd::prelude::*;

verus! {

broadcast use vstd::string::group_string_axioms;

/// The characters of `s`.
pub fn chars_of(s: &str) -> (r: Vec<char>)
    ensures
        r@ == s@,
{
    let mut v: Vec<char> = Vec::new();
    for c in it: s.chars()
        invariant
            v@ == it.seq().take(it.index() as int),
    {
        v.push(c);
    }
    assert(v@ =~= s@);
    v
}

/// True when the characters of `a` are exactly those of `lit`.
pub fn eq_lit(a: &Vec<char>, lit: &str) -> (r: bool)
    ensures
        r == (a@ == lit@),
{
    let b = chars_of(lit);
    if a.len() != b.len() {
        return false;
    }
    let mut i: usize = 0;
    while i < a.len()
        invariant
            i <= a@.len(),
            a@.len() == b@.len(),
            b@ == lit@,
            forall|k: int| 0 <= k < i ==> a@[k] == b@[k],
        decreases a.len() - i,
    {
        if a[i] != b[i] {
            return false;
        }
        i += 1;
    }
    assert(a@ =~= b@);
    true
}

/// True when `s` equals `lit` character for character.
pub fn str_eq(s: &str, lit: &str) -> (r: bool)
    ensures
        r == (s@ == lit@),
{
    let v = chars_of(s);
    eq_lit(&v, lit)
}

/// The string holding exactly the characters of `v` (std's `FromIterator<char>`
/// for `String`: the characters in order).
#[verifier::external_body]
pub fn chars_to_string(v: &Vec<char>) -> (r: String)
    ensures
        r@ == v@,
{
    v.iter().collect()
}

/// Append the characters of `lit`.
pub fn push_lit(out: &mut Vec<char>, lit: &str)
    ensures
        final(out)@ == old(out)@ + lit@,
{
    let l = chars_of(lit);
    push_range(out, &l, 0, l.len());
    assert(l@.subrange(0, l@.len() as int) =~= l@);
}

/// Append `src[from..to]`.
pub fn push_range(out: &mut Vec<char>, src: &Vec<char>, from: usize, to: usize)
    requires
        from <= to <= src@.len(),
    ensures
        final(out)@ == old(out)@ + src@.subrange(from as int, to as int),
{
    let ghost start = out@;
    let mut i = from;
    while i < to
        invariant
            from <= i <= to,
            to <= src@.len(),
            out@ == start + src@.subrange(from as int, i as int),
        decreases to - i,
    {
        out.push(src[i]);
        i += 1;
        assert(out@ =~= start + src@.subrange(from as int, i as int));
    }
}

/// True when `lit` occurs in `v` at position `at`.
pub fn lit_at(v: &Vec<char>, at: usize, lit: &str) -> (r: bool)
    ensures
        r == (at + lit@.len() <= v@.len() && v@.subrange(at as int, at + lit@.len()) == lit@),
{
    let l = chars_of(lit);
    if at > v.len() || v.len() - at < l.len() {
        return false;
    }
    let mut i: usize = 0;
    while i < l.len()
        invariant
            i <= l@.len(),
            at + l@.len() <= v@.len(),
            at + l.len() <= v.len(),
            l@ == lit@,
            forall|k: int| 0 <= k < i ==> v@[at + k] == l@[k],
        decreases l.len() - i,
    {
        if v[at + i] != l[i] {
            assert(v@.subrange(at as int, at + l@.len())[i as int] != l@[i as int]);
            return false;
        }
        i += 1;
    }
    assert(v@.subrange(at as int, at + l@.len()) =~= l@);
    true
}

/// `s` begins with `p`.
pub open spec fn has_prefix(s: Seq<char>, p: Seq<char>) -> bool {
    p.len() <= s.len() && s.subrange(0, p.len() as int) == p
}

/// `c` is a decimal digit.
pub open spec fn is_digit(c: char) -> bool {
    '0' <= c <= '9'
}

/// Every character of `s` is a decimal digit.
pub open spec fn all_digits(s: Seq<char>) -> bool {
    forall|k: int| 0 <= k < s.len() ==> is_digit(#[trigger] s[k])
}

/// The decimal value of a digit string.
pub open spec fn dec_value(s: Seq<char>) -> int
    decreases s.len(),
{
    if s.len() == 0 {
        0
    } else {
        dec_value(s.drop_last()) * 10 + (s.last() as int - '0' as int)
    }
}

/// What std's `FromStr` gives for an unsigned integer no larger than `max`: an
/// optional leading `+`, then one or more decimal digits, whose value fits.
pub open spec fn spec_parse_unsigned(s: Seq<char>, max: int) -> Option<int> {
    let d = if s.len() > 0 && s[0] == '+' { s.drop_first() } else { s };
    if d.len() == 0 || !all_digits(d) || dec_value(d) > max {
        None
    } else {
        Some(dec_value(d))
    }
}

/// A digit string's value is non-negative.
pub proof fn lemma_dec_value_nonneg(s: Seq<char>)
    requires
        all_digits(s),
    ensures
        dec_value(s) >= 0,
    decreases s.len(),
{
    if s.len() > 0 {
        assert(is_digit(s[s.len() - 1]));
        assert forall|k: int| 0 <= k < s.drop_last().len() implies is_digit(#[trigger] s.drop_last()[k]) by {
            assert(s.drop_last()[k] == s[k]);
        }
        lemma_dec_value_nonneg(s.drop_last());
    }
}

/// Appending a digit never lowers the value.
pub proof fn lemma_dec_value_grows(s: Seq<char>, k: int)
    requires
        all_digits(s),
        0 <= k <= s.len(),
    ensures
        dec_value(s.subrange(0, k)) <= dec_value(s),
    decreases s.len() - k,
{
    if k < s.len() {
        lemma_dec_value_grows(s, k + 1);
        let t = s.subrange(0, k + 1);
        assert(t.drop_last() =~= s.subrange(0, k));
        assert(is_digit(s[k]));
        assert forall|j: int| 0 <= j < s.subrange(0, k).len() implies is_digit(#[trigger] s.subrange(0, k)[j]) by {
            assert(s.subrange(0, k)[j] == s[j]);
        }
        lemma_dec_value_nonneg(s.subrange(0, k));
    } else {
        assert(s.subrange(0, k) =~= s);
    }
}

/// Parse `v[from..to]` as an unsigned decimal no larger than `max` (see
/// [`spec_parse_unsigned`]).
pub fn parse_unsigned(v: &Vec<char>, from: usize, to: usize, max: u32) -> (r: Option<u32>)
    requires
        from <= to <= v@.len(),
    ensures
        match r {
            Some(n) => spec_parse_unsigned(v@.subrange(from as int, to as int), max as int) == Some(n as int),
            None => spec_parse_unsigned(v@.subrange(from as int, to as int), max as int) is None,
        },
{
    let ghost s = v@.subrange(from as int, to as int);
    let start: usize = if from < to && v[from] == '+' { from + 1 } else { from };
    let ghost d = v@.subrange(start as int, to as int);
    assert(d =~= (if s.len() > 0 && s[0] == '+' { s.drop_first() } else { s }));
    if start == to {
        return None;
    }
    let mut acc: u64 = 0;
    let mut i = start;
    while i < to
        invariant
            from <= start <= i <= to,
            to <= v@.len(),
            s == v@.subrange(from as int, to as int),
            d == (if s.len() > 0 && s[0] == '+' { s.drop_first() } else { s }),
            d == v@.subrange(start as int, to as int),
            all_digits(v@.subrange(start as int, i as int)),
            acc == dec_value(v@.subrange(start as int, i as int)),
            acc <= max,
        decreases to - i,
    {
        let c = v[i];
        if !('0' <= c && c <= '9') {
            assert(!is_digit(d[i - start]));
            return None;
        }
        let digit = (c as u32 - '0' as u32) as u64;
        let next = acc * 10 + digit;
        assert(v@.subrange(start as int, i + 1).drop_last() =~= v@.subrange(start as int, i as int));
        if next > max as u64 {
            proof {
                if all_digits(d) {
                    lemma_dec_value_grows(d, i + 1 - start);
                    assert(d.subrange(0, i + 1 - start) =~= v@.subrange(start as int, i + 1));
                }
            }
            return None;
        }
        acc = next;
        i += 1;
    }
    assert(v@.subrange(start as int, to as int) =~= d);
    Some(acc as u32)
}

/// The decimal digit character of `d` (0 to 9).
pub open spec fn digit_char(d: int) -> char {
    if d == 0 {
        '0'
    } else if d == 1 {
        '1'
    } else if d == 2 {
        '2'
    } else if d == 3 {
        '3'
    } else if d == 4 {
        '4'
    } else if d == 5 {
        '5'
    } else if d == 6 {
        '6'
    } else if d == 7 {
        '7'
    } else if d == 8 {
        '8'
    } else {
        '9'
    }
}

/// Decimal digits of `n` (no sign, no leading zeros).
pub open spec fn decimal(n: nat) -> Seq<char>
    decreases n,
{
    if n < 10 {
        seq![digit_char(n as int)]
    } else {
        decimal(n / 10).push(digit_char((n % 10) as int))
    }
}

fn digit_char_exec(d: u64) -> (r: char)
    requires
        d < 10,
    ensures
        r == digit_char(d as int),
{
    if d == 0 {
        '0'
    } else if d == 1 {
        '1'
    } else if d == 2 {
        '2'
    } else if d == 3 {
        '3'
    } else if d == 4 {
        '4'
    } else if d == 5 {
        '5'
    } else if d == 6 {
        '6'
    } else if d == 7 {
        '7'
    } else if d == 8 {
        '8'
    } else {
        '9'
    }
}

/// Append the decimal digits of `n`.
pub fn push_decimal(out: &mut Vec<char>, n: u64)
    ensures
        final(out)@ == old(out)@ + decimal(n as nat),
    decreases n,
{
    if n >= 10 {
        push_decimal(out, n / 10);
    }
    out.push(digit_char_exec(n % 10));
    assert(final(out)@ =~= old(out)@ + decimal(n as nat));
}

/// `s` ends with `p`.
pub open spec fn has_suffix(s: Seq<char>, p: Seq<char>) -> bool {
    p.len() <= s.len() && s.subrange(s.len() - p.len(), s.len() as int) == p
}

// ---- lines -----------------------------------------------------------------

/// `s` with every `\r\n` replaced by `\n` (scanning left to right).
pub open spec fn spec_crlf_to_lf(s: Seq<char>) -> Seq<char>
    decreases s.len(),
{
    if s.len() == 0 {
        s
    } else if s.len() >= 2 && s[0] == '\r' && s[1] == '\n' {
        seq!['\n'] + spec_crlf_to_lf(s.subrange(2, s.len() as int))
    } else {
        seq![s[0]] + spec_crlf_to_lf(s.drop_first())
    }
}

/// `s` with every `\n` replaced by `\r\n`.
pub open spec fn spec_lf_to_crlf(s: Seq<char>) -> Seq<char>
    decreases s.len(),
{
    if s.len() == 0 {
        s
    } else if s[0] == '\n' {
        seq!['\r', '\n'] + spec_lf_to_crlf(s.drop_first())
    } else {
        seq![s[0]] + spec_lf_to_crlf(s.drop_first())
    }
}

/// Turning `\n` into `\r\n` and back gives the text back.
pub proof fn lemma_crlf_roundtrip(x: Seq<char>)
    ensures
        spec_crlf_to_lf(spec_lf_to_crlf(x)) == x,
    decreases x.len(),
{
    if x.len() > 0 {
        let x1 = x.drop_first();
        lemma_crlf_roundtrip(x1);
        let t = spec_lf_to_crlf(x1);
        let y = spec_lf_to_crlf(x);
        if x[0] == '\n' {
            assert(y == seq!['\r', '\n'] + t);
            assert(y.subrange(2, y.len() as int) =~= t);
        } else {
            assert(y == seq![x[0]] + t);
            assert(y.drop_first() =~= t);
            if t.len() > 0 {
                if x1[0] == '\n' {
                    assert(t == seq!['\r', '\n'] + spec_lf_to_crlf(x1.drop_first()));
                    assert(t[0] == '\r');
                } else {
                    assert(t == seq![x1[0]] + spec_lf_to_crlf(x1.drop_first()));
                }
            }
            assert(!(y.len() >= 2 && y[0] == '\r' && y[1] == '\n'));
        }
        assert(seq![x[0]] + x1 =~= x);
    }
}

/// A text holds whatever a part of it holds.
pub proof fn lemma_contains_within(a: Seq<char>, y: Seq<char>, c: Seq<char>, p: Seq<char>)
    requires
        contains_sub(y, p),
    ensures
        contains_sub(a + y + c, p),
{
    let i = choose|i: int| 0 <= i && i + p.len() <= y.len() && #[trigger] y.subrange(i, i + p.len()) == p;
    assert((a + y + c).subrange(a.len() + i, a.len() + i + p.len()) =~= y.subrange(i, i + p.len()));
}

/// Every text holds itself.
pub proof fn lemma_contains_self(p: Seq<char>)
    ensures
        contains_sub(p, p),
{
    let i: int = 0;
    assert(p.subrange(i, i + p.len()) =~= p);
}

/// `p` has neither `\r` nor `\n`.
pub open spec fn no_line_ends(p: Seq<char>) -> bool {
    forall|k: int| 0 <= k < p.len() ==> #[trigger] p[k] != '\r' && p[k] != '\n'
}

/// Text without `\r` passes through `crlf_to_lf` unchanged in front of the rest.
pub proof fn lemma_crlf_to_lf_prefix(p: Seq<char>, rest: Seq<char>)
    requires
        no_line_ends(p),
    ensures
        spec_crlf_to_lf(p + rest) == p + spec_crlf_to_lf(rest),
    decreases p.len(),
{
    if p.len() > 0 {
        let p1 = p.drop_first();
        assert(p[0] != '\r');
        assert((p + rest).drop_first() =~= p1 + rest);
        assert forall|k: int| 0 <= k < p1.len() implies #[trigger] p1[k] != '\r' && p1[k] != '\n' by {
            assert(p1[k] == p[k + 1]);
        }
        lemma_crlf_to_lf_prefix(p1, rest);
        assert(seq![p[0]] + (p1 + spec_crlf_to_lf(rest)) =~= p + spec_crlf_to_lf(rest));
    } else {
        assert(p + rest =~= rest);
        assert(p + spec_crlf_to_lf(rest) =~= spec_crlf_to_lf(rest));
    }
}

/// A piece of text without line ends survives `crlf_to_lf`.
pub proof fn lemma_crlf_to_lf_keeps(y: Seq<char>, p: Seq<char>)
    requires
        no_line_ends(p),
        contains_sub(y, p),
    ensures
        contains_sub(spec_crlf_to_lf(y), p),
    decreases y.len(),
{
    let i = choose|i: int| 0 <= i && i + p.len() <= y.len() && #[trigger] y.subrange(i, i + p.len()) == p;
    if p.len() == 0 {
        let z: int = 0;
        assert(spec_crlf_to_lf(y).subrange(z, z + p.len()) =~= p);
    } else if i == 0 {
        let rest = y.subrange(p.len() as int, y.len() as int);
        assert(y =~= p + rest);
        lemma_crlf_to_lf_prefix(p, rest);
        let z: int = 0;
        assert(spec_crlf_to_lf(y).subrange(z, z + p.len()) =~= p);
    } else if y.len() >= 2 && y[0] == '\r' && y[1] == '\n' {
        assert(i >= 2) by {
            if i == 1 {
                assert(p[0] == y[1]);
            }
        }
        let y2 = y.subrange(2, y.len() as int);
        assert(y2.subrange(i - 2, i - 2 + p.len()) =~= y.subrange(i, i + p.len()));
        lemma_crlf_to_lf_keeps(y2, p);
        lemma_contains_within(seq!['\n'], spec_crlf_to_lf(y2), seq![], p);
        assert(seq!['\n'] + spec_crlf_to_lf(y2) + seq![] =~= spec_crlf_to_lf(y));
    } else {
        let y1 = y.drop_first();
        assert(y1.subrange(i - 1, i - 1 + p.len()) =~= y.subrange(i, i + p.len()));
        lemma_crlf_to_lf_keeps(y1, p);
        lemma_contains_within(seq![y[0]], spec_crlf_to_lf(y1), seq![], p);
        assert(seq![y[0]] + spec_crlf_to_lf(y1) + seq![] =~= spec_crlf_to_lf(y));
    }
}

/// `p` occurs somewhere in `s`.
pub open spec fn contains_sub(s: Seq<char>, p: Seq<char>) -> bool {
    exists|i: int| 0 <= i && i + p.len() <= s.len() && #[trigger] s.subrange(i, i + p.len()) == p
}

/// Index of the first `\n` at or after `from`, or the length.
pub open spec fn next_nl(s: Seq<char>, from: int) -> int
    decreases s.len() - from,
{
    if from >= s.len() {
        s.len() as int
    } else if s[from] == '\n' {
        from
    } else {
        next_nl(s, from + 1)
    }
}

pub proof fn lemma_next_nl(s: Seq<char>, from: int)
    requires
        0 <= from,
    ensures
        from <= next_nl(s, from) || from > s.len(),
        next_nl(s, from) <= s.len(),
        next_nl(s, from) < s.len() ==> s[next_nl(s, from)] == '\n',
        forall|k: int| from <= k < next_nl(s, from) ==> s[k] != '\n',
    decreases s.len() - from,
{
    if from < s.len() && s[from] != '\n' {
        lemma_next_nl(s, from + 1);
    }
}

/// The lines of `s` from offset `from`, split at every `\n` (a final empty line
/// after a trailing `\n` included), as `str::split('\n')` gives them.
pub open spec fn lines_from(s: Seq<char>, from: int) -> Seq<Seq<char>>
    decreases s.len() - from,
{
    if from < 0 || from > s.len() {
        seq![]
    } else {
        let e = next_nl(s, from);
        proof {
            lemma_next_nl(s, from);
        }
        if e >= s.len() {
            seq![s.subrange(from, s.len() as int)]
        } else {
            seq![s.subrange(from, e)] + lines_from(s, e + 1)
        }
    }
}

/// The lines of `s`.
pub open spec fn split_lines(s: Seq<char>) -> Seq<Seq<char>> {
    lines_from(s, 0)
}

/// Lines joined with `\n` between them.
pub open spec fn join_lines(l: Seq<Seq<char>>) -> Seq<char>
    decreases l.len(),
{
    if l.len() == 0 {
        seq![]
    } else if l.len() == 1 {
        l[0]
    } else {
        join_lines(l.drop_last()) + seq!['\n'] + l.last()
    }
}

/// `l` without its trailing empty lines.
pub open spec fn drop_trailing_empty(l: Seq<Seq<char>>) -> Seq<Seq<char>>
    decreases l.len(),
{
    if l.len() > 0 && l.last().len() == 0 {
        drop_trailing_empty(l.drop_last())
    } else {
        l
    }
}

/// The character views of a list of lines.
pub open spec fn views(v: Seq<Vec<char>>) -> Seq<Seq<char>> {
    v.map_values(|l: Vec<char>| l@)
}

pub fn crlf_to_lf(v: &Vec<char>) -> (r: Vec<char>)
    ensures
        r@ == spec_crlf_to_lf(v@),
{
    let mut out: Vec<char> = Vec::new();
    let mut i: usize = 0;
    assert(v@.subrange(0, v@.len() as int) =~= v@);
    assert(out@ + spec_crlf_to_lf(v@) =~= spec_crlf_to_lf(v@));
    while i < v.len()
        invariant
            i <= v@.len(),
            out@ + spec_crlf_to_lf(v@.subrange(i as int, v@.len() as int)) == spec_crlf_to_lf(v@),
        decreases v.len() - i,
    {
        let ghost rest = v@.subrange(i as int, v@.len() as int);
        if i + 1 < v.len() && v[i] == '\r' && v[i + 1] == '\n' {
            assert(rest.subrange(2, rest.len() as int) =~= v@.subrange(i + 2, v@.len() as int));
            out.push('\n');
            i += 2;
        } else {
            assert(rest.drop_first() =~= v@.subrange(i + 1, v@.len() as int));
            out.push(v[i]);
            i += 1;
        }
        assert(out@ + spec_crlf_to_lf(v@.subrange(i as int, v@.len() as int)) =~= spec_crlf_to_lf(v@));
    }
    assert(v@.subrange(v@.len() as int, v@.len() as int) =~= Seq::<char>::empty());
    assert(out@ + spec_crlf_to_lf(Seq::<char>::empty()) =~= out@);
    out
}

pub fn lf_to_crlf(v: &Vec<char>) -> (r: Vec<char>)
    ensures
        r@ == spec_lf_to_crlf(v@),
{
    let mut out: Vec<char> = Vec::new();
    let mut i: usize = 0;
    assert(v@.subrange(0, v@.len() as int) =~= v@);
    assert(out@ + spec_lf_to_crlf(v@) =~= spec_lf_to_crlf(v@));
    while i < v.len()
        invariant
            i <= v@.len(),
            out@ + spec_lf_to_crlf(v@.subrange(i as int, v@.len() as int)) == spec_lf_to_crlf(v@),
        decreases v.len() - i,
    {
        let ghost rest = v@.subrange(i as int, v@.len() as int);
        assert(rest.drop_first() =~= v@.subrange(i + 1, v@.len() as int));
        if v[i] == '\n' {
            out.push('\r');
            out.push('\n');
        } else {
            out.push(v[i]);
        }
        i += 1;
        assert(out@ + spec_lf_to_crlf(v@.subrange(i as int, v@.len() as int)) =~= spec_lf_to_crlf(v@));
    }
    assert(v@.subrange(v@.len() as int, v@.len() as int) =~= Seq::<char>::empty());
    assert(out@ + spec_lf_to_crlf(Seq::<char>::empty()) =~= out@);
    out
}

/// True when `lit` occurs in `v`.
pub fn contains_lit(v: &Vec<char>, lit: &str) -> (r: bool)
    ensures
        r == contains_sub(v@, lit@),
{
    let mut i: usize = 0;
    while i < v.len()
        invariant
            i <= v@.len(),
            forall|k: int| 0 <= k < i ==> !(k + lit@.len() <= v@.len() && #[trigger] v@.subrange(k, k + lit@.len()) == lit@),
        decreases v.len() - i,
    {
        if lit_at(v, i, lit) {
            return true;
        }
        i += 1;
    }
    lit_at(v, v.len(), lit)
}

/// The lines of `v` (see [`split_lines`]).
pub fn split_lines_of(v: &Vec<char>) -> (r: Vec<Vec<char>>)
    ensures
        views(r@) == split_lines(v@),
{
    let mut lines: Vec<Vec<char>> = Vec::new();
    let mut cur: Vec<char> = Vec::new();
    let mut start: usize = 0;
    let mut i: usize = 0;
    proof {
        lemma_next_nl(v@, 0);
    }
    while i < v.len()
        invariant
            start <= i <= v@.len(),
            cur@ == v@.subrange(start as int, i as int),
            forall|k: int| start <= k < i ==> v@[k] != '\n',
            views(lines@) + lines_from(v@, start as int) == split_lines(v@),
        decreases v.len() - i,
    {
        if v[i] == '\n' {
            proof {
                lemma_next_nl_at(v@, start as int, i as int);
                lemma_next_nl(v@, start as int);
            }
            let ghost before = lines@;
            lines.push(cur);
            assert(views(lines@) =~= views(before) + seq![v@.subrange(start as int, i as int)]);
            cur = Vec::new();
            start = i + 1;
            i += 1;
            assert(cur@ =~= v@.subrange(start as int, i as int));
        } else {
            cur.push(v[i]);
            i += 1;
            assert(cur@ =~= v@.subrange(start as int, i as int));
        }
    }
    proof {
        lemma_next_nl_at(v@, start as int, v@.len() as int);
    }
    let ghost before = lines@;
    lines.push(cur);
    assert(views(lines@) =~= views(before) + seq![v@.subrange(start as int, v@.len() as int)]);
    lines
}

/// With no `\n` in `s[from..e]`, the next newline from `from` is at `e` when `s[e]`
/// is one (or `e` is the end).
pub proof fn lemma_next_nl_at(s: Seq<char>, from: int, e: int)
    requires
        0 <= from <= e <= s.len(),
        forall|k: int| from <= k < e ==> s[k] != '\n',
        e < s.len() ==> s[e] == '\n',
    ensures
        next_nl(s, from) == e,
    decreases e - from,
{
    if from < e {
        lemma_next_nl_at(s, from + 1, e);
    }
}

/// Lines joined with `\n` (see [`join_lines`]).
pub fn join_lines_of(lines: &Vec<Vec<char>>) -> (r: Vec<char>)
    ensures
        r@ == join_lines(views(lines@)),
{
    let mut out: Vec<char> = Vec::new();
    let mut i: usize = 0;
    while i < lines.len()
        invariant
            i <= lines@.len(),
            out@ == join_lines(views(lines@).take(i as int)),
        decreases lines.len() - i,
    {
        let ghost prev = views(lines@).take(i as int);
        let l = &lines[i];
        if i > 0 {
            out.push('\n');
        }
        push_range(&mut out, l, 0, l.len());
        assert(l@.subrange(0, l@.len() as int) =~= l@);
        assert(views(lines@).take(i + 1).drop_last() =~= prev);
        i += 1;
        if i == 1 {
            assert(views(lines@).take(1) =~= seq![l@]);
        }
        assert(out@ =~= join_lines(views(lines@).take(i as int)));
    }
    assert(views(lines@).take(lines@.len() as int) =~= views(lines@));
    out
}

/// The lines `str::lines` gives from offset `from`: split after each `\n`, that
/// `\n` and one `\r` before it removed; no empty line after a final `\n`.
pub open spec fn str_lines_from(s: Seq<char>, from: int) -> Seq<Seq<char>>
    decreases s.len() - from,
{
    if from < 0 || from >= s.len() {
        seq![]
    } else {
        let e = next_nl(s, from);
        proof {
            lemma_next_nl(s, from);
        }
        if e >= s.len() {
            seq![s.subrange(from, s.len() as int)]
        } else {
            let piece = s.subrange(from, e);
            let line = if piece.len() > 0 && piece.last() == '\r' { piece.drop_last() } else { piece };
            seq![line] + str_lines_from(s, e + 1)
        }
    }
}

/// `v` cut as `str::lines` cuts it (see [`str_lines_from`]).
pub fn str_lines_of(v: &Vec<char>) -> (r: Vec<Vec<char>>)
    ensures
        views(r@) == str_lines_from(v@, 0),
{
    let mut lines: Vec<Vec<char>> = Vec::new();
    let mut start: usize = 0;
    let mut i: usize = 0;
    while i < v.len()
        invariant
            start <= i <= v@.len(),
            forall|k: int| start <= k < i ==> v@[k] != '\n',
            views(lines@) + str_lines_from(v@, start as int) == str_lines_from(v@, 0),
        decreases v.len() - i,
    {
        if v[i] == '\n' {
            proof {
                lemma_next_nl_at(v@, start as int, i as int);
            }
            let end: usize = if i > start && v[i - 1] == '\r' { i - 1 } else { i };
            let mut line: Vec<char> = Vec::new();
            push_range(&mut line, v, start, end);
            let ghost piece = v@.subrange(start as int, i as int);
            assert(line@ =~= (if piece.len() > 0 && piece.last() == '\r' { piece.drop_last() } else { piece }));
            let ghost before = lines@;
            lines.push(line);
            assert(views(lines@) =~= views(before) + seq![line@]);
            start = i + 1;
        }
        i += 1;
    }
    if start < v.len() {
        proof {
            lemma_next_nl_at(v@, start as int, v@.len() as int);
        }
        let mut line: Vec<char> = Vec::new();
        push_range(&mut line, v, start, v.len());
        let ghost before = lines@;
        lines.push(line);
        assert(views(lines@) =~= views(before) + seq![line@]);
    }
    assert(views(lines@) + str_lines_from(v@, v@.len() as int) =~= views(lines@));
    lines
}

/// Drop the trailing empty lines of `lines`.
pub fn pop_trailing_empty(lines: &mut Vec<Vec<char>>)
    ensures
        views(final(lines)@) == drop_trailing_empty(views(old(lines)@)),
{
    while lines.len() > 0 && lines[lines.len() - 1].len() == 0
        invariant
            drop_trailing_empty(views(lines@)) == drop_trailing_empty(views(old(lines)@)),
        decreases lines.len(),
    {
        let ghost before = lines@;
        lines.pop();
        assert(views(lines@) =~= views(before).drop_last());
    }
}

// ---- whitespace, case, hex -------------------------------------------------

/// Unicode `White_Space` (what `char::is_whitespace` tests).
pub open spec fn is_space(c: char) -> bool {
    ||| '\u{9}' <= c <= '\u{d}'
    ||| c == ' '
    ||| c == '\u{85}'
    ||| c == '\u{a0}'
    ||| c == '\u{1680}'
    ||| '\u{2000}' <= c <= '\u{200a}'
    ||| c == '\u{2028}'
    ||| c == '\u{2029}'
    ||| c == '\u{202f}'
    ||| c == '\u{205f}'
    ||| c == '\u{3000}'
}

pub fn is_space_exec(c: char) -> (r: bool)
    ensures
        r == is_space(c),
{
    ('\u{9}' <= c && c <= '\u{d}') || c == ' ' || c == '\u{85}' || c == '\u{a0}' || c == '\u{1680}' || ('\u{2000}'
        <= c && c <= '\u{200a}') || c == '\u{2028}' || c == '\u{2029}' || c == '\u{202f}' || c == '\u{205f}' || c
        == '\u{3000}'
}

/// First index at or after `i` holding white space, or the length.
pub open spec fn next_space(s: Seq<char>, i: int) -> int
    decreases s.len() - i,
{
    if i >= s.len() {
        s.len() as int
    } else if is_space(s[i]) {
        i
    } else {
        next_space(s, i + 1)
    }
}

pub proof fn lemma_next_space(s: Seq<char>, i: int)
    requires
        0 <= i <= s.len(),
    ensures
        i <= next_space(s, i) <= s.len(),
        next_space(s, i) < s.len() ==> is_space(s[next_space(s, i)]),
        forall|k: int| i <= k < next_space(s, i) ==> !is_space(s[k]),
    decreases s.len() - i,
{
    if i < s.len() && !is_space(s[i]) {
        lemma_next_space(s, i + 1);
    }
}

/// The white-space separated words of `s` from `i` on (`str::split_whitespace`).
pub open spec fn words_from(s: Seq<char>, i: int) -> Seq<Seq<char>>
    decreases s.len() - i,
{
    if i < 0 || i >= s.len() {
        seq![]
    } else if is_space(s[i]) {
        words_from(s, i + 1)
    } else {
        let e = next_space(s, i);
        proof {
            lemma_next_space(s, i);
        }
        seq![s.subrange(i, e)] + words_from(s, e)
    }
}

/// The words of `v`.
pub fn words_of(v: &Vec<char>) -> (r: Vec<Vec<char>>)
    ensures
        views(r@) == words_from(v@, 0),
{
    let mut out: Vec<Vec<char>> = Vec::new();
    let mut i: usize = 0;
    assert(views(out@) + words_from(v@, 0) =~= words_from(v@, 0));
    while i < v.len()
        invariant
            i <= v@.len(),
            views(out@) + words_from(v@, i as int) == words_from(v@, 0),
        decreases v.len() - i,
    {
        if is_space_exec(v[i]) {
            i += 1;
        } else {
            let start = i;
            let mut w: Vec<char> = Vec::new();
            while i < v.len() && !is_space_exec(v[i])
                invariant
                    start <= i <= v@.len(),
                    w@ == v@.subrange(start as int, i as int),
                    forall|k: int| start <= k < i ==> !is_space(v@[k]),
                decreases v.len() - i,
            {
                w.push(v[i]);
                i += 1;
                assert(w@ =~= v@.subrange(start as int, i as int));
            }
            proof {
                lemma_next_space_at(v@, start as int, i as int);
            }
            let ghost before = out@;
            out.push(w);
            assert(views(out@) =~= views(before) + seq![v@.subrange(start as int, i as int)]);
        }
    }
    assert(views(out@) + words_from(v@, i as int) =~= views(out@));
    out
}

proof fn lemma_next_space_at(s: Seq<char>, i: int, e: int)
    requires
        0 <= i <= e <= s.len(),
        forall|k: int| i <= k < e ==> !is_space(s[k]),
        e < s.len() ==> is_space(s[e]),
    ensures
        next_space(s, i) == e,
    decreases e - i,
{
    if i < e {
        lemma_next_space_at(s, i + 1, e);
    }
}

/// Index of the first non-space character of `s`, or the length.
pub open spec fn trim_start(s: Seq<char>, i: int) -> int
    decreases s.len() - i,
{
    if i >= s.len() || !is_space(s[i]) {
        i
    } else {
        trim_start(s, i + 1)
    }
}

/// One past the last non-space character of `s[..e]` at or after `lo`, or `lo`.
pub open spec fn trim_end(s: Seq<char>, lo: int, e: int) -> int
    decreases e - lo,
{
    if e <= lo || !is_space(s[e - 1]) {
        e
    } else {
        trim_end(s, lo, e - 1)
    }
}

/// `s` without leading and trailing white space (`str::trim`).
pub open spec fn trim(s: Seq<char>) -> Seq<char> {
    let a = trim_start(s, 0);
    s.subrange(a, trim_end(s, a, s.len() as int))
}

proof fn lemma_trim_start_bounds(s: Seq<char>, i: int)
    requires
        0 <= i <= s.len(),
    ensures
        i <= trim_start(s, i) <= s.len(),
    decreases s.len() - i,
{
    if i < s.len() && is_space(s[i]) {
        lemma_trim_start_bounds(s, i + 1);
    }
}

proof fn lemma_trim_end_bounds(s: Seq<char>, lo: int, e: int)
    requires
        lo <= e,
    ensures
        lo <= trim_end(s, lo, e) <= e,
    decreases e - lo,
{
    if e > lo && is_space(s[e - 1]) {
        lemma_trim_end_bounds(s, lo, e - 1);
    }
}

/// The bounds of `trim(v)` inside `v`.
pub fn trim_bounds(v: &Vec<char>) -> (r: (usize, usize))
    ensures
        r.0 <= r.1 <= v@.len(),
        v@.subrange(r.0 as int, r.1 as int) == trim(v@),
{
    let mut a: usize = 0;
    while a < v.len() && is_space_exec(v[a])
        invariant
            a <= v@.len(),
            trim_start(v@, a as int) == trim_start(v@, 0),
        decreases v.len() - a,
    {
        a += 1;
    }
    let mut e: usize = v.len();
    proof {
        lemma_trim_start_bounds(v@, 0);
        lemma_trim_end_bounds(v@, a as int, v@.len() as int);
    }
    while e > a && is_space_exec(v[e - 1])
        invariant
            a <= e <= v@.len(),
            a == trim_start(v@, 0),
            trim_end(v@, a as int, e as int) == trim_end(v@, a as int, v@.len() as int),
        decreases e,
    {
        e -= 1;
    }
    (a, e)
}

/// ASCII lower case of every character (others unchanged).
pub open spec fn ascii_lower(s: Seq<char>) -> Seq<char> {
    s.map_values(|c: char| if 'A' <= c <= 'Z' { ((c as u32) + 32) as char } else { c })
}

/// `v[from..to]` in ASCII lower case.
pub fn ascii_lower_range(v: &Vec<char>, from: usize, to: usize) -> (r: Vec<char>)
    requires
        from <= to <= v@.len(),
    ensures
        r@ == ascii_lower(v@.subrange(from as int, to as int)),
{
    let mut out: Vec<char> = Vec::new();
    let mut i = from;
    while i < to
        invariant
            from <= i <= to,
            to <= v@.len(),
            out@ == ascii_lower(v@.subrange(from as int, i as int)),
        decreases to - i,
    {
        let c = v[i];
        let l: char = if 'A' <= c && c <= 'Z' { (((c as u32) + 32) as u8) as char } else { c };
        out.push(l);
        i += 1;
        assert(out@ =~= ascii_lower(v@.subrange(from as int, i as int)));
    }
    out
}

/// The value of a hex digit, or -1.
pub open spec fn hex_val(c: char) -> int {
    if '0' <= c <= '9' {
        c as int - '0' as int
    } else if 'a' <= c <= 'f' {
        c as int - 'a' as int + 10
    } else if 'A' <= c <= 'F' {
        c as int - 'A' as int + 10
    } else {
        -1
    }
}

/// The value of a string of hex digits.
pub open spec fn hex_value(s: Seq<char>) -> int
    decreases s.len(),
{
    if s.len() == 0 {
        0
    } else {
        hex_value(s.drop_last()) * 16 + hex_val(s.last())
    }
}

/// Every character of `s` is a hex digit.
pub open spec fn all_hex(s: Seq<char>) -> bool {
    forall|k: int| 0 <= k < s.len() ==> hex_val(#[trigger] s[k]) >= 0
}

/// What std's `from_str_radix(s, 16)` gives for an unsigned integer no larger than
/// `max`: an optional leading `+`, then one or more hex digits, whose value fits.
pub open spec fn spec_parse_hex(s: Seq<char>, max: int) -> Option<int> {
    let d = if s.len() > 0 && s[0] == '+' { s.drop_first() } else { s };
    if d.len() == 0 || !all_hex(d) || hex_value(d) > max {
        None
    } else {
        Some(hex_value(d))
    }
}

proof fn lemma_hex_value_grows(s: Seq<char>, k: int)
    requires
        forall|j: int| 0 <= j < s.len() ==> hex_val(#[trigger] s[j]) >= 0,
        0 <= k <= s.len(),
    ensures
        hex_value(s.subrange(0, k)) <= hex_value(s),
        hex_value(s.subrange(0, k)) >= 0,
    decreases s.len() - k,
{
    if k < s.len() {
        lemma_hex_value_grows(s, k + 1);
        let t = s.subrange(0, k + 1);
        assert(t.drop_last() =~= s.subrange(0, k));
        assert(hex_val(s[k]) >= 0);
    } else {
        assert(s.subrange(0, k) =~= s);
        lemma_hex_nonneg(s);
    }
}

proof fn lemma_hex_nonneg(s: Seq<char>)
    requires
        forall|j: int| 0 <= j < s.len() ==> hex_val(#[trigger] s[j]) >= 0,
    ensures
        hex_value(s) >= 0,
    decreases s.len(),
{
    if s.len() > 0 {
        let d = s.drop_last();
        assert forall|j: int| 0 <= j < d.len() implies hex_val(#[trigger] d[j]) >= 0 by {
            assert(d[j] == s[j]);
        }
        lemma_hex_nonneg(d);
        assert(hex_val(s[s.len() - 1]) >= 0);
    }
}

fn hex_val_exec(c: char) -> (r: i32)
    ensures
        r == hex_val(c),
{
    if '0' <= c && c <= '9' {
        (c as u32 - '0' as u32) as i32
    } else if 'a' <= c && c <= 'f' {
        (c as u32 - 'a' as u32 + 10) as i32
    } else if 'A' <= c && c <= 'F' {
        (c as u32 - 'A' as u32 + 10) as i32
    } else {
        -1
    }
}

/// Parse `v[from..to]` as hex no larger than `max` (see [`spec_parse_hex`]).
pub fn parse_hex(v: &Vec<char>, from: usize, to: usize, max: u32) -> (r: Option<u32>)
    requires
        from <= to <= v@.len(),
    ensures
        match r {
            Some(n) => spec_parse_hex(v@.subrange(from as int, to as int), max as int) == Some(n as int),
            None => spec_parse_hex(v@.subrange(from as int, to as int), max as int) is None,
        },
{
    let ghost s = v@.subrange(from as int, to as int);
    let start: usize = if from < to && v[from] == '+' { from + 1 } else { from };
    let ghost d = v@.subrange(start as int, to as int);
    assert(d =~= (if s.len() > 0 && s[0] == '+' { s.drop_first() } else { s }));
    if start == to {
        return None;
    }
    let mut acc: u64 = 0;
    let mut i = start;
    while i < to
        invariant
            from <= start <= i <= to,
            to <= v@.len(),
            s == v@.subrange(from as int, to as int),
            d == (if s.len() > 0 && s[0] == '+' { s.drop_first() } else { s }),
            d == v@.subrange(start as int, to as int),
            forall|j: int| start <= j < i ==> hex_val(#[trigger] v@[j]) >= 0,
            acc == hex_value(v@.subrange(start as int, i as int)),
            acc <= max,
        decreases to - i,
    {
        let c = v[i];
        let dv = hex_val_exec(c);
        if dv < 0 {
            assert(hex_val(d[i - start]) < 0);
            return None;
        }
        let next = acc * 16 + dv as u64;
        assert(v@.subrange(start as int, i + 1).drop_last() =~= v@.subrange(start as int, i as int));
        if next > max as u64 {
            proof {
                if all_hex(d) {
                    lemma_hex_value_grows(d, i + 1 - start);
                    assert(d.subrange(0, i + 1 - start) =~= v@.subrange(start as int, i + 1));
                }
            }
            return None;
        }
        acc = next;
        i += 1;
    }
    assert(v@.subrange(start as int, to as int) =~= d);
    assert forall|k: int| 0 <= k < d.len() implies hex_val(#[trigger] d[k]) >= 0 by {
        assert(d[k] == v@[start + k]);
    }
    Some(acc as u32)
}

/// Index of the first `c` in `s` at or after `i`, or -1.
pub open spec fn first_from(s: Seq<char>, c: char, i: int) -> int
    decreases s.len() - i,
{
    if i < 0 || i >= s.len() {
        -1
    } else if s[i] == c {
        i
    } else {
        first_from(s, c, i + 1)
    }
}

/// The first `c` in `v` at or after `from` (see [`first_from`]).
pub fn find_from(v: &Vec<char>, from: usize, c: char) -> (r: Option<usize>)
    ensures
        match r {
            Some(i) => i == first_from(v@, c, from as int),
            None => first_from(v@, c, from as int) == -1,
        },
{
    let mut i: usize = from;
    while i < v.len()
        invariant
            from <= i,
            first_from(v@, c, from as int) == first_from(v@, c, i as int),
        decreases v.len() - i,
    {
        if v[i] == c {
            return Some(i);
        }
        i += 1;
    }
    None
}

/// [`first_from`] is -1 or the index of a `c` at or after `i`.
pub proof fn lemma_first_from_range(s: Seq<char>, c: char, i: int)
    requires
        0 <= i,
    ensures
        first_from(s, c, i) == -1 || (i <= first_from(s, c, i) < s.len() && s[first_from(s, c, i)] == c),
    decreases s.len() - i,
{
    if i < s.len() && s[i] != c {
        lemma_first_from_range(s, c, i + 1);
    }
}


} // verus!
