//! Text handling used when reading settings: splitting on a separator,
//! trimming Unicode white space, and reading decimal integers, each with
//! the meaning that `str::split`, `str::trim` and `str::parse` give them.
use vstd::prelude::*;

verus! {

// ---------------------------------------------------------------------------
// White space and trimming
// ---------------------------------------------------------------------------

/// The characters that carry the Unicode `White_Space` property
/// (what `char::is_whitespace` accepts).
pub open spec fn is_whitespace(c: char) -> bool {
    ||| ('\u{9}' <= c && c <= '\u{d}')
    ||| c == ' '
    ||| c == '\u{85}'
    ||| c == '\u{a0}'
    ||| c == '\u{1680}'
    ||| ('\u{2000}' <= c && c <= '\u{200a}')
    ||| c == '\u{2028}'
    ||| c == '\u{2029}'
    ||| c == '\u{202f}'
    ||| c == '\u{205f}'
    ||| c == '\u{3000}'
}

/// `s` without its leading white space.
pub open spec fn trim_start(s: Seq<char>) -> Seq<char>
    decreases s.len(),
{
    if s.len() > 0 && is_whitespace(s[0]) {
        trim_start(s.drop_first())
    } else {
        s
    }
}

/// `s` without its trailing white space.
pub open spec fn trim_end(s: Seq<char>) -> Seq<char>
    decreases s.len(),
{
    if s.len() > 0 && is_whitespace(s.last()) {
        trim_end(s.drop_last())
    } else {
        s
    }
}

/// `s` without leading and trailing white space.
pub open spec fn trim(s: Seq<char>) -> Seq<char> {
    trim_end(trim_start(s))
}

/// Decides `is_whitespace`.
pub fn char_is_whitespace(c: char) -> (r: bool)
    ensures
        r == is_whitespace(c),
{
    ('\u{9}' <= c && c <= '\u{d}') || c == ' ' || c == '\u{85}' || c == '\u{a0}' || c
        == '\u{1680}' || ('\u{2000}' <= c && c <= '\u{200a}') || c == '\u{2028}' || c
        == '\u{2029}' || c == '\u{202f}' || c == '\u{205f}' || c == '\u{3000}'
}

/// Narrows the range `[lo, hi)` of `chars` to the trimmed part of it.
pub fn trim_range(chars: &Vec<char>, lo: usize, hi: usize) -> (r: (usize, usize))
    requires
        lo <= hi <= chars.len(),
    ensures
        lo <= r.0 <= r.1 <= hi,
        chars@.subrange(r.0 as int, r.1 as int) == trim(chars@.subrange(lo as int, hi as int)),
{
    let mut a = lo;
    while a < hi && char_is_whitespace(chars[a])
        invariant
            lo <= a <= hi <= chars.len(),
            trim_start(chars@.subrange(lo as int, hi as int)) == trim_start(
                chars@.subrange(a as int, hi as int),
            ),
        decreases hi - a,
    {
        assert(chars@.subrange(a as int, hi as int).drop_first() =~= chars@.subrange(
            a + 1,
            hi as int,
        ));
        a = a + 1;
    }
    assert(trim_start(chars@.subrange(a as int, hi as int)) == chars@.subrange(a as int, hi as int));
    let mut b = hi;
    while b > a && char_is_whitespace(chars[b - 1])
        invariant
            lo <= a <= b <= hi <= chars.len(),
            trim_end(chars@.subrange(a as int, hi as int)) == trim_end(
                chars@.subrange(a as int, b as int),
            ),
        decreases b - a,
    {
        assert(chars@.subrange(a as int, b as int).drop_last() =~= chars@.subrange(
            a as int,
            b - 1,
        ));
        b = b - 1;
    }
    (a, b)
}

// ---------------------------------------------------------------------------
// Splitting on a separator
// ---------------------------------------------------------------------------

/// The pieces of `s` between occurrences of `sep`, read left to right:
/// one more piece than `s` has separators, empty pieces included.
pub open spec fn split(s: Seq<char>, sep: char) -> Seq<Seq<char>>
    decreases s.len(),
{
    if s.len() == 0 {
        seq![Seq::empty()]
    } else {
        let prev = split(s.drop_last(), sep);
        if s.last() == sep {
            prev.push(Seq::empty())
        } else {
            prev.update(prev.len() - 1, prev.last().push(s.last()))
        }
    }
}

/// Every text has at least one piece.
pub proof fn lemma_split_nonempty(s: Seq<char>, sep: char)
    ensures
        split(s, sep).len() >= 1,
    decreases s.len(),
{
    if s.len() > 0 {
        lemma_split_nonempty(s.drop_last(), sep);
    }
}

/// The texts of `chars` in the ranges `ranges`.
pub open spec fn range_texts(chars: Seq<char>, ranges: Seq<(usize, usize)>) -> Seq<Seq<char>> {
    ranges.map_values(|r: (usize, usize)| chars.subrange(r.0 as int, r.1 as int))
}

/// The ranges of `chars` that hold the pieces of `split(chars@, sep)`.
pub fn split_ranges(chars: &Vec<char>, sep: char) -> (out: Vec<(usize, usize)>)
    ensures
        out@.len() == split(chars@, sep).len(),
        forall|k: int|
            0 <= k < out@.len() ==> {
                &&& #[trigger] out@[k].0 <= out@[k].1 <= chars.len()
                &&& chars@.subrange(out@[k].0 as int, out@[k].1 as int) == split(chars@, sep)[k]
            },
{
    let n = chars.len();
    let mut out: Vec<(usize, usize)> = Vec::new();
    let mut start: usize = 0;
    let mut i: usize = 0;
    proof {
        assert(chars@.take(0) =~= Seq::<char>::empty());
        assert(chars@.subrange(0, 0) =~= Seq::<char>::empty());
        assert(range_texts(chars@, out@) =~= split(chars@.take(0), sep).drop_last());
    }
    while i < n
        invariant
            n == chars.len(),
            start <= i <= n,
            forall|k: int| 0 <= k < out@.len() ==> (#[trigger] out@[k]).0 <= out@[k].1 <= start,
            range_texts(chars@, out@) == split(chars@.take(i as int), sep).drop_last(),
            split(chars@.take(i as int), sep).len() >= 1,
            split(chars@.take(i as int), sep).last() == chars@.subrange(start as int, i as int),
        decreases n - i,
    {
        let ghost prev = split(chars@.take(i as int), sep);
        let ghost old_out = out@;
        proof {
            assert(chars@.take(i + 1).drop_last() =~= chars@.take(i as int));
            assert(chars@.take(i + 1).last() == chars@[i as int]);
            lemma_split_nonempty(chars@.take(i + 1), sep);
        }
        if chars[i] == sep {
            out.push((start, i));
            start = i + 1;
            proof {
                let cur = split(chars@.take(i + 1), sep);
                assert(cur == prev.push(Seq::empty()));
                assert(chars@.subrange(start as int, i + 1) =~= Seq::<char>::empty());
                assert(cur.drop_last() =~= prev);
                assert(prev =~= prev.drop_last().push(prev.last()));
                assert(range_texts(chars@, out@) =~= range_texts(chars@, old_out).push(
                    chars@.subrange(out@.last().0 as int, out@.last().1 as int),
                ));
            }
        } else {
            proof {
                let cur = split(chars@.take(i + 1), sep);
                assert(cur == prev.update(prev.len() - 1, prev.last().push(chars@[i as int])));
                assert(cur.drop_last() =~= prev.drop_last());
                assert(chars@.subrange(start as int, i + 1) =~= chars@.subrange(
                    start as int,
                    i as int,
                ).push(chars@[i as int]));
            }
        }
        i = i + 1;
    }
    let ghost body = out@;
    out.push((start, n));
    proof {
        let whole = split(chars@, sep);
        assert(chars@.take(n as int) =~= chars@);
        assert(whole =~= whole.drop_last().push(whole.last()));
        assert(range_texts(chars@, out@) =~= range_texts(chars@, body).push(
            chars@.subrange(start as int, n as int),
        ));
        assert forall|k: int| 0 <= k < out@.len() implies {
            &&& #[trigger] out@[k].0 <= out@[k].1 <= chars.len()
            &&& chars@.subrange(out@[k].0 as int, out@[k].1 as int) == split(chars@, sep)[k]
        } by {
            assert(range_texts(chars@, out@)[k] == chars@.subrange(
                out@[k].0 as int,
                out@[k].1 as int,
            ));
        }
    }
    out
}

// ---------------------------------------------------------------------------
// Decimal integers
// ---------------------------------------------------------------------------

/// An ASCII decimal digit.
pub open spec fn is_digit(c: char) -> bool {
    '0' <= c && c <= '9'
}

/// The value of a decimal digit.
pub open spec fn digit_value(c: char) -> nat {
    (c as int - '0' as int) as nat
}

/// Every character of `s` is a decimal digit.
pub open spec fn all_digits(s: Seq<char>) -> bool {
    forall|i: int| 0 <= i < s.len() ==> is_digit(#[trigger] s[i])
}

/// The number that the digits `s` write in base ten.
pub open spec fn decimal_value(s: Seq<char>) -> nat
    decreases s.len(),
{
    if s.len() == 0 {
        0
    } else {
        decimal_value(s.drop_last()) * 10 + digit_value(s.last())
    }
}

/// What `str::parse::<i64>` gives: an optional `+` or `-`, then at least one
/// decimal digit, and nothing else, with a value that fits in an `i64`.
pub open spec fn parse_i64(s: Seq<char>) -> Option<i64> {
    let negative = s.len() > 0 && s[0] == '-';
    let digits = if s.len() > 0 && (s[0] == '-' || s[0] == '+') {
        s.drop_first()
    } else {
        s
    };
    if digits.len() == 0 || !all_digits(digits) {
        None
    } else {
        let v: int = if negative {
            -decimal_value(digits)
        } else {
            decimal_value(digits) as int
        };
        if i64::MIN <= v <= i64::MAX {
            Some(v as i64)
        } else {
            None
        }
    }
}

/// What `str::parse::<u16>` gives: an optional `+`, then at least one decimal
/// digit, and nothing else, with a value that fits in a `u16`.
pub open spec fn parse_u16(s: Seq<char>) -> Option<u16> {
    let digits = if s.len() > 0 && s[0] == '+' {
        s.drop_first()
    } else {
        s
    };
    if digits.len() == 0 || !all_digits(digits) {
        None
    } else if decimal_value(digits) <= u16::MAX {
        Some(decimal_value(digits) as u16)
    } else {
        None
    }
}

/// Writing more digits after a number never makes it smaller.
pub proof fn lemma_decimal_prefix_le(s: Seq<char>, j: int)
    requires
        0 <= j <= s.len(),
    ensures
        decimal_value(s.take(j)) <= decimal_value(s),
    decreases s.len(),
{
    if j < s.len() {
        assert(s.drop_last().take(j) =~= s.take(j));
        lemma_decimal_prefix_le(s.drop_last(), j);
        assert(decimal_value(s) >= decimal_value(s.drop_last()));
    } else {
        assert(s.take(j) =~= s);
    }
}

/// The value of the digits in `[lo, hi)` of `chars` where they are all digits,
/// there is at least one, and the value is at most `limit`; `None` otherwise.
pub fn decimal_in_range(chars: &Vec<char>, lo: usize, hi: usize, limit: u64) -> (r: Option<u64>)
    requires
        lo <= hi <= chars.len(),
    ensures
        ({
            let d = chars@.subrange(lo as int, hi as int);
            r == if d.len() > 0 && all_digits(d) && decimal_value(d) <= limit {
                Some(decimal_value(d) as u64)
            } else {
                None
            }
        }),
{
    let ghost d = chars@.subrange(lo as int, hi as int);
    if lo == hi {
        return None;
    }
    let mut acc: u64 = 0;
    let mut i: usize = lo;
    proof {
        assert(d.take(0) =~= Seq::<char>::empty());
    }
    while i < hi
        invariant
            lo <= i <= hi <= chars.len(),
            d == chars@.subrange(lo as int, hi as int),
            all_digits(d.take(i - lo)),
            acc as nat == decimal_value(d.take(i - lo)),
            acc <= limit,
        decreases hi - i,
    {
        let c = chars[i];
        proof {
            assert(d[i - lo] == c);
        }
        if !('0' <= c && c <= '9') {
            return None;
        }
        let dv: u64 = (c as u32 - '0' as u32) as u64;
        proof {
            assert(d.take(i - lo + 1).drop_last() =~= d.take(i - lo));
            assert(d.take(i - lo + 1).last() == c);
            assert(dv as nat == digit_value(c));
            assert(all_digits(d.take(i - lo + 1)));
        }
        if acc > limit / 10 {
            proof {
                assert(acc * 10 > limit) by (nonlinear_arith)
                    requires
                        acc > limit / 10,
                ;
                lemma_too_large(d, i - lo + 1, limit);
            }
            return None;
        }
        let t: u64 = acc * 10;
        proof {
            assert(acc * 10 <= limit) by (nonlinear_arith)
                requires
                    acc <= limit / 10,
            ;
        }
        if dv > limit - t {
            proof {
                lemma_too_large(d, i - lo + 1, limit);
            }
            return None;
        }
        acc = t + dv;
        i = i + 1;
    }
    proof {
        assert(d.take(hi - lo) =~= d);
    }
    Some(acc)
}

/// Once the digits read so far exceed `limit`, the whole text is no number
/// at most `limit`.
proof fn lemma_too_large(d: Seq<char>, j: int, limit: u64)
    requires
        0 <= j <= d.len(),
        decimal_value(d.take(j)) > limit,
    ensures
        !(d.len() > 0 && all_digits(d) && decimal_value(d) <= limit),
{
    lemma_decimal_prefix_le(d, j);
}

/// `parse_i64` of the characters `[lo, hi)` of `chars`.
pub fn parse_i64_range(chars: &Vec<char>, lo: usize, hi: usize) -> (r: Option<i64>)
    requires
        lo <= hi <= chars.len(),
    ensures
        r == parse_i64(chars@.subrange(lo as int, hi as int)),
{
    let ghost s = chars@.subrange(lo as int, hi as int);
    let negative = lo < hi && chars[lo] == '-';
    let signed = lo < hi && (chars[lo] == '-' || chars[lo] == '+');
    let start = if signed {
        lo + 1
    } else {
        lo
    };
    proof {
        if signed {
            assert(s.drop_first() =~= chars@.subrange(start as int, hi as int));
        }
    }
    if negative {
        match decimal_in_range(chars, start, hi, 9223372036854775808u64) {
            Some(m) => {
                if m == 9223372036854775808u64 {
                    Some(i64::MIN)
                } else {
                    Some(-(m as i64))
                }
            },
            None => None,
        }
    } else {
        match decimal_in_range(chars, start, hi, 9223372036854775807u64) {
            Some(m) => Some(m as i64),
            None => None,
        }
    }
}

/// `parse_u16` of the characters `[lo, hi)` of `chars`.
pub fn parse_u16_range(chars: &Vec<char>, lo: usize, hi: usize) -> (r: Option<u16>)
    requires
        lo <= hi <= chars.len(),
    ensures
        r == parse_u16(chars@.subrange(lo as int, hi as int)),
{
    let ghost s = chars@.subrange(lo as int, hi as int);
    let signed = lo < hi && chars[lo] == '+';
    let start = if signed {
        lo + 1
    } else {
        lo
    };
    proof {
        if signed {
            assert(s.drop_first() =~= chars@.subrange(start as int, hi as int));
        }
    }
    match decimal_in_range(chars, start, hi, 65535u64) {
        Some(m) => Some(m as u16),
        None => None,
    }
}


// ---------------------------------------------------------------------------
// Laws of splitting and trimming
// ---------------------------------------------------------------------------

/// The pieces put back together with `sep` between each two.
pub open spec fn join(pieces: Seq<Seq<char>>, sep: char) -> Seq<char>
    decreases pieces.len(),
{
    if pieces.len() == 0 {
        Seq::empty()
    } else if pieces.len() == 1 {
        pieces[0]
    } else {
        join(pieces.drop_last(), sep).push(sep) + pieces.last()
    }
}

/// Replacing the last piece by a piece one character longer lengthens the
/// joined text by that character.
proof fn lemma_join_extend_last(p: Seq<Seq<char>>, sep: char, c: char)
    requires
        p.len() >= 1,
    ensures
        join(p.update(p.len() - 1, p.last().push(c)), sep) == join(p, sep).push(c),
{
    let q = p.update(p.len() - 1, p.last().push(c));
    if p.len() == 1 {
        assert(q[0] == p[0].push(c));
    } else {
        assert(q.drop_last() =~= p.drop_last());
        assert(q.last() == p.last().push(c));
        assert(join(q, sep) == join(p.drop_last(), sep).push(sep) + p.last().push(c));
        assert(join(p.drop_last(), sep).push(sep) + p.last().push(c) =~= (join(
            p.drop_last(),
            sep,
        ).push(sep) + p.last()).push(c));
    }
}

/// Splitting and joining again give back the text, and no piece holds the
/// separator: the pieces are exactly the runs of text between separators.
pub proof fn law_split_join(s: Seq<char>, sep: char)
    ensures
        join(split(s, sep), sep) == s,
        forall|k: int| 0 <= k < split(s, sep).len() ==> !(#[trigger] split(s, sep)[k]).contains(sep),
    decreases s.len(),
{
    if s.len() == 0 {
        assert(join(split(s, sep), sep) =~= s);
    } else {
        let prev = split(s.drop_last(), sep);
        law_split_join(s.drop_last(), sep);
        lemma_split_nonempty(s.drop_last(), sep);
        if s.last() == sep {
            let cur = prev.push(Seq::<char>::empty());
            assert(cur.drop_last() =~= prev);
            assert(join(cur, sep) =~= s.drop_last().push(sep) + Seq::<char>::empty());
            assert(s.drop_last().push(sep) =~= s);
            assert forall|k: int| 0 <= k < cur.len() implies !(#[trigger] cur[k]).contains(sep) by {
                if k == cur.len() - 1 {
                    assert(cur[k] =~= Seq::<char>::empty());
                } else {
                    assert(cur[k] == prev[k]);
                }
            }
        } else {
            let cur = prev.update(prev.len() - 1, prev.last().push(s.last()));
            lemma_join_extend_last(prev, sep, s.last());
            assert(s.drop_last().push(s.last()) =~= s);
            assert forall|k: int| 0 <= k < cur.len() implies !(#[trigger] cur[k]).contains(sep) by {
                if k == cur.len() - 1 {
                    let x = prev.last();
                    assert(!x.contains(sep));
                    if x.push(s.last()).contains(sep) {
                        let i = choose|i: int| 0 <= i < x.push(s.last()).len() && x.push(s.last())[i] == sep;
                        if i < x.len() {
                            assert(x[i] == sep);
                        }
                    }
                } else {
                    assert(cur[k] == prev[k]);
                }
            }
        }
    }
}

/// Trimming the start leaves nothing or a text that starts with no white
/// space, and drops only a prefix.
proof fn lemma_trim_start_shape(s: Seq<char>)
    ensures
        trim_start(s).len() <= s.len(),
        trim_start(s).len() == 0 || !is_whitespace(trim_start(s)[0]),
        trim_start(s) == s.subrange(s.len() - trim_start(s).len(), s.len() as int),
    decreases s.len(),
{
    if s.len() > 0 && is_whitespace(s[0]) {
        lemma_trim_start_shape(s.drop_first());
        let t = trim_start(s.drop_first());
        assert(s.drop_first().subrange(s.drop_first().len() - t.len(), s.drop_first().len() as int)
            =~= s.subrange(s.len() - t.len(), s.len() as int));
    } else {
        assert(s.subrange(0, s.len() as int) =~= s);
    }
}

/// Trimming the end leaves nothing or a text that ends with no white
/// space, and keeps a prefix.
proof fn lemma_trim_end_shape(s: Seq<char>)
    ensures
        trim_end(s).len() <= s.len(),
        trim_end(s).len() == 0 || !is_whitespace(trim_end(s).last()),
        trim_end(s) == s.subrange(0, trim_end(s).len() as int),
    decreases s.len(),
{
    if s.len() > 0 && is_whitespace(s.last()) {
        lemma_trim_end_shape(s.drop_last());
        let t = trim_end(s.drop_last());
        assert(s.drop_last().subrange(0, t.len() as int) =~= s.subrange(0, t.len() as int));
    } else {
        assert(s.subrange(0, s.len() as int) =~= s);
    }
}

/// A trimmed text is its own trim: what `trim` gives has no white space
/// left at either end.
pub proof fn law_trim_idempotent(s: Seq<char>)
    ensures
        trim(trim(s)) == trim(s),
        trim(s).len() == 0 || (!is_whitespace(trim(s)[0]) && !is_whitespace(trim(s).last())),
{
    let t = trim_start(s);
    let u = trim_end(t);
    lemma_trim_start_shape(s);
    lemma_trim_end_shape(t);
    lemma_trim_end_shape(u);
    if u.len() > 0 {
        assert(u[0] == t[0]);
    }
    assert(trim_start(u) == u);
    assert(trim_end(u) == u);
}

/// A trimmed text is a piece of the original text.
pub proof fn law_trim_is_infix(s: Seq<char>)
    ensures
        exists|i: int, j: int| 0 <= i <= j <= s.len() && trim(s) == s.subrange(i, j),
{
    let t = trim_start(s);
    lemma_trim_start_shape(s);
    lemma_trim_end_shape(t);
    let i = s.len() - t.len();
    let j = i + trim_end(t).len();
    assert(trim(s) =~= s.subrange(i, j));
}


// ---------------------------------------------------------------------------
// Writing integers, and reading them back
// ---------------------------------------------------------------------------

/// The character of the decimal digit `d` (for `d < 10`).
pub open spec fn digit_char(d: nat) -> char {
    if d == 0 {
        '0'
    } else if d == 1 {
        '1'
    } else if d == 2 {
        '2'
    } else if d == 3 {
        '3'
    } else if d == 4 {
        '4'
    } else if d == 5 {
        '5'
    } else if d == 6 {
        '6'
    } else if d == 7 {
        '7'
    } else if d == 8 {
        '8'
    } else {
        '9'
    }
}

/// `n` written in base ten, without leading zeros.
pub open spec fn decimal_text(n: nat) -> Seq<char>
    decreases n,
{
    if n < 10 {
        seq![digit_char(n)]
    } else {
        decimal_text(n / 10).push(digit_char(n % 10))
    }
}

/// `v` written in base ten, with a `-` in front where it is negative.
pub open spec fn i64_text(v: i64) -> Seq<char> {
    if v < 0 {
        seq!['-'] + decimal_text((-v) as nat)
    } else {
        decimal_text(v as nat)
    }
}

/// A digit's character is a digit with that value.
proof fn lemma_digit_char(d: nat)
    requires
        d < 10,
    ensures
        is_digit(digit_char(d)),
        digit_value(digit_char(d)) == d,
{
    assert('0' as int == 48 && '9' as int == 57);
    assert('1' as int == 49 && '2' as int == 50 && '3' as int == 51 && '4' as int == 52);
    assert('5' as int == 53 && '6' as int == 54 && '7' as int == 55 && '8' as int == 56);
}

/// The base ten text of `n` is a nonempty run of digits whose value is `n`.
pub proof fn lemma_decimal_text(n: nat)
    ensures
        decimal_text(n).len() >= 1,
        all_digits(decimal_text(n)),
        decimal_value(decimal_text(n)) == n,
    decreases n,
{
    lemma_digit_char(n % 10);
    if n >= 10 {
        lemma_decimal_text(n / 10);
        let t = decimal_text(n);
        assert(t.last() == digit_char(n % 10));
        assert(t.drop_last() =~= decimal_text(n / 10));
        assert((n / 10) * 10 + n % 10 == n) by (nonlinear_arith);
        assert(decimal_value(t) == decimal_value(t.drop_last()) * 10 + digit_value(t.last()));
        assert forall|i: int| 0 <= i < t.len() implies is_digit(#[trigger] t[i]) by {
            if i < t.len() - 1 {
                assert(t[i] == decimal_text(n / 10)[i]);
            }
        }
    } else {
        assert(n % 10 == n);
        let t = seq![digit_char(n)];
        assert(t.drop_last() =~= Seq::<char>::empty());
        assert(decimal_value(t) == decimal_value(t.drop_last()) * 10 + digit_value(t.last()));
        assert(decimal_value(Seq::<char>::empty()) == 0);
    }
}

/// Reading the text of an `i64` gives it back.
pub proof fn law_i64_text_round_trip(v: i64)
    ensures
        parse_i64(i64_text(v)) == Some(v),
        i64_text(v).len() >= 1,
        !is_whitespace(i64_text(v)[0]),
        !is_whitespace(i64_text(v).last()),
        !i64_text(v).contains(','),
{
    let s = i64_text(v);
    if v < 0 {
        let m = (-v) as nat;
        lemma_decimal_text(m);
        let d = decimal_text(m);
        assert(s.drop_first() =~= d);
        assert(s.last() == d.last());
        assert(is_digit(d[d.len() - 1]));
        if s.contains(',') {
            let i = choose|i: int| 0 <= i < s.len() && s[i] == ',';
            if i > 0 {
                assert(s[i] == d[i - 1]);
            }
        }
    } else {
        lemma_decimal_text(v as nat);
        assert(is_digit(s[0]));
        assert(is_digit(s[s.len() - 1]));
        if s.contains(',') {
            let i = choose|i: int| 0 <= i < s.len() && s[i] == ',';
            assert(is_digit(s[i]));
        }
    }
}

/// A text with no white space at either end is its own trim.
pub proof fn lemma_trim_of_clean(s: Seq<char>)
    requires
        s.len() >= 1,
        !is_whitespace(s[0]),
        !is_whitespace(s.last()),
    ensures
        trim(s) == s,
{
}

/// A text without the separator is a single piece.
proof fn lemma_split_single(t: Seq<char>, sep: char)
    requires
        !t.contains(sep),
    ensures
        split(t, sep) == seq![t],
    decreases t.len(),
{
    if t.len() > 0 {
        assert(!t.drop_last().contains(sep)) by {
            if t.drop_last().contains(sep) {
                let i = choose|i: int| 0 <= i < t.drop_last().len() && t.drop_last()[i] == sep;
                assert(t[i] == sep);
            }
        }
        lemma_split_single(t.drop_last(), sep);
        assert(t.last() != sep) by {
            assert(t[t.len() - 1] == t.last());
        }
        assert(t.drop_last().push(t.last()) =~= t);
        assert(seq![t.drop_last()].update(0, t.drop_last().push(t.last())) =~= seq![t]);
    } else {
        assert(t =~= Seq::<char>::empty());
    }
}

/// Splitting `s`, a separator, then a piece without the separator gives
/// the pieces of `s` followed by that piece.
proof fn lemma_split_append(s: Seq<char>, t: Seq<char>, sep: char)
    requires
        !t.contains(sep),
    ensures
        split(s.push(sep) + t, sep) == split(s, sep).push(t),
    decreases t.len(),
{
    if t.len() == 0 {
        assert(s.push(sep) + t =~= s.push(sep));
        assert(s.push(sep).drop_last() =~= s);
        assert(t =~= Seq::<char>::empty());
    } else {
        let u = t.drop_last();
        assert(!u.contains(sep)) by {
            if u.contains(sep) {
                let i = choose|i: int| 0 <= i < u.len() && u[i] == sep;
                assert(t[i] == sep);
            }
        }
        lemma_split_append(s, u, sep);
        let whole = s.push(sep) + t;
        assert(whole.drop_last() =~= s.push(sep) + u);
        assert(whole.last() == t.last());
        assert(t.last() != sep) by {
            assert(t[t.len() - 1] == t.last());
        }
        let prev = split(s, sep).push(u);
        assert(prev.update(prev.len() - 1, prev.last().push(t.last())) =~= split(s, sep).push(
            u.push(t.last()),
        ));
        assert(u.push(t.last()) =~= t);
    }
}

/// Joining pieces that do not hold the separator and splitting again gives
/// back the pieces.
pub proof fn law_join_split(pieces: Seq<Seq<char>>, sep: char)
    requires
        pieces.len() >= 1,
        forall|k: int| 0 <= k < pieces.len() ==> !(#[trigger] pieces[k]).contains(sep),
    ensures
        split(join(pieces, sep), sep) == pieces,
    decreases pieces.len(),
{
    if pieces.len() == 1 {
        lemma_split_single(pieces[0], sep);
        assert(seq![pieces[0]] =~= pieces);
    } else {
        let init = pieces.drop_last();
        assert forall|k: int| 0 <= k < init.len() implies !(#[trigger] init[k]).contains(sep) by {
            assert(init[k] == pieces[k]);
        }
        law_join_split(init, sep);
        assert(!pieces.last().contains(sep)) by {
            assert(pieces[pieces.len() - 1] == pieces.last());
        }
        lemma_split_append(join(init, sep), pieces.last(), sep);
        assert(init.push(pieces.last()) =~= pieces);
    }
}

// ---------------------------------------------------------------------------
// From `str` to characters and back
// ---------------------------------------------------------------------------

/// The characters of `s`.
pub fn chars_of(s: &str) -> (v: Vec<char>)
    ensures
        v@ == s@,
{
    let mut v: Vec<char> = Vec::new();
    for c in it: s.chars()
        invariant
            v@ == it.seq().take(it.index() as int),
            it.seq() == s@,
    {
        proof {
            assert(it.seq().take(it.index() + 1) =~= it.seq().take(it.index() as int).push(c));
        }
        v.push(c);
    }
    proof {
        assert(s@.take(s@.len() as int) =~= s@);
    }
    v
}

/// An owned copy of the characters `[lo, hi)` of `s`.
pub fn substring(s: &str, lo: usize, hi: usize) -> (r: String)
    requires
        lo <= hi <= s@.len(),
    ensures
        r@ == s@.subrange(lo as int, hi as int),
{
    String::from_str(s.substring_char(lo, hi))
}

} // verus!
