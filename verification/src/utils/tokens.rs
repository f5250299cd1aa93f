//! Token counts as people write them: `10000`, `10k`, `1.5M`, `1b`.
//!
//! A count is a decimal numeral, optionally signed, optionally with a fraction,
//! optionally followed by one unit letter: `k` for thousands, `m` for millions,
//! `b` for billions, in either case. White space around it is ignored. The
//! count is the numeral times the unit, rounded half up to a whole number; a
//! count beyond the largest 64-bit number is that largest number.

use vstd::prelude::*;
use crate::error::AppError;
use crate::text::{chars_of, push_range};

verus! {

/// The characters that count as white space: the Unicode `White_Space` set.
pub open spec fn is_whitespace(c: char) -> bool {
    let u = c as u32;
    (0x09 <= u <= 0x0d) || u == 0x20 || u == 0x85 || u == 0xa0 || u == 0x1680 || (0x2000 <= u
        <= 0x200a) || u == 0x2028 || u == 0x2029 || u == 0x202f || u == 0x205f || u == 0x3000
}

/// How many white-space characters `s` begins with.
pub open spec fn leading_space(s: Seq<char>) -> nat
    decreases s.len(),
{
    if s.len() > 0 && is_whitespace(s[0]) {
        1 + leading_space(s.drop_first())
    } else {
        0
    }
}

/// How many white-space characters `s` ends with.
pub open spec fn trailing_space(s: Seq<char>) -> nat
    decreases s.len(),
{
    if s.len() > 0 && is_whitespace(s.last()) {
        1 + trailing_space(s.drop_last())
    } else {
        0
    }
}

/// `s` without the white space at its ends.
pub open spec fn trimmed(s: Seq<char>) -> Seq<char> {
    let from = leading_space(s);
    if from == s.len() {
        Seq::empty()
    } else {
        s.subrange(from as int, s.len() - trailing_space(s))
    }
}

/// The number of decimal places that the unit letter `c` moves the point.
pub open spec fn unit_places(c: char) -> Option<nat> {
    if c == 'k' || c == 'K' {
        Some(3)
    } else if c == 'm' || c == 'M' {
        Some(6)
    } else if c == 'b' || c == 'B' {
        Some(9)
    } else {
        None
    }
}

/// Whether every character of `s` is a decimal digit.
pub open spec fn all_digits(s: Seq<char>) -> bool {
    forall|i: int| 0 <= i < s.len() ==> '0' <= #[trigger] s[i] <= '9'
}

/// The number that the digits `s` write.
pub open spec fn digits_value(s: Seq<char>) -> nat
    decreases s.len(),
{
    if s.len() == 0 {
        0
    } else {
        digits_value(s.drop_last()) * 10 + (s.last() as u32 - 48) as nat
    }
}

/// A numeral taken apart: its sign, the digits before the point, and those after.
pub struct Numeral {
    pub negative: bool,
    pub whole: Seq<char>,
    pub fraction: Seq<char>,
}

/// The position of the first point in `s`, or the length of `s` without one.
pub open spec fn point_position(s: Seq<char>) -> nat
    decreases s.len(),
{
    if s.len() > 0 && s[0] != '.' {
        1 + point_position(s.drop_first())
    } else {
        0
    }
}

/// Reads `s` as a numeral: an optional sign, digits, and optionally a point and
/// more digits, with at least one digit in all.
pub open spec fn numeral(s: Seq<char>) -> Option<Numeral> {
    let signed = s.len() > 0 && (s[0] == '-' || s[0] == '+');
    let body = if signed {
        s.drop_first()
    } else {
        s
    };
    let point = point_position(body);
    let whole = body.subrange(0, point as int);
    let fraction = if point < body.len() {
        body.subrange(point as int + 1, body.len() as int)
    } else {
        Seq::empty()
    };
    if all_digits(whole) && all_digits(fraction) && whole.len() + fraction.len() > 0 {
        Some(Numeral { negative: signed && s[0] == '-', whole, fraction })
    } else {
        None
    }
}

/// The digit at position `i` of the fraction, with zeros behind its end.
pub open spec fn fraction_digit(fraction: Seq<char>, i: int) -> char {
    if 0 <= i < fraction.len() {
        fraction[i]
    } else {
        '0'
    }
}

/// The numeral with its point moved `places` to the right, cut off at the
/// point, and rounded half up: one more where the first digit cut off is 5 or more.
pub open spec fn scaled(n: Numeral, places: nat) -> nat {
    let kept = n.whole + Seq::new(places, |i: int| fraction_digit(n.fraction, i));
    let up: nat = if fraction_digit(n.fraction, places as int) >= '5' {
        1
    } else {
        0
    };
    digits_value(kept) + up
}

/// Why a text is not a token count.
pub enum TokenFault {
    /// Nothing but white space.
    Empty,
    /// Not a numeral.
    Malformed,
    /// Below zero.
    Negative,
}

/// The token count that `s` writes, or why it writes none.
pub open spec fn token_count(s: Seq<char>) -> Result<nat, TokenFault> {
    let t = trimmed(s);
    if t.len() == 0 {
        Err(TokenFault::Empty)
    } else {
        let (body, places) = match unit_places(t.last()) {
            Some(p) => (t.drop_last(), p),
            None => (t, 0nat),
        };
        match numeral(body) {
            None => Err(TokenFault::Malformed),
            Some(n) => if n.negative && (digits_value(n.whole) > 0 || digits_value(n.fraction)
                > 0) {
                Err(TokenFault::Negative)
            } else {
                Ok(scaled(n, places))
            },
        }
    }
}

/// What is reported for a text that writes no token count.
pub open spec fn fault_text(s: Seq<char>, fault: TokenFault) -> Seq<char> {
    match fault {
        TokenFault::Empty => "Empty token count"@,
        TokenFault::Malformed => "Invalid token count '"@ + trimmed(s) + "': could not parse number"@,
        TokenFault::Negative => "Invalid token count '"@ + trimmed(s) + "': must be positive"@,
    }
}

/// Decides [`is_whitespace`].
fn whitespace(c: char) -> (r: bool)
    ensures
        r == is_whitespace(c),
{
    let u: u32 = c as u32;
    (0x09 <= u && u <= 0x0d) || u == 0x20 || u == 0x85 || u == 0xa0 || u == 0x1680 || (0x2000 <= u
        && u <= 0x200a) || u == 0x2028 || u == 0x2029 || u == 0x202f || u == 0x205f || u == 0x3000
}

/// Finds the bounds of [`trimmed`]: `s[from..to]`.
fn trim_bounds(s: &Vec<char>) -> (r: (usize, usize))
    ensures
        r.0 <= r.1 <= s.len(),
        trimmed(s@) == s@.subrange(r.0 as int, r.1 as int),
        r.0 < r.1 ==> !is_whitespace(s@[r.0 as int]) && !is_whitespace(s@[r.1 - 1]),
{
    let mut from: usize = 0;
    assert(s@.subrange(0, s.len() as int) == s@);
    while from < s.len() && whitespace(s[from])
        invariant
            from <= s.len(),
            leading_space(s@) == from + leading_space(s@.subrange(from as int, s.len() as int)),
        decreases s.len() - from,
    {
        assert(s@.subrange(from as int, s.len() as int).drop_first() == s@.subrange(
            from + 1,
            s.len() as int,
        ));
        from += 1;
    }
    if from == s.len() {
        assert(s@.subrange(from as int, from as int) == Seq::<char>::empty());
        return (from, from);
    }
    assert(s@.subrange(from as int, s.len() as int)[0] == s@[from as int]);
    let mut to: usize = s.len();
    while whitespace(s[to - 1])
        invariant
            from < to <= s.len(),
            !is_whitespace(s@[from as int]),
            trailing_space(s@) == (s.len() - to) + trailing_space(s@.subrange(0, to as int)),
        decreases to,
    {
        assert(s@.subrange(0, to as int).drop_last() == s@.subrange(0, to - 1));
        to -= 1;
    }
    assert(s@.subrange(0, to as int).last() == s@[to - 1]);
    (from, to)
}

/// Adds the digit `c` behind the number `acc`, stopping at the largest number.
fn push_digit(acc: u64, c: char) -> (r: u64)
    requires
        '0' <= c <= '9',
    ensures
        r == if acc * 10 + (c as u32 - 48) > u64::MAX {
            u64::MAX as int
        } else {
            acc * 10 + (c as u32 - 48)
        },
{
    let d: u64 = (c as u32 - 48) as u64;
    if acc > (u64::MAX - d) / 10 {
        u64::MAX
    } else {
        acc * 10 + d
    }
}

/// `n`, or the largest 64-bit number where `n` is beyond it.
pub open spec fn capped(n: nat) -> u64 {
    if n > u64::MAX {
        u64::MAX
    } else {
        n as u64
    }
}

/// Whether all of `s[from..to]` are digits.
fn digits_only(s: &Vec<char>, from: usize, to: usize) -> (r: bool)
    requires
        from <= to <= s.len(),
    ensures
        r == all_digits(s@.subrange(from as int, to as int)),
{
    let mut i: usize = from;
    while i < to
        invariant
            from <= i <= to <= s.len(),
            all_digits(s@.subrange(from as int, i as int)),
        decreases to - i,
    {
        if !('0' <= s[i] && s[i] <= '9') {
            assert(s@.subrange(from as int, to as int)[i - from] == s@[i as int]);
            return false;
        }
        i += 1;
    }
    true
}

/// Whether some digit of `s[from..to]`, all digits, is not zero.
fn nonzero(s: &Vec<char>, from: usize, to: usize) -> (r: bool)
    requires
        from <= to <= s.len(),
        all_digits(s@.subrange(from as int, to as int)),
    ensures
        r == (digits_value(s@.subrange(from as int, to as int)) > 0),
{
    let mut i: usize = from;
    while i < to
        invariant
            from <= i <= to <= s.len(),
            all_digits(s@.subrange(from as int, to as int)),
            digits_value(s@.subrange(from as int, i as int)) == 0,
        decreases to - i,
    {
        let ghost head = s@.subrange(from as int, i + 1);
        assert(head.drop_last() == s@.subrange(from as int, i as int));
        assert(head.last() == s@.subrange(from as int, to as int)[i - from]);
        if s[i] != '0' {
            proof {
                lemma_digits_value_grows(s@.subrange(from as int, to as int), (i + 1 - from) as nat);
                assert(s@.subrange(from as int, to as int).take((i + 1 - from) as int) == head);
            }
            return true;
        }
        i += 1;
    }
    false
}

/// More digits never write a smaller number.
pub proof fn lemma_digits_value_grows(s: Seq<char>, n: nat)
    requires
        n <= s.len(),
        all_digits(s),
    ensures
        digits_value(s.take(n as int)) <= digits_value(s),
    decreases s.len() - n,
{
    if n < s.len() {
        lemma_digits_value_grows(s, n + 1);
        assert(s.take(n as int + 1).drop_last() == s.take(n as int));
        let d = s.take(n as int + 1).last();
        assert(d == s[n as int]);
    } else {
        assert(s.take(n as int) == s);
    }
}

/// Where the parts of a numeral lie in a text.
struct Layout {
    negative: bool,
    start: usize,
    point: usize,
    fraction_start: usize,
}

/// Reads `s[from..end]` as a numeral.
fn read_numeral(s: &Vec<char>, from: usize, end: usize) -> (r: Option<Layout>)
    requires
        from <= end <= s.len(),
    ensures
        match r {
            Some(l) => {
                &&& from <= l.start <= l.point <= l.fraction_start <= end
                &&& numeral(s@.subrange(from as int, end as int)) == Some(
                    Numeral {
                        negative: l.negative,
                        whole: s@.subrange(l.start as int, l.point as int),
                        fraction: s@.subrange(l.fraction_start as int, end as int),
                    },
                )
                &&& all_digits(s@.subrange(l.start as int, l.point as int))
                &&& all_digits(s@.subrange(l.fraction_start as int, end as int))
            },
            None => numeral(s@.subrange(from as int, end as int)) is None,
        },
{
    let ghost body = s@.subrange(from as int, end as int);
    let signed = from < end && (s[from] == '-' || s[from] == '+');
    let negative = signed && s[from] == '-';
    let start: usize = if signed {
        from + 1
    } else {
        from
    };
    let ghost digits = s@.subrange(start as int, end as int);
    assert(digits == if signed {
        body.drop_first()
    } else {
        body
    });
    let mut point: usize = start;
    while point < end && s[point] != '.'
        invariant
            start <= point <= end <= s.len(),
            digits == s@.subrange(start as int, end as int),
            point_position(digits) == (point - start) + point_position(
                s@.subrange(point as int, end as int),
            ),
        decreases end - point,
    {
        assert(s@.subrange(point as int, end as int).drop_first() == s@.subrange(
            point + 1,
            end as int,
        ));
        point += 1;
    }
    let fraction_start: usize = if point < end {
        point + 1
    } else {
        end
    };
    proof {
        assert(s@.subrange(start as int, point as int) == digits.subrange(0, point - start));
        if point < end {
            assert(s@.subrange(fraction_start as int, end as int) == digits.subrange(
                point - start + 1,
                digits.len() as int,
            ));
        } else {
            assert(s@.subrange(fraction_start as int, end as int) == Seq::<char>::empty());
        }
    }
    if digits_only(s, start, point) && digits_only(s, fraction_start, end) && (point - start) + (end
        - fraction_start) > 0 {
        Some(Layout { negative, start, point, fraction_start })
    } else {
        None
    }
}

/// Computes [`scaled`], capped, for the numeral laid out in `s`.
fn scale(s: &Vec<char>, start: usize, point: usize, fraction_start: usize, end: usize, places: usize) -> (r:
    u64)
    requires
        start <= point <= fraction_start <= end <= s.len(),
        places <= 9,
        all_digits(s@.subrange(start as int, point as int)),
        all_digits(s@.subrange(fraction_start as int, end as int)),
    ensures
        r == capped(
            scaled(
                Numeral {
                    negative: false,
                    whole: s@.subrange(start as int, point as int),
                    fraction: s@.subrange(fraction_start as int, end as int),
                },
                places as nat,
            ),
        ),
{
    let ghost whole = s@.subrange(start as int, point as int);
    let ghost fraction = s@.subrange(fraction_start as int, end as int);
    let mut acc: u64 = 0;
    let mut i: usize = start;
    assert(s@.subrange(start as int, start as int) == Seq::<char>::empty());
    while i < point
        invariant
            start <= i <= point <= s.len(),
            whole == s@.subrange(start as int, point as int),
            all_digits(whole),
            acc == capped(digits_value(s@.subrange(start as int, i as int))),
        decreases point - i,
    {
        let ghost head = s@.subrange(start as int, i + 1);
        assert(head.drop_last() == s@.subrange(start as int, i as int));
        assert(head.last() == whole[i - start]);
        acc = push_digit(acc, s[i]);
        i += 1;
    }
    let ghost padding = Seq::new(places as nat, |i: int| fraction_digit(fraction, i));
    let mut k: usize = 0;
    assert(whole + padding.take(0) == whole);
    while k < places
        invariant
            k <= places <= 9,
            fraction_start <= end <= s.len(),
            fraction == s@.subrange(fraction_start as int, end as int),
            all_digits(fraction),
            padding == Seq::new(places as nat, |i: int| fraction_digit(fraction, i)),
            acc == capped(digits_value(whole + padding.take(k as int))),
        decreases places - k,
    {
        let c = if k < end - fraction_start {
            s[fraction_start + k]
        } else {
            '0'
        };
        assert(c == fraction_digit(fraction, k as int));
        let ghost head = whole + padding.take(k + 1);
        assert(head.drop_last() == whole + padding.take(k as int));
        assert(head.last() == c);
        acc = push_digit(acc, c);
        k += 1;
    }
    assert(padding.take(places as int) == padding);
    let up = places < end - fraction_start && s[fraction_start + places] >= '5';
    assert(up == (fraction_digit(fraction, places as int) >= '5'));
    if up && acc < u64::MAX {
        acc + 1
    } else {
        acc
    }
}

/// Parses a token count with an optional unit letter.
pub fn parse_tokens(s: &str) -> (r: Result<u64, AppError>)
    ensures
        match r {
            Ok(n) => token_count(s@) matches Ok(count) && n == capped(count),
            Err(e) => token_count(s@) matches Err(fault) && e matches AppError::Config(text)
                && text@ == fault_text(s@, fault),
        },
{
    let chars = chars_of(s);
    let (from, to) = trim_bounds(&chars);
    if from == to {
        return Err(AppError::Config("Empty token count".to_owned()));
    }
    let ghost t = trimmed(s@);
    let last = chars[to - 1];
    assert(last == t.last());
    let (end, places): (usize, usize) = if last == 'k' || last == 'K' {
        (to - 1, 3)
    } else if last == 'm' || last == 'M' {
        (to - 1, 6)
    } else if last == 'b' || last == 'B' {
        (to - 1, 9)
    } else {
        (to, 0)
    };
    assert(chars@.subrange(from as int, end as int) == if unit_places(t.last()) is Some {
        t.drop_last()
    } else {
        t
    });
    match read_numeral(&chars, from, end) {
        None => {
            let mut text = String::new();
            text.append("Invalid token count '");
            push_range(&mut text, &chars, from, to);
            text.append("': could not parse number");
            Err(AppError::Config(text))
        },
        Some(l) => {
            if l.negative && (nonzero(&chars, l.start, l.point) || nonzero(
                &chars,
                l.fraction_start,
                end,
            )) {
                let mut text = String::new();
                text.append("Invalid token count '");
                push_range(&mut text, &chars, from, to);
                text.append("': must be positive");
                Err(AppError::Config(text))
            } else {
                Ok(scale(&chars, l.start, l.point, l.fraction_start, end, places))
            }
        },
    }
}

} // verus!
