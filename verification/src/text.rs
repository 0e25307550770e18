//! Small text operations that the other modules build their messages and names with.

use vstd::prelude::*;
use vstd::string::*;

verus! {

/// `s` without the slashes that it starts with.
pub open spec fn without_leading_slashes(s: Seq<char>) -> Seq<char>
    decreases s.len(),
{
    if s.len() > 0 && s.first() == '/' {
        without_leading_slashes(s.drop_first())
    } else {
        s
    }
}

/// `s` without the slashes that it ends with.
pub open spec fn without_trailing_slashes(s: Seq<char>) -> Seq<char>
    decreases s.len(),
{
    if s.len() > 0 && s.last() == '/' {
        without_trailing_slashes(s.drop_last())
    } else {
        s
    }
}

/// `s` without the slashes at either end.
pub open spec fn trimmed(s: Seq<char>) -> Seq<char> {
    without_trailing_slashes(without_leading_slashes(s))
}

/// Drops the slashes at both ends of `s`.
pub fn trim_slashes(s: &str) -> (r: &str)
    ensures
        r@ == trimmed(s@),
{
    let len: usize = s.unicode_len();
    let mut from: usize = 0;
    assert(s@.subrange(0, len as int) =~= s@);
    while from < len && s.get_char(from) == '/'
        invariant
            from <= len,
            len == s@.len(),
            without_leading_slashes(s@) == without_leading_slashes(
                s@.subrange(from as int, len as int),
            ),
        decreases len - from,
    {
        assert(s@.subrange(from as int, len as int).drop_first() =~= s@.subrange(
            from + 1,
            len as int,
        ));
        from = from + 1;
    }
    let mut to: usize = len;
    let ghost rest = s@.subrange(from as int, len as int);
    assert(without_leading_slashes(s@) == rest);
    while to > from && s.get_char(to - 1) == '/'
        invariant
            from <= to <= len,
            len == s@.len(),
            without_trailing_slashes(rest) == without_trailing_slashes(
                s@.subrange(from as int, to as int),
            ),
        decreases to,
    {
        assert(s@.subrange(from as int, to as int).drop_last() =~= s@.subrange(
            from as int,
            to - 1,
        ));
        to = to - 1;
    }
    s.substring_char(from, to)
}

/// The decimal digit for `d`.
pub open spec fn digit(d: nat) -> char {
    ('0' as u32 + d) as char
}

/// `n` written in decimal, without leading zeros.
pub open spec fn decimal(n: nat) -> Seq<char>
    decreases n,
{
    if n < 10 {
        seq![digit(n)]
    } else {
        decimal(n / 10).push(digit(n % 10))
    }
}

/// The text of a single decimal digit.
fn digit_text(d: usize) -> (r: &'static str)
    requires
        d < 10,
    ensures
        r@ == seq![digit(d as nat)],
{
    proof {
        reveal_strlit("0");
        reveal_strlit("1");
        reveal_strlit("2");
        reveal_strlit("3");
        reveal_strlit("4");
        reveal_strlit("5");
        reveal_strlit("6");
        reveal_strlit("7");
        reveal_strlit("8");
        reveal_strlit("9");
    }
    match d {
        0 => "0",
        1 => "1",
        2 => "2",
        3 => "3",
        4 => "4",
        5 => "5",
        6 => "6",
        7 => "7",
        8 => "8",
        _ => "9",
    }
}

/// Writes `n` in decimal.
pub fn decimal_text(n: usize) -> (r: String)
    ensures
        r@ == decimal(n as nat),
    decreases n,
{
    if n < 10 {
        digit_text(n).to_owned()
    } else {
        let mut r: String = decimal_text(n / 10);
        r.append(digit_text(n % 10));
        proof {
            assert(decimal((n / 10) as nat) + seq![digit((n % 10) as nat)] =~= decimal(n as nat));
        }
        r
    }
}

/// The text `before`, then `shown`, then `after`.
pub fn wrap(before: &str, shown: &str, after: &str) -> (r: String)
    ensures
        r@ == before@ + shown@ + after@,
{
    let mut r: String = before.to_owned();
    r.append(shown);
    r.append(after);
    r
}

/// The texts of `parts` one after another, with `separator` between neighbours.
pub open spec fn joined(parts: Seq<Seq<char>>, separator: Seq<char>) -> Seq<char>
    decreases parts.len(),
{
    if parts.len() == 0 {
        Seq::empty()
    } else if parts.len() == 1 {
        parts[0]
    } else {
        joined(parts.drop_last(), separator) + separator + parts.last()
    }
}

/// The model of an optional text.
pub open spec fn optional(s: Option<&str>) -> Option<Seq<char>> {
    match s {
        Some(t) => Some(t@),
        None => None,
    }
}

/// An owned copy of an optional text.
pub fn owned(s: Option<&str>) -> (r: Option<String>)
    ensures
        r.deep_view() == optional(s),
{
    match s {
        Some(t) => Some(t.to_owned()),
        None => None,
    }
}

/// An optional text, borrowed.
pub fn borrowed(s: &Option<String>) -> (r: Option<&str>)
    ensures
        optional(r) == s.deep_view(),
{
    match s {
        Some(t) => Some(t.as_str()),
        None => None,
    }
}

/// Whether every character of `s` is one of the ten decimal digits.
pub open spec fn all_digits(s: Seq<char>) -> bool {
    forall|i: int| 0 <= i < s.len() ==> '0' <= #[trigger] s[i] <= '9'
}

/// The number that a row of decimal digits stands for.
pub open spec fn digits_value(s: Seq<char>) -> int
    decreases s.len(),
{
    if s.len() == 0 {
        0
    } else {
        10 * digits_value(s.drop_last()) + (s.last() as int - '0' as int)
    }
}

/// The signed integer that `s` stands for: an optional sign, then one or more decimal digits,
/// with a value in the range of `i64`.
pub open spec fn signed_value(s: Seq<char>) -> Option<i64> {
    let signed = s.len() > 0 && (s.first() == '-' || s.first() == '+');
    let digits = if signed {
        s.drop_first()
    } else {
        s
    };
    let value = if signed && s.first() == '-' {
        -digits_value(digits)
    } else {
        digits_value(digits)
    };
    if digits.len() > 0 && all_digits(digits) && i64::MIN <= value <= i64::MAX {
        Some(value as i64)
    } else {
        None
    }
}

/// Calls `str::parse::<i64>` of std. Claimed of it: it accepts an optional `+` or `-` followed by
/// decimal digits only, whose value `i64` can hold, and returns that value; on anything else it
/// fails.
#[verifier::external_body]
pub(crate) fn parse_signed(s: &str) -> (r: Option<i64>)
    ensures
        r == signed_value(s@),
{
    s.parse::<i64>().ok()
}

/// Trimming leaves no slash at either end, and trimming again changes nothing.
pub proof fn trimmed_has_no_outer_slash(s: Seq<char>)
    ensures
        trimmed(s).len() > 0 ==> trimmed(s).first() != '/' && trimmed(s).last() != '/',
        trimmed(trimmed(s)) == trimmed(s),
{
    let lead = without_leading_slashes(s);
    leading_slashes_gone(s);
    trailing_slashes_gone(lead);
    let t = trimmed(s);
    if t.len() > 0 {
        assert(t.first() == lead.first());
    }
}

proof fn leading_slashes_gone(s: Seq<char>)
    ensures
        without_leading_slashes(s).len() > 0 ==> without_leading_slashes(s).first() != '/',
    decreases s.len(),
{
    if s.len() > 0 && s.first() == '/' {
        leading_slashes_gone(s.drop_first());
    }
}

proof fn trailing_slashes_gone(s: Seq<char>)
    ensures
        without_trailing_slashes(s).len() <= s.len(),
        without_trailing_slashes(s) == s.take(without_trailing_slashes(s).len() as int),
        without_trailing_slashes(s).len() > 0 ==> without_trailing_slashes(s).last() != '/',
    decreases s.len(),
{
    if s.len() > 0 && s.last() == '/' {
        trailing_slashes_gone(s.drop_last());
        let t = without_trailing_slashes(s);
        assert(s.drop_last().take(t.len() as int) =~= s.take(t.len() as int));
    } else {
        assert(s.take(s.len() as int) =~= s);
    }
}

/// A slash more at either end changes nothing in what is left by trimming.
pub proof fn outer_slashes_do_not_matter(s: Seq<char>)
    ensures
        trimmed(seq!['/'] + s) == trimmed(s),
        trimmed(s.push('/')) == trimmed(s),
{
    assert((seq!['/'] + s).drop_first() =~= s);
    slash_behind_is_trimmed(s);
}

proof fn slash_behind_is_trimmed(s: Seq<char>)
    ensures
        trimmed(s.push('/')) == trimmed(s),
    decreases s.len(),
{
    let t = s.push('/');
    if s.len() == 0 {
        assert(t.drop_first() =~= s);
    } else if s.first() == '/' {
        assert(t.drop_first() =~= s.drop_first().push('/'));
        slash_behind_is_trimmed(s.drop_first());
    } else {
        assert(t.first() == s.first());
        assert(t.drop_last() =~= s);
    }
}

} // verus!
