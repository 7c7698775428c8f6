//! Decimal numerals: writing unsigned integers in base ten, and reading
//! integers written in base ten the way the standard library's `FromStr`
//! for integers reads them.

use vstd::prelude::*;
use crate::text::push_char;

verus! {

pub open spec fn is_digit(c: char) -> bool {
    '0' <= c && c <= '9'
}

/// The value of a decimal digit.
pub open spec fn digit_of(c: char) -> nat {
    (c as int - '0' as int) as nat
}

/// The character of a digit value below 10.
pub open spec fn digit_char(d: nat) -> char {
    if d == 0 {
        '0'
    } else if d == 1 {
        '1'
    } else if d == 2 {
        '2'
    } else if d == 3 {
        '3'
    } else if d == 4 {
        '4'
    } else if d == 5 {
        '5'
    } else if d == 6 {
        '6'
    } else if d == 7 {
        '7'
    } else if d == 8 {
        '8'
    } else {
        '9'
    }
}

pub open spec fn all_digits(s: Seq<char>) -> bool {
    forall|i: int| 0 <= i < s.len() ==> is_digit(#[trigger] s[i])
}

/// The number that a string of digits denotes in base ten.
pub open spec fn digits_value(s: Seq<char>) -> nat
    decreases s.len(),
{
    if s.len() == 0 {
        0
    } else {
        digits_value(s.drop_last()) * 10 + digit_of(s.last())
    }
}

/// `n` written in base ten, without leading zeros.
pub open spec fn decimal_text(n: nat) -> Seq<char>
    decreases n,
{
    if n < 10 {
        seq![digit_char(n)]
    } else {
        decimal_text(n / 10).push(digit_char(n % 10))
    }
}

/// What reading `s` as an unsigned integer of largest value `max` gives: an
/// optional `+`, then one or more digits, denoting at most `max`.
pub open spec fn unsigned_text_value(s: Seq<char>, max: nat) -> Option<nat> {
    let body = if s.len() > 0 && s[0] == '+' { s.drop_first() } else { s };
    if body.len() > 0 && all_digits(body) && digits_value(body) <= max {
        Some(digits_value(body))
    } else {
        None
    }
}

/// What reading `s` as an `i64` gives: an optional `+` or `-`, then one or
/// more digits, denoting a value within `i64`.
pub open spec fn i64_text_value(s: Seq<char>) -> Option<int> {
    if s.len() > 0 && s[0] == '-' {
        let body = s.drop_first();
        if body.len() > 0 && all_digits(body) && digits_value(body) <= i64::MAX + 1 {
            Some(-digits_value(body))
        } else {
            None
        }
    } else {
        match unsigned_text_value(s, i64::MAX as nat) {
            Some(v) => Some(v as int),
            None => None,
        }
    }
}

proof fn lemma_digit_char(d: nat)
    requires
        d < 10,
    ensures
        is_digit(digit_char(d)),
        digit_of(digit_char(d)) == d,
{
}

/// The text of `n` is a nonempty run of digits that denotes `n`.
pub proof fn lemma_decimal_text(n: nat)
    ensures
        decimal_text(n).len() > 0,
        all_digits(decimal_text(n)),
        digits_value(decimal_text(n)) == n,
        decimal_text(n)[0] != '+' && decimal_text(n)[0] != '-' && decimal_text(n)[0] != ',',
        forall|i: int| 0 <= i < decimal_text(n).len() ==> #[trigger] decimal_text(n)[i] != ',',
    decreases n,
{
    if n < 10 {
        lemma_digit_char(n);
        let s = seq![digit_char(n)];
        assert(s.drop_last() =~= Seq::<char>::empty());
        assert(digits_value(s) == digits_value(s.drop_last()) * 10 + digit_of(s.last()));
    } else {
        lemma_decimal_text(n / 10);
        lemma_digit_char(n % 10);
        let t = decimal_text(n / 10);
        let s = t.push(digit_char(n % 10));
        assert(s.drop_last() =~= t);
        assert(digits_value(s) == digits_value(t) * 10 + digit_of(digit_char(n % 10)));
        assert forall|i: int| 0 <= i < s.len() implies is_digit(#[trigger] s[i]) by {
            if i < t.len() {
                assert(s[i] == t[i]);
            }
        }
        assert forall|i: int| 0 <= i < s.len() implies #[trigger] s[i] != ',' by {
            if i < t.len() {
                assert(s[i] == t[i]);
            }
        }
    }
}

/// Reading back the text of `n` gives `n`.
pub proof fn lemma_unsigned_round_trip(n: nat, max: nat)
    requires
        n <= max,
    ensures
        unsigned_text_value(decimal_text(n), max) == Some(n),
{
    lemma_decimal_text(n);
}

/// A prefix of a run of digits denotes at most what the whole run does.
proof fn lemma_digits_prefix(s: Seq<char>, j: int)
    requires
        0 <= j <= s.len(),
    ensures
        digits_value(s.take(j)) <= digits_value(s),
    decreases s.len(),
{
    if j < s.len() {
        assert(s.drop_last().take(j) =~= s.take(j));
        lemma_digits_prefix(s.drop_last(), j);
    } else {
        assert(s.take(j) =~= s);
    }
}

/// One more digit on a prefix.
proof fn lemma_digits_extend(s: Seq<char>, i: int)
    requires
        0 <= i < s.len(),
    ensures
        digits_value(s.take(i + 1)) == digits_value(s.take(i)) * 10 + digit_of(s[i]),
{
    assert(s.take(i + 1).drop_last() =~= s.take(i));
}

/// The character of a digit value.
fn digit_to_char(d: u64) -> (c: char)
    requires
        d < 10,
    ensures
        c == digit_char(d as nat),
{
    if d == 0 {
        '0'
    } else if d == 1 {
        '1'
    } else if d == 2 {
        '2'
    } else if d == 3 {
        '3'
    } else if d == 4 {
        '4'
    } else if d == 5 {
        '5'
    } else if d == 6 {
        '6'
    } else if d == 7 {
        '7'
    } else if d == 8 {
        '8'
    } else {
        '9'
    }
}

/// `n` written in base ten.
pub fn decimal_string(n: u64) -> (r: String)
    ensures
        r@ == decimal_text(n as nat),
{
    let mut digits: Vec<char> = Vec::new();
    let mut rest: u64 = n;
    while rest >= 10
        invariant
            decimal_text(n as nat) == decimal_text(rest as nat) + digits@.reverse(),
        decreases rest,
    {
        proof {
            let t = decimal_text(rest as nat);
            assert(t == decimal_text((rest / 10) as nat).push(digit_char((rest % 10) as nat)));
        }
        let d = rest % 10;
        let c = digit_to_char(d);
        let ghost before = digits@;
        digits.push(c);
        proof {
            assert(digits@.reverse() =~= seq![c] + before.reverse());
            assert(decimal_text(rest as nat) =~= decimal_text((rest / 10) as nat) + seq![c]);
            assert(decimal_text(rest as nat) + before.reverse() =~= decimal_text((rest / 10) as nat) + digits@.reverse());
        }
        rest = rest / 10;
    }
    let first = digit_to_char(rest);
    let mut out = String::new();
    push_char(&mut out, first);
    assert(out@ =~= decimal_text(rest as nat));
    let mut k: usize = digits.len();
    while k > 0
        invariant
            k <= digits@.len(),
            decimal_text(n as nat) == decimal_text(rest as nat) + digits@.reverse(),
            out@ =~= decimal_text(rest as nat) + digits@.reverse().take((digits@.len() - k) as int),
        decreases k,
    {
        k = k - 1;
        let ghost before = out@;
        push_char(&mut out, digits[k]);
        proof {
            let r = digits@.reverse();
            let m = (digits@.len() - k) as int;
            assert(r[m - 1] == digits@[k as int]);
            assert(r.take(m) =~= r.take(m - 1).push(r[m - 1]));
        }
    }
    proof {
        assert(digits@.reverse().take(digits@.len() as int) =~= digits@.reverse());
    }
    out
}

/// The value of a decimal digit character, or nothing for another character.
fn digit_value(c: char) -> (r: Option<u64>)
    ensures
        r is Some <==> is_digit(c),
        r is Some ==> r->0 == digit_of(c),
{
    if '0' <= c && c <= '9' {
        Some((c as u32 - '0' as u32) as u64)
    } else {
        None
    }
}

/// Reads the characters of `s` from position `from` on as a run of one or
/// more digits denoting at most `max`.
fn digits_at_most(s: &str, from: usize, max: u64) -> (r: Option<u64>)
    requires
        from <= s@.len(),
    ensures
        ({
            let body = s@.skip(from as int);
            &&& r is Some <==> (body.len() > 0 && all_digits(body) && digits_value(body) <= max)
            &&& r is Some ==> r->0 == digits_value(body)
        }),
{
    let len = s.unicode_len();
    let ghost body = s@.skip(from as int);
    if from == len {
        return None;
    }
    let mut acc: u64 = 0;
    let mut i: usize = from;
    assert(body.take(0) =~= Seq::<char>::empty());
    while i < len
        invariant
            from <= i <= len,
            len == s@.len(),
            body == s@.skip(from as int),
            all_digits(body.take(i - from)),
            acc == digits_value(body.take(i - from)),
            acc <= max,
        decreases len - i,
    {
        let c = s.get_char(i);
        assert(c == body[i - from]);
        match digit_value(c) {
            None => {
                return None;
            },
            Some(d) => {
                proof {
                    lemma_digits_extend(body, i - from);
                }
                if d > max || acc > (max - d) / 10 {
                    proof {
                        assert(acc * 10 + d > max) by (nonlinear_arith)
                            requires
                                d > max || acc > (max - d) / 10,
                                acc >= 0,
                        ;
                        if all_digits(body) {
                            lemma_digits_prefix(body, i - from + 1);
                        }
                    }
                    return None;
                }
                proof {
                    assert(acc * 10 + d <= max) by (nonlinear_arith)
                        requires
                            acc <= (max - d) / 10,
                            d <= max,
                    ;
                    assert forall|j: int| 0 <= j < i - from + 1 implies is_digit(#[trigger] body.take(i - from + 1)[j]) by {
                        if j < i - from {
                            assert(body.take(i - from + 1)[j] == body.take(i - from)[j]);
                        }
                    }
                }
                acc = acc * 10 + d;
            },
        }
        i = i + 1;
    }
    assert(body.take(len - from) =~= body);
    Some(acc)
}

/// Reads `s` as an unsigned integer of at most `max`: an optional `+`, then
/// one or more digits. Signs other than a leading `+`, spaces and any other
/// character give nothing, as does a value above `max`.
fn unsigned_at_most(s: &str, max: u64) -> (r: Option<u64>)
    ensures
        r is Some <==> unsigned_text_value(s@, max as nat) is Some,
        r is Some ==> r->0 == unsigned_text_value(s@, max as nat)->0,
{
    let len = s.unicode_len();
    if len > 0 && s.get_char(0) == '+' {
        assert(s@.skip(1) =~= s@.drop_first());
        digits_at_most(s, 1, max)
    } else {
        assert(s@.skip(0) =~= s@);
        digits_at_most(s, 0, max)
    }
}

/// Reads `s` as a `u64`, as `str::parse::<u64>` does.
pub fn parse_u64(s: &str) -> (r: Option<u64>)
    ensures
        r is Some <==> unsigned_text_value(s@, u64::MAX as nat) is Some,
        r is Some ==> r->0 == unsigned_text_value(s@, u64::MAX as nat)->0,
{
    unsigned_at_most(s, u64::MAX)
}

/// Reads `s` as a `u32`, as `str::parse::<u32>` does.
pub fn parse_u32(s: &str) -> (r: Option<u32>)
    ensures
        r is Some <==> unsigned_text_value(s@, u32::MAX as nat) is Some,
        r is Some ==> r->0 == unsigned_text_value(s@, u32::MAX as nat)->0,
{
    match unsigned_at_most(s, u32::MAX as u64) {
        Some(v) => Some(v as u32),
        None => None,
    }
}

/// Reads `s` as an `i64`, as `str::parse::<i64>` does: an optional `+` or
/// `-`, then one or more digits, within `i64`.
pub fn parse_i64(s: &str) -> (r: Option<i64>)
    ensures
        r is Some <==> i64_text_value(s@) is Some,
        r is Some ==> r->0 == i64_text_value(s@)->0,
{
    let len = s.unicode_len();
    if len > 0 && s.get_char(0) == '-' {
        assert(s@.skip(1) =~= s@.drop_first());
        match digits_at_most(s, 1, 9223372036854775808u64) {
            Some(m) => {
                if m == 9223372036854775808u64 {
                    Some(i64::MIN)
                } else {
                    Some(-(m as i64))
                }
            },
            None => None,
        }
    } else {
        match unsigned_at_most(s, i64::MAX as u64) {
            Some(v) => Some(v as i64),
            None => None,
        }
    }
}

} // verus!
