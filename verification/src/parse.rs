use vstd::prelude::*;

verus! {

use crate::convert::to_celsius_in_range;
use crate::convert::to_fahrenheit_in_range;
use crate::temp::Temp;

/// ASCII decimal digit, `'0'` (48) through `'9'` (57).
pub open spec fn is_ascii_digit(b: u8) -> bool {
    48 <= b <= 57
}

/// Every byte of the sequence is an ASCII digit.
pub open spec fn all_digits(s: Seq<u8>) -> bool {
    forall|i: int| 0 <= i < s.len() ==> is_ascii_digit(#[trigger] s[i])
}

/// The number a sequence of ASCII digits spells in base ten.
pub open spec fn digits_val(s: Seq<u8>) -> int
    decreases s.len(),
{
    if s.len() == 0 {
        0
    } else {
        10 * digits_val(s.drop_last()) + (s.last() - 48)
    }
}

/// Ten to the power `n`.
pub open spec fn pow10(n: nat) -> int
    decreases n,
{
    if n == 0 {
        1
    } else {
        10 * pow10((n - 1) as nat)
    }
}

/// Index of the first `'.'` (46) in the sequence, or its length if none.
pub open spec fn dot_pos(s: Seq<u8>) -> int
    decreases s.len(),
{
    if s.len() == 0 {
        0
    } else if s[0] == 46 {
        0
    } else {
        1 + dot_pos(s.subrange(1, s.len() as int))
    }
}

/// The input starts with a minus sign (45).
pub open spec fn is_neg(s: Seq<u8>) -> bool {
    s.len() > 0 && s[0] == 45
}

/// The input with a leading `'+'` (43) or `'-'` (45) stripped.
pub open spec fn body_of(s: Seq<u8>) -> Seq<u8> {
    if s.len() > 0 && (s[0] == 43 || s[0] == 45) {
        s.subrange(1, s.len() as int)
    } else {
        s
    }
}

/// The digits before the first `'.'` of the unsigned body.
pub open spec fn int_digits(s: Seq<u8>) -> Seq<u8> {
    body_of(s).subrange(0, dot_pos(body_of(s)))
}

/// The bytes after the first `'.'` of the unsigned body; empty if no `'.'`.
pub open spec fn frac_digits(s: Seq<u8>) -> Seq<u8> {
    let b = body_of(s);
    if dot_pos(b) < b.len() {
        b.subrange(dot_pos(b) + 1, b.len() as int)
    } else {
        Seq::empty()
    }
}

/// A plain decimal number: an optional sign, one or more integer digits,
/// and optionally a `'.'` followed by one or more fraction digits.
pub open spec fn valid_decimal(s: Seq<u8>) -> bool {
    let b = body_of(s);
    &&& int_digits(s).len() > 0
    &&& all_digits(int_digits(s))
    &&& all_digits(frac_digits(s))
    &&& (dot_pos(b) == b.len() || frac_digits(s).len() > 0)
}

/// At most fifteen digits in all, so the parsed value and its conversions
/// stay well inside `i64` arithmetic.
pub open spec fn within_digit_budget(s: Seq<u8>) -> bool {
    int_digits(s).len() + frac_digits(s).len() <= 15
}

/// Numerator a valid decimal denotes: the digits read as one integer,
/// negated under a leading minus sign.
pub open spec fn decimal_num(s: Seq<u8>) -> int {
    let mag = digits_val(int_digits(s)) * pow10(frac_digits(s).len()) + digits_val(
        frac_digits(s),
    );
    if is_neg(s) {
        -mag
    } else {
        mag
    }
}

/// Denominator a valid decimal denotes: ten to the number of fraction digits.
pub open spec fn decimal_den(s: Seq<u8>) -> int {
    pow10(frac_digits(s).len())
}

proof fn lemma_digits_val_push(t: Seq<u8>, b: u8)
    ensures
        digits_val(t.push(b)) == 10 * digits_val(t) + (b - 48),
{
    assert(t.push(b).drop_last() =~= t);
    assert(t.push(b).last() == b);
}

proof fn lemma_pow10_pos(n: nat)
    ensures
        pow10(n) >= 1,
    decreases n,
{
    if n > 0 {
        lemma_pow10_pos((n - 1) as nat);
    }
}

proof fn lemma_pow10_monotone(a: nat, b: nat)
    requires
        a <= b,
    ensures
        pow10(a) <= pow10(b),
    decreases b,
{
    lemma_pow10_pos(a);
    if a < b {
        lemma_pow10_monotone(a, (b - 1) as nat);
    }
}

proof fn lemma_digits_val_bound(s: Seq<u8>)
    requires
        all_digits(s),
    ensures
        0 <= digits_val(s) < pow10(s.len()),
    decreases s.len(),
{
    if s.len() > 0 {
        assert(all_digits(s.drop_last()));
        lemma_digits_val_bound(s.drop_last());
    }
}

proof fn lemma_pow10_15()
    ensures
        pow10(15) == 1000000000000000,
{
    reveal_with_fuel(pow10, 16);
}

/// Parses an ASCII decimal such as `-273.15` into an exact rational `Temp`.
///
/// Succeeds exactly for an optional sign, one or more integer digits, and
/// optionally a dot followed by one or more fraction digits, with at most
/// fifteen digits in all; the digit budget keeps the value and both of its
/// conversions inside `i64` arithmetic.
#[verifier::loop_isolation(false)]
#[verifier::rlimit(60)]
pub fn parse_decimal(s: &[u8]) -> (r: Option<Temp>)
    ensures
        match r {
            Some(t) => {
                &&& valid_decimal(s@)
                &&& within_digit_budget(s@)
                &&& t.wf()
                &&& t.num == decimal_num(s@)
                &&& t.den == decimal_den(s@)
                &&& to_fahrenheit_in_range(t)
                &&& to_celsius_in_range(t)
            },
            None => !(valid_decimal(s@) && within_digit_budget(s@)),
        },
{
    let n: usize = s.len();
    let mut i: usize = 0;
    let mut neg: bool = false;
    if 0 < n && (s[0] == 43 || s[0] == 45) {
        neg = s[0] == 45;
        i = 1;
    }
    let start: usize = i;
    let ghost b: Seq<u8> = body_of(s@);
    proof {
        assert(b =~= s@.subrange(start as int, n as int));
        assert(neg == is_neg(s@));
        lemma_pow10_15();
    }
    let mut mag: u64 = 0;
    let mut digits: usize = 0;
    while i < n && 48 <= s[i] && s[i] <= 57
        invariant
            start <= i <= n,
            digits == i - start,
            digits <= 15,
            all_digits(s@.subrange(start as int, i as int)),
            mag == digits_val(s@.subrange(start as int, i as int)),
            mag < pow10(digits as nat),
        decreases n - i,
    {
        if digits == 15 {
            proof {
                lemma_dot_pos(b);
                // every byte of the body up to and including position 15 is a
                // digit, so the first dot comes later and the integer part
                // alone exceeds the budget
                assert(b[15] == s@[i as int]);
                if dot_pos(b) <= 15 {
                    assert(b[dot_pos(b)] == 46);
                    assert(is_ascii_digit(s@.subrange(start as int, i as int)[dot_pos(b)]));
                }
                assert(int_digits(s@).len() > 15);
            }
            return None;
        }
        proof {
            lemma_digits_val_push(s@.subrange(start as int, i as int), s@[i as int]);
            assert(s@.subrange(start as int, i as int + 1) =~= s@.subrange(
                start as int,
                i as int,
            ).push(s@[i as int]));
            lemma_pow10_monotone((digits + 1) as nat, 15);
            assert(pow10((digits + 1) as nat) == 10 * pow10(digits as nat));
        }
        mag = mag * 10 + ((s[i] - 48) as u64);
        i = i + 1;
        digits = digits + 1;
    }
    let int_len: usize = digits;
    proof {
        lemma_dot_pos(b);
        // the scanned digits are dot-free, so the first dot is no earlier
        assert(dot_pos(b) >= int_len as int) by {
            if dot_pos(b) < int_len as int {
                assert(b[dot_pos(b)] == 46);
                assert(is_ascii_digit(s@.subrange(start as int, i as int)[dot_pos(b)]));
            }
        }
    }
    if int_len == 0 {
        proof {
            if i < n {
                if dot_pos(b) > 0 {
                    assert(!is_ascii_digit(int_digits(s@)[0]));
                }
            } else {
                assert(b.len() == 0);
            }
            assert(!valid_decimal(s@));
        }
        return None;
    }
    let ghost ip: Seq<u8> = int_digits(s@);
    let mut frac_len: usize = 0;
    if i < n {
        if s[i] != 46 {
            proof {
                // a byte that is neither digit nor dot sits inside the
                // integer part
                assert(dot_pos(b) > int_len as int);
                assert(!is_ascii_digit(int_digits(s@)[int_len as int]));
            }
            return None;
        }
        proof {
            assert(b[int_len as int] == 46);
            assert(dot_pos(b) == int_len as int);
            assert(ip =~= s@.subrange(start as int, i as int));
        }
        i = i + 1;
        let ghost fstart: int = i as int;
        while i < n && 48 <= s[i] && s[i] <= 57
            invariant
                fstart <= i <= n,
                frac_len == i - fstart,
                digits == int_len + frac_len,
                digits <= 15,
                all_digits(s@.subrange(fstart, i as int)),
                mag == digits_val(ip) * pow10(frac_len as nat) + digits_val(
                    s@.subrange(fstart, i as int),
                ),
                mag < pow10(digits as nat),
            decreases n - i,
        {
            if digits == 15 {
                proof {
                    // the fraction part runs to the end of the input and
                    // holds at least one more byte than scanned so far
                    assert(frac_digits(s@).len() >= frac_len + 1);
                }
                return None;
            }
            proof {
                lemma_digits_val_push(s@.subrange(fstart, i as int), s@[i as int]);
                assert(s@.subrange(fstart, i as int + 1) =~= s@.subrange(fstart, i as int).push(
                    s@[i as int],
                ));
                lemma_pow10_monotone((digits + 1) as nat, 15);
                assert(pow10((digits + 1) as nat) == 10 * pow10(digits as nat));
                assert(pow10((frac_len + 1) as nat) == 10 * pow10(frac_len as nat));
                assert(digits_val(ip) * (10 * pow10(frac_len as nat)) == 10 * (digits_val(ip)
                    * pow10(frac_len as nat))) by (nonlinear_arith);
                lemma_digits_val_bound(ip);
                lemma_pow10_pos(frac_len as nat);
            }
            mag = mag * 10 + ((s[i] - 48) as u64);
            i = i + 1;
            frac_len = frac_len + 1;
            digits = digits + 1;
        }
        if frac_len == 0 {
            proof {
                if i < n {
                    assert(!is_ascii_digit(frac_digits(s@)[0]));
                } else {
                    assert(frac_digits(s@).len() == 0);
                }
                assert(!valid_decimal(s@));
            }
            return None;
        }
        if i < n {
            proof {
                assert(!is_ascii_digit(frac_digits(s@)[i - fstart]));
                assert(!valid_decimal(s@));
            }
            return None;
        }
        proof {
            assert(frac_digits(s@) =~= s@.subrange(fstart, n as int));
        }
    } else {
        proof {
            assert(dot_pos(b) == b.len());
            assert(ip =~= b);
            assert(frac_digits(s@) =~= Seq::<u8>::empty());
        }
    }
    proof {
        assert(valid_decimal(s@));
        assert(within_digit_budget(s@));
        assert(frac_digits(s@).len() == frac_len as int);
        assert(mag == digits_val(ip) * pow10(frac_len as nat) + digits_val(frac_digits(s@)));
        lemma_pow10_monotone(digits as nat, 15);
    }
    let mut den: u64 = 1;
    let mut k: usize = 0;
    while k < frac_len
        invariant
            k <= frac_len,
            den == pow10(k as nat),
        decreases frac_len - k,
    {
        proof {
            lemma_pow10_monotone((k + 1) as nat, 15);
            assert(pow10((k + 1) as nat) == 10 * pow10(k as nat));
        }
        den = den * 10;
        k = k + 1;
    }
    proof {
        lemma_pow10_pos(frac_len as nat);
        lemma_pow10_monotone(frac_len as nat, 15);
    }
    let num: i64 = if neg {
        -(mag as i64)
    } else {
        mag as i64
    };
    Some(Temp { num, den: den as i64 })
}

/// Where the first dot sits: no dot before it, and a dot at it if it is
/// not the end.
proof fn lemma_dot_pos(s: Seq<u8>)
    ensures
        0 <= dot_pos(s) <= s.len(),
        forall|i: int| 0 <= i < dot_pos(s) ==> #[trigger] s[i] != 46,
        dot_pos(s) < s.len() ==> s[dot_pos(s)] == 46,
    decreases s.len(),
{
    if s.len() > 0 && s[0] != 46 {
        let t = s.subrange(1, s.len() as int);
        lemma_dot_pos(t);
        assert forall|i: int| 0 <= i < dot_pos(s) implies #[trigger] s[i] != 46 by {
            if i > 0 {
                assert(t[i - 1] != 46);
            }
        }
    }
}

} // verus!
