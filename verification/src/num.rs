//! Decimal rendering and reading of counter values.

use crate::errors::ParseError;
use vstd::prelude::*;

verus! {

/// The decimal digit character for `d`.
pub open spec fn digit_char(d: nat) -> char {
    if d == 0 {
        '0'
    } else if d == 1 {
        '1'
    } else if d == 2 {
        '2'
    } else if d == 3 {
        '3'
    } else if d == 4 {
        '4'
    } else if d == 5 {
        '5'
    } else if d == 6 {
        '6'
    } else if d == 7 {
        '7'
    } else if d == 8 {
        '8'
    } else {
        '9'
    }
}

/// The decimal digits of `n`, most significant first, without sign.
pub open spec fn udigits(n: nat) -> Seq<char>
    decreases n,
{
    if n < 10 {
        seq![digit_char(n)]
    } else {
        udigits(n / 10) + seq![digit_char(n % 10)]
    }
}

/// The decimal rendering of a signed value: a leading `-` for negative
/// values, then the digits of the magnitude.
pub open spec fn i64_digits(n: int) -> Seq<char> {
    if n >= 0 {
        udigits(n as nat)
    } else {
        seq!['-'] + udigits((-n) as nat)
    }
}

/// The one-character string for the decimal digit `d`.
fn digit_str(d: u64) -> (s: &'static str)
    requires
        d < 10,
    ensures
        s@ =~= seq![digit_char(d as nat)],
{
    proof {
        reveal_strlit("0");
        reveal_strlit("1");
        reveal_strlit("2");
        reveal_strlit("3");
        reveal_strlit("4");
        reveal_strlit("5");
        reveal_strlit("6");
        reveal_strlit("7");
        reveal_strlit("8");
        reveal_strlit("9");
    }
    if d == 0 {
        "0"
    } else if d == 1 {
        "1"
    } else if d == 2 {
        "2"
    } else if d == 3 {
        "3"
    } else if d == 4 {
        "4"
    } else if d == 5 {
        "5"
    } else if d == 6 {
        "6"
    } else if d == 7 {
        "7"
    } else if d == 8 {
        "8"
    } else {
        "9"
    }
}

/// Appends the decimal digits of `n` to `out`.
fn push_udigits(n: u64, out: &mut String)
    ensures
        final(out)@ == old(out)@ + udigits(n as nat),
    decreases n,
{
    if n >= 10 {
        push_udigits(n / 10, out);
    }
    let d = digit_str(n % 10);
    out.append(d);
    proof {
        assert(out@ =~= old(out)@ + udigits(n as nat));
    }
}

/// Renders a signed 64-bit value in decimal, exactly as `i64_digits`
/// describes it.
pub fn i64_to_string(n: i64) -> (s: String)
    ensures
        s@ == i64_digits(n as int),
{
    let mut s = String::new();
    if n >= 0 {
        push_udigits(n as u64, &mut s);
    } else {
        proof {
            reveal_strlit("-");
        }
        s.append("-");
        let mag: u64 = if n == i64::MIN {
            9223372036854775808u64
        } else {
            (-n) as u64
        };
        push_udigits(mag, &mut s);
        proof {
            assert(s@ =~= seq!['-'] + udigits((-(n as int)) as nat));
        }
    }
    s
}

/// A decimal digit character.
pub open spec fn is_digit(c: char) -> bool {
    48 <= c as u32 <= 57
}

/// The value of a decimal digit character.
pub open spec fn digit_val(c: char) -> int {
    c as u32 - 48
}

/// Every character of `s` is a decimal digit.
pub open spec fn all_digits(s: Seq<char>) -> bool {
    forall|i: int| 0 <= i < s.len() ==> is_digit(#[trigger] s[i])
}

/// The value of a digit string, most significant digit first.
pub open spec fn digits_val(s: Seq<char>) -> int
    decreases s.len(),
{
    if s.len() == 0 {
        0
    } else {
        digits_val(s.drop_last()) * 10 + digit_val(s.last())
    }
}

/// The digit part of a signed decimal literal: everything after one
/// optional leading sign.
pub open spec fn literal_digits(s: Seq<char>) -> Seq<char> {
    if s.len() > 0 && (s[0] == '-' || s[0] == '+') {
        s.skip(1)
    } else {
        s
    }
}

/// Whether a literal carries a minus sign.
pub open spec fn literal_negative(s: Seq<char>) -> bool {
    s.len() > 0 && s[0] == '-'
}

/// A well-formed signed decimal literal: an optional sign, then one or
/// more digits and nothing else.
pub open spec fn well_formed_literal(s: Seq<char>) -> bool {
    literal_digits(s).len() > 0 && all_digits(literal_digits(s))
}

/// The value of a well-formed signed decimal literal.
pub open spec fn literal_val(s: Seq<char>) -> int {
    if literal_negative(s) {
        -digits_val(literal_digits(s))
    } else {
        digits_val(literal_digits(s))
    }
}

/// The value of a digit string is never negative.
pub proof fn lemma_digits_val_nonneg(s: Seq<char>)
    requires
        all_digits(s),
    ensures
        digits_val(s) >= 0,
    decreases s.len(),
{
    if s.len() > 0 {
        assert(all_digits(s.drop_last()));
        lemma_digits_val_nonneg(s.drop_last());
    }
}

/// Reading further digits never shrinks the value: any prefix of a digit
/// string is worth at most the whole.
pub proof fn lemma_digits_val_prefix(s: Seq<char>, k: int)
    requires
        all_digits(s),
        0 <= k <= s.len(),
    ensures
        digits_val(s.subrange(0, k)) <= digits_val(s),
    decreases s.len() - k,
{
    if k == s.len() {
        assert(s.subrange(0, k) =~= s);
    } else {
        let p = s.subrange(0, k);
        let q = s.subrange(0, k + 1);
        assert(q.drop_last() =~= p);
        assert(q.last() == s[k]);
        assert(all_digits(p));
        lemma_digits_val_nonneg(p);
        assert(digits_val(q) == digits_val(p) * 10 + digit_val(s[k]));
        lemma_digits_val_prefix(s, k + 1);
    }
}

/// Reads a signed 64-bit integer from its decimal text: an optional `+`
/// or `-` sign, then one or more digits. Anything else is `Malformed`; a
/// well-formed literal whose value does not fit is `OutOfRange`. This is
/// the defensive boundary for caller-supplied amounts: exactly the
/// well-formed, in-range literals are accepted.
pub fn parse_i64(s: &str) -> (r: Result<i64, ParseError>)
    ensures
        match r {
            Ok(v) => well_formed_literal(s@) && i64::MIN <= literal_val(s@) <= i64::MAX && v
                == literal_val(s@),
            Err(ParseError::Malformed) => !well_formed_literal(s@),
            Err(ParseError::OutOfRange) => well_formed_literal(s@) && !(i64::MIN <= literal_val(s@)
                <= i64::MAX),
        },
{
    let n = s.unicode_len();
    let mut start: usize = 0;
    let mut negative = false;
    if n > 0 {
        let c0 = s.get_char(0);
        if c0 == '-' {
            start = 1;
            negative = true;
        } else if c0 == '+' {
            start = 1;
        }
    }
    let ghost ds = literal_digits(s@);
    proof {
        if start == 1 {
            assert(ds =~= s@.skip(1));
        } else {
            assert(ds =~= s@);
        }
        assert(negative == literal_negative(s@));
    }
    if start >= n {
        return Err(ParseError::Malformed);
    }
    // First pass: the grammar. Every character after the sign must be a
    // digit, whatever the value turns out to be.
    let mut k: usize = start;
    while k < n
        invariant
            start <= k <= n,
            n == s@.len(),
            start == 0 || start == 1,
            ds == literal_digits(s@),
            ds == s@.skip(start as int),
            all_digits(s@.subrange(start as int, k as int)),
        decreases n - k,
    {
        let cu = s.get_char(k) as u32;
        if cu < 48 || cu > 57 {
            proof {
                assert(ds[k - start] == s@[k as int]);
                assert(!is_digit(ds[k - start]));
            }
            return Err(ParseError::Malformed);
        }
        proof {
            assert(s@.subrange(start as int, k as int + 1).drop_last() =~= s@.subrange(
                start as int,
                k as int,
            ));
            assert(s@.subrange(start as int, k as int + 1).last() == s@[k as int]);
        }
        k = k + 1;
    }
    proof {
        assert(s@.subrange(start as int, n as int) =~= ds);
        assert(well_formed_literal(s@));
    }
    // Second pass: the value. The accumulator stays at minus the value of
    // the digits read, so that i64::MIN itself is reachable without
    // overflow.
    let mut acc: i64 = 0;
    let mut k2: usize = start;
    while k2 < n
        invariant
            start <= k2 <= n,
            n == s@.len(),
            start == 0 || start == 1,
            start < n,
            ds == literal_digits(s@),
            ds == s@.skip(start as int),
            all_digits(ds),
            well_formed_literal(s@),
            acc <= 0,
            acc == -digits_val(s@.subrange(start as int, k2 as int)),
        decreases n - k2,
    {
        let cu = s.get_char(k2) as u32;
        proof {
            assert(ds[k2 - start] == s@[k2 as int]);
            assert(is_digit(s@[k2 as int]));
        }
        let d = (cu - 48) as i64;
        let ghost prefix = s@.subrange(start as int, k2 as int);
        let ghost prefix2 = s@.subrange(start as int, k2 as int + 1);
        proof {
            assert(prefix2.drop_last() =~= prefix);
            assert(prefix2.last() == s@[k2 as int]);
            assert(digits_val(prefix2) == digits_val(prefix) * 10 + digit_val(s@[k2 as int]));
            assert(prefix2 =~= ds.subrange(0, k2 - start + 1));
        }
        let acc10 = match acc.checked_mul(10) {
            Some(x) => x,
            None => {
                proof {
                    lemma_out_of_range(s@, ds, k2 - start + 1);
                }
                return Err(ParseError::OutOfRange);
            },
        };
        acc = match acc10.checked_sub(d) {
            Some(x) => x,
            None => {
                proof {
                    lemma_out_of_range(s@, ds, k2 - start + 1);
                }
                return Err(ParseError::OutOfRange);
            },
        };
        k2 = k2 + 1;
    }
    proof {
        assert(s@.subrange(start as int, n as int) =~= ds);
        assert(acc == -digits_val(ds));
    }
    if negative {
        Ok(acc)
    } else {
        if acc == i64::MIN {
            return Err(ParseError::OutOfRange);
        }
        Ok(-acc)
    }
}

/// When a prefix of the literal's digits is already worth more than the
/// widest 64-bit magnitude, the whole literal is out of range for either
/// sign.
proof fn lemma_out_of_range(s: Seq<char>, ds: Seq<char>, k: int)
    requires
        ds == literal_digits(s),
        all_digits(ds),
        ds.len() > 0,
        0 <= k <= ds.len(),
        digits_val(ds.subrange(0, k)) > 0x8000_0000_0000_0000,
    ensures
        well_formed_literal(s),
        !(i64::MIN <= literal_val(s) <= i64::MAX),
{
    lemma_digits_val_prefix(ds, k);
    lemma_digits_val_nonneg(ds);
}

} // verus!
