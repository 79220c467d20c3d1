//! Text helpers: case-insensitive comparison and parsing a whole number out
//! of an attribute string.

use vstd::prelude::*;
use vstd::string::StrSliceExecFns;

verus! {

/// The lowercase folding of a character sequence, as computed by
/// `str::to_lowercase`. The folding depends on the characters alone.
pub uninterp spec fn lower_of(s: Seq<char>) -> Seq<char>;

/// Relies on `str::to_lowercase`: the result is the Unicode lowercase
/// mapping of the input and depends on the input characters alone.
#[verifier::external_body]
fn lowercase(s: &str) -> (r: String)
    ensures
        r@ == lower_of(s@),
{
    s.to_lowercase()
}

/// Two character sequences are equal once both are folded to lowercase.
pub open spec fn ci_eq(a: Seq<char>, b: Seq<char>) -> bool {
    lower_of(a) == lower_of(b)
}

/// Case-insensitive string equality, the comparison used for rule-row lookup.
pub fn eq_ci(a: &str, b: &str) -> (r: bool)
    ensures
        r == ci_eq(a@, b@),
{
    let la = lowercase(a);
    let lb = lowercase(b);
    <String as PartialEq>::eq(&la, &lb)
}

/// Is `c` an ASCII decimal digit?
pub open spec fn is_digit(c: char) -> bool {
    48 <= c as int <= 57
}

/// The numeric value of one ASCII digit.
pub open spec fn digit_val(c: char) -> int {
    c as int - 48
}

/// Every character of `s` is an ASCII decimal digit.
pub open spec fn all_digits(s: Seq<char>) -> bool {
    forall|i: int| 0 <= i < s.len() ==> is_digit(#[trigger] s[i])
}

/// The value of a digit string, most significant digit first.
pub open spec fn digits_val(s: Seq<char>) -> int
    decreases s.len(),
{
    if s.len() == 0 {
        0
    } else {
        digits_val(s.drop_last()) * 10 + digit_val(s.last())
    }
}

/// `10^n`.
pub open spec fn pow10(n: nat) -> int
    decreases n,
{
    if n == 0 {
        1
    } else {
        10 * pow10((n - 1) as nat)
    }
}

/// A digit string's value is below `10` to its length.
pub proof fn lemma_digits_val_pow(s: Seq<char>)
    requires
        all_digits(s),
    ensures
        0 <= digits_val(s) < pow10(s.len()),
    decreases s.len(),
{
    if s.len() > 0 {
        assert(all_digits(s.drop_last()));
        lemma_digits_val_pow(s.drop_last());
        assert(digits_val(s.drop_last()) * 10 <= (pow10(s.drop_last().len()) - 1) * 10)
            by (nonlinear_arith)
            requires
                digits_val(s.drop_last()) <= pow10(s.drop_last().len()) - 1,
        ;
    }
}

/// A digit string of at most seven digits is below `10^7`.
pub proof fn lemma_digits_val_bound(s: Seq<char>)
    requires
        all_digits(s),
        s.len() <= 7,
    ensures
        0 <= digits_val(s) < 10000000,
{
    lemma_digits_val_pow(s);
    assert(pow10(s.len()) <= pow10(7)) by {
        lemma_pow10_le(s.len(), 7);
    }
    assert(pow10(7) == 10000000) by {
        reveal_with_fuel(pow10, 8);
    }
}

proof fn lemma_pow10_le(a: nat, b: nat)
    requires
        a <= b,
    ensures
        pow10(a) <= pow10(b),
    decreases b,
{
    if a < b {
        lemma_pow10_le(a, (b - 1) as nat);
        assert(pow10((b - 1) as nat) >= 1) by {
            lemma_pow10_pos((b - 1) as nat);
        }
    }
}

proof fn lemma_pow10_pos(n: nat)
    ensures
        pow10(n) >= 1,
    decreases n,
{
    if n > 0 {
        lemma_pow10_pos((n - 1) as nat);
    }
}

/// The whole number an attribute string denotes: an optional minus sign
/// followed by one to seven decimal digits; any other shape counts as 0.
pub open spec fn age_of_text(s: Seq<char>) -> int {
    if s.len() >= 2 && s[0] == '-' && s.len() - 1 <= 7 && all_digits(s.subrange(1, s.len() as int)) {
        -digits_val(s.subrange(1, s.len() as int))
    } else if 1 <= s.len() <= 7 && all_digits(s) {
        digits_val(s)
    } else {
        0
    }
}

/// Parse a numeric attribute, yielding 0 for anything that is not a plain
/// signed whole number of at most seven digits.
pub fn parse_age(s: &str) -> (r: i64)
    ensures
        r as int == age_of_text(s@),
        -10000000 < r < 10000000,
{
    let n = s.unicode_len();
    if n == 0 {
        return 0;
    }
    let negative = s.get_char(0) == '-';
    let start: usize = if negative { 1 } else { 0 };
    let ghost digits = s@.subrange(start as int, s@.len() as int);
    if n - start < 1 || n - start > 7 {
        proof {
            if negative {
                assert(!(1 <= s@.len() <= 7 && all_digits(s@))) by {
                    if s@.len() >= 1 && all_digits(s@) {
                        assert(is_digit(s@[0]));
                    }
                }
            }
        }
        return 0;
    }
    let mut acc: i64 = 0;
    let mut i: usize = start;
    while i < n
        invariant
            start <= i <= n,
            n == s@.len(),
            start <= 1,
            1 <= n - start <= 7,
            negative ==> start == 1 && s@[0] == '-',
            !negative ==> start == 0 && s@[0] != '-',
            digits == s@.subrange(start as int, s@.len() as int),
            all_digits(s@.subrange(start as int, i as int)),
            acc as int == digits_val(s@.subrange(start as int, i as int)),
            0 <= acc < 10000000,
        decreases n - i,
    {
        let c = s.get_char(i);
        let code = c as u32;
        if code < 48 || code > 57 {
            proof {
                assert(!all_digits(digits)) by {
                    assert(digits[i - start] == s@[i as int]);
                    assert(!is_digit(digits[i - start]));
                }
                if !negative {
                    assert(digits =~= s@);
                }
            }
            return 0;
        }
        proof {
            let pre = s@.subrange(start as int, i as int);
            let ext = s@.subrange(start as int, i + 1);
            assert(ext.drop_last() =~= pre);
            assert(ext.last() == s@[i as int]);
            lemma_digits_val_bound(pre);
        }
        acc = acc * 10 + ((code - 48) as i64);
        proof {
            lemma_digits_val_bound(s@.subrange(start as int, i + 1));
        }
        i = i + 1;
    }
    proof {
        assert(s@.subrange(start as int, i as int) =~= digits);
        if !negative {
            assert(digits =~= s@);
            assert(s@[0] != '-') by {
                assert(is_digit(s@[0]));
            }
        }
    }
    if negative {
        -acc
    } else {
        acc
    }
}

} // verus!
