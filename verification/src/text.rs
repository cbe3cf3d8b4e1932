//! Text building blocks shared by the debug, textual and hashing operations,
//! together with the few calls this library makes into `ecow`, `typst_utils`
//! and `str` comparison.

use ecow::EcoString;
use vstd::prelude::*;
use vstd::string::StringExecFns;

verus! {

/// `ecow::EcoString`, the compact string type in which textual
/// representations are handed out.
#[verifier::external_type_specification]
#[verifier::external_body]
pub struct ExEcoString(EcoString);

/// The characters an `EcoString` holds, in order.
pub uninterp spec fn eco_chars(s: EcoString) -> Seq<char>;

/// What `typst_utils::hash128` returns for a string slice with the given
/// characters: a SipHash-1-3 digest under the fixed all-zero key, fed the
/// slice's UTF-8 bytes followed by the byte `0xff`.
pub uninterp spec fn siphash128(text: Seq<char>) -> u128;

/// Calls `EcoString::from(&str)`, which copies the bytes of the slice into a
/// fresh `EcoString`. Trusted: the result holds exactly the characters of `s`.
#[verifier::external_body]
pub(crate) fn eco_from_str(s: &str) -> (r: EcoString)
    ensures
        eco_chars(r) == s@,
{
    EcoString::from(s)
}

/// Calls `typst_utils::hash128` on a string slice. Trusted: the digest is a
/// function of the characters of `s` alone, named [`siphash128`].
#[verifier::external_body]
pub(crate) fn hash128_of(s: &str) -> (r: u128)
    ensures
        r == siphash128(s@),
{
    typst_utils::hash128(s)
}

/// Calls `str::eq`. Trusted: two slices compare equal exactly when they hold
/// the same characters.
#[verifier::external_body]
pub(crate) fn str_eq(a: &str, b: &str) -> (r: bool)
    ensures
        r == (a@ == b@),
{
    a == b
}

/// The character for a decimal digit.
pub open spec fn digit_char(d: int) -> char {
    if d == 0 {
        '0'
    } else if d == 1 {
        '1'
    } else if d == 2 {
        '2'
    } else if d == 3 {
        '3'
    } else if d == 4 {
        '4'
    } else if d == 5 {
        '5'
    } else if d == 6 {
        '6'
    } else if d == 7 {
        '7'
    } else if d == 8 {
        '8'
    } else {
        '9'
    }
}

/// The decimal numeral of a natural number, without leading zeros.
pub open spec fn decimal(n: nat) -> Seq<char>
    decreases n,
{
    if n < 10 {
        seq![digit_char(n as int)]
    } else {
        decimal(n / 10).push(digit_char((n % 10) as int))
    }
}

/// The decimal numeral of an integer, with a leading `-` below zero.
pub open spec fn signed_decimal(n: int) -> Seq<char> {
    if n < 0 {
        seq!['-'] + decimal((-n) as nat)
    } else {
        decimal(n as nat)
    }
}

fn digit_str(d: u64) -> (s: &'static str)
    requires
        d < 10,
    ensures
        s@ == seq![digit_char(d as int)],
{
    proof {
        reveal_strlit("0");
        reveal_strlit("1");
        reveal_strlit("2");
        reveal_strlit("3");
        reveal_strlit("4");
        reveal_strlit("5");
        reveal_strlit("6");
        reveal_strlit("7");
        reveal_strlit("8");
        reveal_strlit("9");
    }
    let s = if d == 0 {
        "0"
    } else if d == 1 {
        "1"
    } else if d == 2 {
        "2"
    } else if d == 3 {
        "3"
    } else if d == 4 {
        "4"
    } else if d == 5 {
        "5"
    } else if d == 6 {
        "6"
    } else if d == 7 {
        "7"
    } else if d == 8 {
        "8"
    } else {
        "9"
    };
    assert(s@ =~= seq![digit_char(d as int)]);
    s
}

/// Appends the decimal numeral of `n` to `out`.
pub fn push_decimal(out: &mut String, n: u64)
    ensures
        final(out)@ == old(out)@ + decimal(n as nat),
    decreases n,
{
    if n >= 10 {
        push_decimal(out, n / 10);
    }
    out.append(digit_str(n % 10));
    assert(out@ =~= old(out)@ + decimal(n as nat));
}

/// Appends the decimal numeral of `n`, with its sign, to `out`.
pub fn push_signed(out: &mut String, n: i64)
    ensures
        final(out)@ == old(out)@ + signed_decimal(n as int),
{
    if n < 0 {
        proof {
            reveal_strlit("-");
        }
        out.append("-");
        let magnitude: u64 = if n == i64::MIN {
            9223372036854775808u64
        } else {
            (-n) as u64
        };
        push_decimal(out, magnitude);
        assert(out@ =~= old(out)@ + signed_decimal(n as int));
    } else {
        push_decimal(out, n as u64);
    }
}

} // verus!
