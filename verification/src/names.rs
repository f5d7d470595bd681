//! Synthetic variable names for compiler-introduced loop counters. Each name
//! is a reserved prefix (an underscore, which no source identifier may start
//! with) followed by the decimal digits of a monotonically increasing
//! counter, so names are deterministic across runs and never collide with
//! one another.

use vstd::prelude::*;
use vstd::string::StringExecFns;

verus! {

/// The decimal digit character for a value below ten.
pub open spec fn digit_char(d: nat) -> char {
    if d == 0 {
        '0'
    } else if d == 1 {
        '1'
    } else if d == 2 {
        '2'
    } else if d == 3 {
        '3'
    } else if d == 4 {
        '4'
    } else if d == 5 {
        '5'
    } else if d == 6 {
        '6'
    } else if d == 7 {
        '7'
    } else if d == 8 {
        '8'
    } else {
        '9'
    }
}

/// The numeric value of a decimal digit character.
pub open spec fn digit_val(c: char) -> nat {
    if c == '0' {
        0
    } else if c == '1' {
        1
    } else if c == '2' {
        2
    } else if c == '3' {
        3
    } else if c == '4' {
        4
    } else if c == '5' {
        5
    } else if c == '6' {
        6
    } else if c == '7' {
        7
    } else if c == '8' {
        8
    } else {
        9
    }
}

/// The decimal digits of a natural number, most significant first, with no
/// leading zero (except for zero itself).
pub open spec fn dec_digits(n: nat) -> Seq<char>
    decreases n,
{
    if n < 10 {
        seq![digit_char(n)]
    } else {
        dec_digits(n / 10).push(digit_char(n % 10))
    }
}

/// Reading the digits back yields the number: the decimal form is faithful.
pub proof fn lemma_dec_val_inverse(n: nat)
    ensures
        dec_val(dec_digits(n)) == n,
    decreases n,
{
    if n < 10 {
        assert(dec_digits(n) == seq![digit_char(n)]);
        assert(dec_digits(n).drop_last() =~= Seq::<char>::empty());
        assert(dec_val(Seq::<char>::empty()) == 0);
        assert(dec_digits(n).last() == digit_char(n));
        assert(digit_val(digit_char(n)) == n);
        assert(dec_val(dec_digits(n)) == dec_val(dec_digits(n).drop_last()) * 10 + digit_val(
            dec_digits(n).last(),
        ));
    } else {
        lemma_dec_val_inverse(n / 10);
        assert(dec_digits(n).drop_last() =~= dec_digits(n / 10));
        assert(dec_digits(n).last() == digit_char(n % 10));
        vstd::arithmetic::div_mod::lemma_fundamental_div_mod(n as int, 10);
        assert(n % 10 < 10);
        assert(digit_val(digit_char(n % 10)) == n % 10);
        assert(dec_val(dec_digits(n)) == dec_val(dec_digits(n / 10)) * 10 + digit_val(
            dec_digits(n).last(),
        ));
        assert(dec_val(dec_digits(n)) == (n / 10) * 10 + n % 10);
        assert((n / 10) * 10 + n % 10 == n);
    }
}

/// The value of a digit string, read most significant first.
pub open spec fn dec_val(s: Seq<char>) -> nat
    decreases s.len(),
{
    if s.len() == 0 {
        0
    } else {
        dec_val(s.drop_last()) * 10 + digit_val(s.last())
    }
}

/// Distinct numbers have distinct decimal forms.
pub proof fn lemma_dec_digits_injective(a: nat, b: nat)
    ensures
        dec_digits(a) == dec_digits(b) ==> a == b,
{
    if dec_digits(a) == dec_digits(b) {
        lemma_dec_val_inverse(a);
        lemma_dec_val_inverse(b);
    }
}

/// The synthetic counter name for the n-th counter of one compilation.
pub open spec fn synth_name(n: nat) -> Seq<char> {
    seq!['_', 'r'] + dec_digits(n)
}

/// Distinct counters yield distinct synthetic names.
pub proof fn lemma_synth_name_injective(a: nat, b: nat)
    ensures
        synth_name(a) == synth_name(b) ==> a == b,
{
    if synth_name(a) == synth_name(b) {
        assert(dec_digits(a) =~= synth_name(a).skip(2));
        assert(dec_digits(b) =~= synth_name(b).skip(2));
        lemma_dec_digits_injective(a, b);
    }
}

/// Every synthetic name starts with the reserved underscore, so it cannot
/// collide with a source identifier, which must start with a letter.
pub proof fn lemma_synth_name_reserved(n: nat)
    ensures
        synth_name(n).len() >= 3,
        synth_name(n)[0] == '_',
{
}

/// The single-character string for a decimal digit.
fn digit_str(d: u64) -> (r: &'static str)
    requires
        d < 10,
    ensures
        r@ =~= seq![digit_char(d as nat)],
{
    proof {
        reveal_strlit("0");
        reveal_strlit("1");
        reveal_strlit("2");
        reveal_strlit("3");
        reveal_strlit("4");
        reveal_strlit("5");
        reveal_strlit("6");
        reveal_strlit("7");
        reveal_strlit("8");
        reveal_strlit("9");
    }
    match d {
        0 => "0",
        1 => "1",
        2 => "2",
        3 => "3",
        4 => "4",
        5 => "5",
        6 => "6",
        7 => "7",
        8 => "8",
        _ => "9",
    }
}

/// The decimal text of a number.
pub fn u128_to_dec(n: u128) -> (r: String)
    ensures
        r@ == dec_digits(n as nat),
    decreases n,
{
    if n < 10 {
        let r = digit_str((n as u64)).to_owned();
        proof {
            assert(r@ =~= dec_digits(n as nat));
        }
        r
    } else {
        let mut s = u128_to_dec(n / 10);
        s.append(digit_str((n % 10) as u64));
        proof {
            assert(s@ =~= dec_digits(n as nat));
        }
        s
    }
}

/// The decimal text of a signed integer: a minus sign for a negative value,
/// then the digits of its magnitude.
pub open spec fn int_text(i: int) -> Seq<char> {
    if i >= 0 {
        dec_digits(i as nat)
    } else {
        seq!['-'] + dec_digits((-i) as nat)
    }
}

/// The decimal text of a signed integer.
pub fn i128_to_dec(n: i128) -> (r: String)
    ensures
        r@ == int_text(n as int),
{
    if n >= 0 {
        u128_to_dec(n as u128)
    } else {
        let mag: u128 = ((-(n + 1)) as u128) + 1;
        proof {
            assert(mag as nat == (-(n as int)) as nat);
        }
        let mut s = String::from_str("-");
        proof {
            reveal_strlit("-");
        }
        s.append(u128_to_dec(mag).as_str());
        proof {
            assert(s@ =~= int_text(n as int));
        }
        s
    }
}

/// The synthetic counter name for counter value `n`.
pub fn synth_var_name(n: u64) -> (r: String)
    ensures
        r@ == synth_name(n as nat),
{
    let mut s = String::from_str("_r");
    proof {
        reveal_strlit("_r");
    }
    s.append(u128_to_dec(n as u128).as_str());
    proof {
        assert(s@ =~= synth_name(n as nat));
    }
    s
}

} // verus!
