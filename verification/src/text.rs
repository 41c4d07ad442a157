//! Decimal text for fixed-point values, as a host shows them: no sign, no
//! exponent, and no more fractional digits than the value needs.

use vstd::prelude::*;
use vstd::string::StringExecFns;
use vstd::arithmetic::div_mod::lemma_div_denominator;

verus! {

/// The character of a decimal digit.
pub open spec fn digit_char(d: nat) -> char {
    if d == 0 {
        '0'
    } else if d == 1 {
        '1'
    } else if d == 2 {
        '2'
    } else if d == 3 {
        '3'
    } else if d == 4 {
        '4'
    } else if d == 5 {
        '5'
    } else if d == 6 {
        '6'
    } else if d == 7 {
        '7'
    } else if d == 8 {
        '8'
    } else {
        '9'
    }
}

/// Ten to the power `places`.
pub open spec fn tens(places: nat) -> nat
    decreases places,
{
    if places == 0 {
        1
    } else {
        10 * tens((places - 1) as nat)
    }
}

/// The decimal digits of `n`, without leading zeros; "0" for zero.
pub open spec fn nat_text(n: nat) -> Seq<char>
    decreases n,
{
    if n < 10 {
        seq![digit_char(n)]
    } else {
        nat_text(n / 10).push(digit_char(n % 10))
    }
}

/// The lowest `places` decimal digits of `n`, highest first, with zeros
/// where `n` has fewer.
pub open spec fn low_digits(n: nat, places: nat) -> Seq<char> {
    Seq::new(places, |i: int| digit_char((n / tens((places - 1 - i) as nat)) % 10))
}

/// The number `n / 10^places` in decimal: the whole part, then, where the
/// number is not whole, a point and the fractional digits up to the last
/// one that is not zero.
pub open spec fn decimal_text(n: nat, places: nat) -> Seq<char>
    decreases places,
{
    if places == 0 {
        nat_text(n)
    } else if n % 10 == 0 {
        decimal_text(n / 10, (places - 1) as nat)
    } else {
        nat_text(n / tens(places)) + seq!['.'] + low_digits(n, places)
    }
}

/// The text of one decimal digit.
fn digit_str(d: u8) -> (s: &'static str)
    requires
        d < 10,
    ensures
        s@ == seq![digit_char(d as nat)],
{
    proof {
        reveal_strlit("0");
        reveal_strlit("1");
        reveal_strlit("2");
        reveal_strlit("3");
        reveal_strlit("4");
        reveal_strlit("5");
        reveal_strlit("6");
        reveal_strlit("7");
        reveal_strlit("8");
        reveal_strlit("9");
    }
    let s: &'static str = match d {
        0 => "0",
        1 => "1",
        2 => "2",
        3 => "3",
        4 => "4",
        5 => "5",
        6 => "6",
        7 => "7",
        8 => "8",
        _ => "9",
    };
    assert(s@ =~= seq![digit_char(d as nat)]);
    s
}

/// Appends the decimal digits of `n` to `text`.
fn push_nat(text: &mut String, n: u128)
    ensures
        final(text)@ == old(text)@ + nat_text(n as nat),
    decreases n,
{
    if n >= 10 {
        push_nat(text, n / 10);
    }
    text.append(digit_str((n % 10) as u8));
    assert(text@ =~= old(text)@ + nat_text(n as nat));
}

/// A power of ten is positive.
proof fn lemma_tens_positive(places: nat)
    ensures
        tens(places) > 0,
    decreases places,
{
    if places > 0 {
        lemma_tens_positive((places - 1) as nat);
    }
}

/// Splits `n` at the decimal position `places`: returns the digits below
/// it, lowest first, and what is left of `n` above them.
fn split_digits(n: u128, places: u32) -> (parts: (Vec<u8>, u128))
    ensures
        parts.0@.len() == places,
        forall|k: int|
            0 <= k < places ==> #[trigger] parts.0@[k] == (n as nat / tens(k as nat)) % 10,
        parts.1 == n as nat / tens(places as nat),
{
    let mut digits: Vec<u8> = Vec::new();
    let mut rest: u128 = n;
    let mut k: u32 = 0;
    assert(tens(0) == 1);
    while k < places
        invariant
            k <= places,
            digits@.len() == k,
            forall|j: int| 0 <= j < k ==> #[trigger] digits@[j] == (n as nat / tens(j as nat)) % 10,
            rest == n as nat / tens(k as nat),
        decreases places - k,
    {
        proof {
            lemma_tens_positive(k as nat);
            lemma_div_denominator(n as int, tens(k as nat) as int, 10);
            assert(tens((k + 1) as nat) == 10 * tens(k as nat));
            assert((n as int / (tens(k as nat) as int)) / 10
                == n as int / (tens(k as nat) as int * 10));
        }
        digits.push((rest % 10) as u8);
        rest = rest / 10;
        k = k + 1;
    }
    (digits, rest)
}

/// Renders `n / 10^places` as decimal text.
pub fn decimal(n: u128, places: u32) -> (text: String)
    ensures
        text@ == decimal_text(n as nat, places as nat),
{
    let mut value: u128 = n;
    let mut left: u32 = places;
    while left > 0 && value % 10 == 0
        invariant
            decimal_text(value as nat, left as nat) == decimal_text(n as nat, places as nat),
        decreases left,
    {
        value = value / 10;
        left = left - 1;
    }
    let (digits, whole) = split_digits(value, left);
    let mut text: String = String::new();
    push_nat(&mut text, whole);
    if left > 0 {
        proof {
            reveal_strlit(".");
        }
        text.append(".");
        let ghost head = text@;
        let ghost tail = low_digits(value as nat, left as nat);
        let mut shown: u32 = 0;
        while shown < left
            invariant
                shown <= left,
                digits@.len() == left,
                forall|k: int|
                    0 <= k < left ==> #[trigger] digits@[k] == (value as nat / tens(k as nat)) % 10,
                tail == low_digits(value as nat, left as nat),
                text@ == head + tail.take(shown as int),
            decreases left - shown,
        {
            let d: u8 = digits[(left - 1 - shown) as usize];
            text.append(digit_str(d));
            proof {
                assert(tail.take(shown + 1) =~= tail.take(shown as int).push(tail[shown as int]));
                assert(text@ =~= head + tail.take(shown + 1));
            }
            shown = shown + 1;
        }
        assert(text@ =~= decimal_text(value as nat, left as nat));
    } else {
        assert(tens(0) == 1);
        assert(text@ =~= nat_text(whole as nat));
    }
    text
}

} // verus!
