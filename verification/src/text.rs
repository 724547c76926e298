//! Building blocks for the texts that the catalogue puts together: the
//! characters of a string, decimal numbers, and replacing a character.

use vstd::prelude::*;
use vstd::std_specs::iter::IteratorSpec;
use vstd::string::StringExecFns;

verus! {

/// `String::push` of std: appends one character to the string.
#[verifier::external_body]
pub(crate) fn push_char(text: &mut String, c: char)
    ensures
        final(text)@ == old(text)@.push(c),
{
    text.push(c)
}

/// The characters of a string, one by one.
pub fn chars_of(text: &str) -> (chars: Vec<char>)
    ensures
        chars@ == text@,
{
    let mut chars: Vec<char> = Vec::new();
    let mut rest = text.chars();
    let ghost mut seen: int = 0;
    proof {
        assert(text@.take(0) =~= chars@);
        assert(text@.skip(0) =~= text@);
    }
    loop
        invariant
            rest.obeys_prophetic_iter_laws(),
            rest.decrease() is Some,
            0 <= seen <= text@.len(),
            rest.remaining() == text@.skip(seen),
            chars@ == text@.take(seen),
        ensures
            chars@ == text@,
        decreases rest.decrease()->0,
    {
        match rest.next() {
            Some(c) => {
                chars.push(c);
                proof {
                    assert(text@.skip(seen).drop_first() =~= text@.skip(seen + 1));
                    assert(text@.take(seen + 1) =~= text@.take(seen).push(c));
                    seen = seen + 1;
                }
            },
            None => {
                proof {
                    assert(text@.take(seen) =~= text@);
                }
                break ;
            },
        }
    }
    chars
}

/// The character that stands for a digit below ten.
pub open spec fn digit_char(d: nat) -> char
    recommends
        d < 10,
{
    (('0' as nat) + d) as char
}

/// The decimal numeral of a number: its digits from the highest to the
/// lowest, without leading zeros; "0" for zero.
pub open spec fn decimal(n: nat) -> Seq<char>
    decreases n,
{
    if n < 10 {
        seq![digit_char(n)]
    } else {
        decimal(n / 10).push(digit_char(n % 10))
    }
}

/// Writes a number in decimal.
pub fn decimal_string(n: u32) -> (text: String)
    ensures
        text@ == decimal(n as nat),
{
    let mut digits: Vec<char> = Vec::new();
    let mut rest: u32 = n;
    // The digits from the lowest up; turned round below.
    loop
        invariant
            decimal(n as nat) == decimal(rest as nat) + digits@.reverse(),
        ensures
            rest < 10,
            decimal(n as nat) == decimal(rest as nat) + digits@.reverse(),
        decreases rest,
    {
        if rest < 10 {
            break ;
        }
        let low: u8 = (rest % 10) as u8;
        let ghost before = digits@;
        digits.push((48u8 + low) as char);
        proof {
            assert(digits@.reverse() =~= seq![digit_char((rest % 10) as nat)] + before.reverse());
            assert(decimal(rest as nat) == decimal((rest / 10) as nat).push(
                digit_char((rest % 10) as nat),
            ));
            assert(decimal((rest / 10) as nat).push(digit_char((rest % 10) as nat))
                + before.reverse() =~= decimal((rest / 10) as nat) + digits@.reverse());
        }
        rest = rest / 10;
    }
    let mut text = String::new();
    push_char(&mut text, (48u8 + rest as u8) as char);
    let mut i: usize = digits.len();
    while i > 0
        invariant
            i <= digits@.len(),
            text@ == decimal(rest as nat) + digits@.reverse().take(digits@.len() - i),
        decreases i,
    {
        i = i - 1;
        push_char(&mut text, digits[i]);
        proof {
            let turned = digits@.reverse();
            let k = digits@.len() - i - 1;
            assert(turned[k] == digits@[i as int]);
            assert(turned.take(k + 1) =~= turned.take(k).push(turned[k]));
            assert((decimal(rest as nat) + turned.take(k)).push(turned[k]) =~= decimal(rest as nat)
                + turned.take(k + 1));
        }
    }
    proof {
        assert(digits@.reverse().take(digits@.len() as int) =~= digits@.reverse());
    }
    text
}

/// The decimal numeral of a number that may be negative: a minus sign
/// before the numeral of its size.
pub open spec fn signed_decimal(n: int) -> Seq<char> {
    if n < 0 {
        seq!['-'] + decimal((-n) as nat)
    } else {
        decimal(n as nat)
    }
}

/// Writes a number that may be negative in decimal.
pub fn signed_decimal_string(n: i32) -> (text: String)
    ensures
        text@ == signed_decimal(n as int),
{
    if n < 0 {
        let size: u32 = (-(n as i64)) as u32;
        let mut text = String::new();
        push_char(&mut text, '-');
        text.append(decimal_string(size).as_str());
        proof {
            assert(text@ =~= seq!['-'] + decimal(size as nat));
        }
        text
    } else {
        decimal_string(n as u32)
    }
}

/// The decimal numeral of a number in two digits or more: with a zero
/// before a single digit.
pub open spec fn two_digits(n: nat) -> Seq<char> {
    if n < 10 {
        seq!['0'] + decimal(n)
    } else {
        decimal(n)
    }
}

/// Writes a number in two digits or more.
pub fn two_digit_string(n: u32) -> (text: String)
    ensures
        text@ == two_digits(n as nat),
{
    if n < 10 {
        let mut text = String::new();
        push_char(&mut text, '0');
        text.append(decimal_string(n).as_str());
        proof {
            assert(text@ =~= seq!['0'] + decimal(n as nat));
        }
        text
    } else {
        decimal_string(n)
    }
}

/// A text with every `from` in it replaced by `to`.
pub open spec fn replaced(text: Seq<char>, from: char, to: char) -> Seq<char> {
    text.map_values(
        |c: char|
            if c == from {
                to
            } else {
                c
            },
    )
}

/// Replaces every `from` in the text by `to`.
pub fn replace_char(text: &str, from: char, to: char) -> (out: String)
    ensures
        out@ == replaced(text@, from, to),
{
    let mut out = String::new();
    let mut rest = text.chars();
    let ghost mut seen: int = 0;
    proof {
        assert(replaced(text@.take(0), from, to) =~= out@);
        assert(text@.skip(0) =~= text@);
    }
    loop
        invariant
            rest.obeys_prophetic_iter_laws(),
            rest.decrease() is Some,
            0 <= seen <= text@.len(),
            rest.remaining() == text@.skip(seen),
            out@ == replaced(text@.take(seen), from, to),
        ensures
            out@ == replaced(text@, from, to),
        decreases rest.decrease()->0,
    {
        match rest.next() {
            Some(c) => {
                if c == from {
                    push_char(&mut out, to);
                } else {
                    push_char(&mut out, c);
                }
                proof {
                    assert(text@.skip(seen).drop_first() =~= text@.skip(seen + 1));
                    assert(text@.take(seen + 1) =~= text@.take(seen).push(c));
                    assert(replaced(text@.take(seen + 1), from, to) =~= replaced(
                        text@.take(seen),
                        from,
                        to,
                    ).push(
                        if c == from {
                            to
                        } else {
                            c
                        },
                    ));
                    seen = seen + 1;
                }
            },
            None => {
                proof {
                    assert(text@.take(seen) =~= text@);
                }
                break ;
            },
        }
    }
    out
}

} // verus!
