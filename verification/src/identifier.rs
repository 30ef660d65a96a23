//! Identifiers of 128 bits (UUIDs): their text, and what a text stands for.

use crate::text::lower_ascii;
use vstd::arithmetic::div_mod::{lemma_basic_div, lemma_div_denominator, lemma_fundamental_div_mod};
use vstd::arithmetic::power::{lemma_pow_adds, lemma_pow_positive, pow};
use vstd::prelude::*;

verus! {

/// The lower-case hexadecimal digit of a number below sixteen.
pub open spec fn lower_hex(n: int) -> char {
    if n < 10 {
        ('0' as int + n) as char
    } else {
        ('a' as int - 10 + n) as char
    }
}

/// The hexadecimal digit at place `i` of a 128-bit number, of 32 in all, the
/// most significant one first.
pub open spec fn hex_place(id: u128, i: int) -> char {
    lower_hex((id as int / pow(16, (31 - i) as nat)) % 16)
}

/// A 128-bit identifier as text: 32 lower-case digits, in groups of 8, 4, 4, 4
/// and 12 with hyphens between.
pub open spec fn uuid_text(id: u128) -> Seq<char> {
    Seq::new(8, |i: int| hex_place(id, i)) + seq!['-'] + Seq::new(4, |i: int| hex_place(id, 8 + i))
        + seq!['-'] + Seq::new(4, |i: int| hex_place(id, 12 + i)) + seq!['-'] + Seq::new(
        4,
        |i: int| hex_place(id, 16 + i),
    ) + seq!['-'] + Seq::new(12, |i: int| hex_place(id, 20 + i))
}

/// Whether a character is a hexadecimal digit.
pub open spec fn is_hex(c: char) -> bool {
    '0' <= c <= '9' || 'a' <= c <= 'f' || 'A' <= c <= 'F'
}

/// The value of a hexadecimal digit.
pub open spec fn hex_digit(c: char) -> int {
    if c <= '9' {
        c as int - '0' as int
    } else if c <= 'F' {
        c as int - 'A' as int + 10
    } else {
        c as int - 'a' as int + 10
    }
}

/// The number that hexadecimal digits stand for, the most significant one
/// first.
pub open spec fn hex_number(digits: Seq<char>) -> int
    decreases digits.len(),
{
    if digits.len() == 0 {
        0
    } else {
        16 * hex_number(digits.drop_last()) + hex_digit(digits.last())
    }
}

/// The digits of a text in groups of 8, 4, 4, 4 and 12 with hyphens between, if
/// it has that form.
pub open spec fn grouped_digits(text: Seq<char>) -> Option<Seq<char>> {
    if text.len() == 36 && text[8] == '-' && text[13] == '-' && text[18] == '-' && text[23] == '-' {
        Some(
            text.subrange(0, 8) + text.subrange(9, 13) + text.subrange(14, 18) + text.subrange(
                19,
                23,
            ) + text.subrange(24, 36),
        )
    } else {
        None
    }
}

/// The digits of an identifier's text: all of it, or grouped, and then by itself,
/// in braces, or behind `urn:uuid:` in whatever case.
pub open spec fn uuid_digits(text: Seq<char>) -> Option<Seq<char>> {
    if text.len() == 32 {
        Some(text)
    } else if text.len() == 38 && text[0] == '{' && text[37] == '}' {
        grouped_digits(text.subrange(1, 37))
    } else if text.len() == 45 && lower_ascii(text.take(9)) == "urn:uuid:"@ {
        grouped_digits(text.skip(9))
    } else {
        grouped_digits(text)
    }
}

/// The identifier that a text stands for, if it is one of the forms of a UUID.
pub open spec fn uuid_of(text: Seq<char>) -> Option<u128> {
    match uuid_digits(text) {
        Some(digits) => if forall|i: int| 0 <= i < digits.len() ==> is_hex(#[trigger] digits[i]) {
            Some(hex_number(digits) as u128)
        } else {
            None
        },
        None => None,
    }
}

// ---- Laws ---------------------------------------------------------------

/// The digits of an identifier, without hyphens.
spec fn all_digits(id: u128) -> Seq<char> {
    Seq::new(32, |i: int| hex_place(id, i))
}

proof fn lemma_digits_up_to(id: u128, k: int)
    requires
        0 <= k <= 32,
    ensures
        hex_number(all_digits(id).take(k)) == id as int / pow(16, (32 - k) as nat),
    decreases k,
{
    let digits = all_digits(id);
    let n = id as int;
    if k == 0 {
        assert(pow(16, 32) == 0x1_0000_0000_0000_0000_0000_0000_0000_0000int) by {
            reveal_with_fuel(pow, 5);
            assert(pow(16, 4) == 0x1_0000);
            lemma_pow_adds(16, 4, 4);
            assert(pow(16, 8) == 0x1_0000_0000);
            lemma_pow_adds(16, 8, 8);
            assert(pow(16, 16) == 0x1_0000_0000_0000_0000);
            lemma_pow_adds(16, 16, 16);
        }
        lemma_basic_div(n, pow(16, 32));
        assert(digits.take(0).len() == 0);
    } else {
        lemma_digits_up_to(id, k - 1);
        let low = pow(16, (32 - k) as nat);
        let high = pow(16, (33 - k) as nat);
        lemma_pow_positive(16, (32 - k) as nat);
        lemma_pow_adds(16, (32 - k) as nat, 1);
        reveal_with_fuel(pow, 2);
        assert(high == low * 16);
        lemma_div_denominator(n, low, 16);
        lemma_fundamental_div_mod(n / low, 16);
        assert(digits.take(k).drop_last() == digits.take(k - 1));
        assert(digits.take(k).last() == hex_place(id, k - 1));
        assert(hex_place(id, k - 1) == lower_hex((n / low) % 16));
        lemma_lower_hex((n / low) % 16);
    }
}

proof fn lemma_lower_hex(n: int)
    requires
        0 <= n < 16,
    ensures
        is_hex(lower_hex(n)),
        hex_digit(lower_hex(n)) == n,
{
}

/// An identifier is read back from its text as it was.
pub proof fn uuid_text_is_read_back(id: u128)
    ensures
        uuid_of(uuid_text(id)) == Some(id),
{
    let text = uuid_text(id);
    let digits = all_digits(id);
    assert(text.len() == 36);
    assert(grouped_digits(text)->0 =~= digits);
    assert forall|i: int| 0 <= i < digits.len() implies is_hex(#[trigger] digits[i]) by {
        lemma_lower_hex((id as int / pow(16, (31 - i) as nat)) % 16);
    }
    lemma_digits_up_to(id, 32);
    assert(digits.take(32) == digits);
    reveal_with_fuel(pow, 1);
    assert(pow(16, 0) == 1);
    assert(hex_number(digits) == id as int);
}

} // verus!
