//! Base64, in the standard alphabet with padding: what a text stands for, and
//! that no two byte strings share a text.

use vstd::prelude::*;

verus! {

/// The base64 digit of a number below 64.
pub open spec fn base64_digit(n: int) -> char {
    if n < 26 {
        ('A' as int + n) as char
    } else if n < 52 {
        ('a' as int - 26 + n) as char
    } else if n < 62 {
        ('0' as int - 52 + n) as char
    } else if n == 62 {
        '+'
    } else {
        '/'
    }
}

/// Bytes in base64: four digits for every three bytes, and `=` for each digit
/// that the last group lacks.
pub open spec fn base64_text(bytes: Seq<u8>) -> Seq<char>
    decreases bytes.len(),
{
    if bytes.len() == 0 {
        Seq::empty()
    } else if bytes.len() == 1 {
        let a = bytes[0] as int;
        seq![base64_digit(a / 4), base64_digit(a % 4 * 16), '=', '=']
    } else if bytes.len() == 2 {
        let a = bytes[0] as int;
        let b = bytes[1] as int;
        seq![
            base64_digit(a / 4),
            base64_digit(a % 4 * 16 + b / 16),
            base64_digit(b % 16 * 4),
            '=',
        ]
    } else {
        let a = bytes[0] as int;
        let b = bytes[1] as int;
        let c = bytes[2] as int;
        seq![
            base64_digit(a / 4),
            base64_digit(a % 4 * 16 + b / 16),
            base64_digit(b % 16 * 4 + c / 64),
            base64_digit(c % 64),
        ] + base64_text(bytes.skip(3))
    }
}

/// The bytes that a base64 text stands for, if it is the text of any.
pub open spec fn base64_bytes(text: Seq<char>) -> Option<Seq<u8>> {
    if exists|bytes: Seq<u8>| #[trigger] base64_text(bytes) == text {
        Some(choose|bytes: Seq<u8>| #[trigger] base64_text(bytes) == text)
    } else {
        None
    }
}

// ---- Laws ---------------------------------------------------------------

proof fn lemma_digits_differ(m: int, n: int)
    requires
        0 <= m < 64,
        0 <= n < 64,
        base64_digit(m) == base64_digit(n),
    ensures
        m == n,
{
}

proof fn lemma_no_digit_is_padding(n: int)
    requires
        0 <= n < 64,
    ensures
        base64_digit(n) != '=',
{
}

/// Two byte strings with the same base64 text are the same.
pub proof fn base64_text_is_unambiguous(x: Seq<u8>, y: Seq<u8>)
    requires
        base64_text(x) == base64_text(y),
    ensures
        x == y,
    decreases x.len(),
{
    let s = base64_text(x);
    let t = base64_text(y);
    assert(x.len() == 0 <==> s.len() == 0);
    assert(y.len() == 0 <==> t.len() == 0);
    if x.len() > 0 && y.len() > 0 {
        lemma_first_group(x, y);
        if x.len() >= 3 {
            assert(base64_text(x.skip(3)) == s.skip(4));
            assert(base64_text(y.skip(3)) == t.skip(4));
            base64_text_is_unambiguous(x.skip(3), y.skip(3));
            assert(x =~= x.take(3) + x.skip(3));
            assert(y =~= y.take(3) + y.skip(3));
            assert(x.take(3) =~= y.take(3));
        } else {
            assert(x =~= y);
        }
    } else {
        assert(x =~= y);
    }
}

/// The first group of a text gives the first bytes, and says whether there are
/// one, two, or more of them.
proof fn lemma_first_group(x: Seq<u8>, y: Seq<u8>)
    requires
        x.len() > 0,
        y.len() > 0,
        base64_text(x) == base64_text(y),
    ensures
        x.len() >= 3 <==> y.len() >= 3,
        x.len() < 3 ==> x.len() == y.len(),
        forall|i: int| 0 <= i < 3 && i < x.len() ==> x[i] == y[i],
{
    let s = base64_text(x);
    let t = base64_text(y);
    let a = x[0] as int;
    let d = y[0] as int;
    let b: int = if x.len() > 1 { x[1] as int } else { 0 };
    let e: int = if y.len() > 1 { y[1] as int } else { 0 };
    let c: int = if x.len() > 2 { x[2] as int } else { 0 };
    let f: int = if y.len() > 2 { y[2] as int } else { 0 };
    assert(s[0] == base64_digit(a / 4) && t[0] == base64_digit(d / 4));
    assert(s[1] == base64_digit(a % 4 * 16 + b / 16) && t[1] == base64_digit(d % 4 * 16 + e / 16));
    lemma_digits_differ(a / 4, d / 4);
    lemma_digits_differ(a % 4 * 16 + b / 16, d % 4 * 16 + e / 16);
    lemma_no_digit_is_padding(b % 16 * 4 + c / 64);
    lemma_no_digit_is_padding(e % 16 * 4 + f / 64);
    lemma_no_digit_is_padding(c % 64);
    lemma_no_digit_is_padding(f % 64);
    assert(s[2] == if x.len() > 1 { base64_digit(b % 16 * 4 + c / 64) } else { '=' });
    assert(t[2] == if y.len() > 1 { base64_digit(e % 16 * 4 + f / 64) } else { '=' });
    assert(s[3] == if x.len() > 2 { base64_digit(c % 64) } else { '=' });
    assert(t[3] == if y.len() > 2 { base64_digit(f % 64) } else { '=' });
    if x.len() > 1 {
        lemma_digits_differ(b % 16 * 4 + c / 64, e % 16 * 4 + f / 64);
    }
    if x.len() > 2 {
        lemma_digits_differ(c % 64, f % 64);
    }
}

/// Bytes are read back from their base64 text as they were.
pub proof fn base64_text_is_read_back(bytes: Seq<u8>)
    ensures
        base64_bytes(base64_text(bytes)) == Some(bytes),
{
    let text = base64_text(bytes);
    let found = choose|other: Seq<u8>| #[trigger] base64_text(other) == text;
    assert(base64_text(bytes) == text);
    base64_text_is_unambiguous(found, bytes);
}

/// A text stands for bytes exactly when it is their base64 text.
pub proof fn base64_bytes_have_their_text(text: Seq<char>, bytes: Seq<u8>)
    ensures
        base64_bytes(text) == Some(bytes) <==> base64_text(bytes) == text,
{
    if base64_text(bytes) == text {
        base64_text_is_read_back(bytes);
    }
}

} // verus!
