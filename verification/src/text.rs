//! Plain text operations: searching, trimming, splitting into lines and
//! writing numbers in decimal, all on strings seen as sequences of characters.

use vstd::prelude::*;

verus! {

/// `String::push` appends one character to the end of the string.
pub assume_specification[ std::string::String::push ](s: &mut String, c: char)
    ensures
        final(s)@ == old(s)@.push(c),
;

/// The texts that a list of strings holds.
pub open spec fn texts(list: Seq<String>) -> Seq<Seq<char>> {
    list.map_values(|s: String| s@)
}

/// The characters of `s`, in order.
pub fn chars_of(s: &str) -> (r: Vec<char>)
    ensures
        r@ == s@,
{
    let mut out: Vec<char> = Vec::new();
    for c in it: s.chars()
        invariant
            it.seq() == s@,
            out@ == s@.take(it.index() as int),
    {
        out.push(c);
    }
    out
}

/// The string made of `chars[from..to]`.
pub fn text_of(chars: &Vec<char>, from: usize, to: usize) -> (r: String)
    requires
        from <= to <= chars@.len(),
    ensures
        r@ == chars@.subrange(from as int, to as int),
{
    let mut out = String::new();
    let mut i: usize = from;
    while i < to
        invariant
            from <= i <= to <= chars@.len(),
            out@ == chars@.subrange(from as int, i as int),
        decreases to - i,
    {
        out.push(chars[i]);
        i += 1;
    }
    out
}

/// `a` followed by `b`.
pub fn join2(a: &str, b: &str) -> (r: String)
    ensures
        r@ == a@ + b@,
{
    let mut out = a.to_owned();
    out.append(b);
    out
}

/// `a` followed by `b` and `c`.
pub fn join3(a: &str, b: &str, c: &str) -> (r: String)
    ensures
        r@ == a@ + b@ + c@,
{
    let mut out = join2(a, b);
    out.append(c);
    out
}

/// Whether `needle` stands in `hay` at position `at`.
pub open spec fn stands_at(hay: Seq<char>, needle: Seq<char>, at: int) -> bool {
    &&& 0 <= at
    &&& at + needle.len() <= hay.len()
    &&& hay.subrange(at, at + needle.len()) == needle
}

/// Whether `needle` occurs anywhere in `hay`.
pub open spec fn occurs(hay: Seq<char>, needle: Seq<char>) -> bool {
    exists|at: int| stands_at(hay, needle, at)
}

/// Whether `needle` stands in `hay` at position `at`.
fn matches_at(hay: &Vec<char>, needle: &Vec<char>, at: usize) -> (r: bool)
    requires
        at + needle@.len() <= hay@.len(),
    ensures
        r == stands_at(hay@, needle@, at as int),
{
    let total: usize = hay.len();
    let mut i: usize = 0;
    while i < needle.len()
        invariant
            at + needle@.len() <= hay@.len() == total,
            i <= needle@.len(),
            hay@.subrange(at as int, at + i) == needle@.take(i as int),
        decreases needle@.len() - i,
    {
        if hay[at + i] != needle[i] {
            assert(hay@.subrange(at as int, at + needle@.len())[i as int] != needle@[i as int]);
            return false;
        }
        i += 1;
    }
    assert(needle@.take(i as int) == needle@);
    true
}

/// The first position at which `needle` stands in `hay`, if there is one.
pub fn find(hay: &Vec<char>, needle: &Vec<char>) -> (r: Option<usize>)
    ensures
        match r {
            Some(at) => stands_at(hay@, needle@, at as int) && forall|k: int|
                k < at ==> !stands_at(hay@, needle@, k),
            None => !occurs(hay@, needle@),
        },
{
    if needle.len() > hay.len() {
        return None;
    }
    let last: usize = hay.len() - needle.len();
    let mut at: usize = 0;
    while at <= last
        invariant
            last + needle@.len() == hay@.len(),
            at <= last + 1,
            forall|k: int| k < at ==> !stands_at(hay@, needle@, k),
        decreases last + 1 - at,
    {
        if matches_at(hay, needle, at) {
            return Some(at);
        }
        if at == last {
            return None;
        }
        at += 1;
    }
    None
}

/// Whether `needle` occurs in `hay`.
pub fn contains(hay: &str, needle: &str) -> (r: bool)
    ensures
        r == occurs(hay@, needle@),
{
    let hay_chars = chars_of(hay);
    let needle_chars = chars_of(needle);
    match find(&hay_chars, &needle_chars) {
        Some(at) => {
            assert(stands_at(hay@, needle@, at as int));
            true
        },
        None => false,
    }
}

/// What follows the first occurrence of `mark` in `s`, if there is one.
pub open spec fn after_first(s: Seq<char>, mark: Seq<char>) -> Option<Seq<char>>
    decreases s.len(),
{
    if stands_at(s, mark, 0) {
        Some(s.skip(mark.len() as int))
    } else if s.len() == 0 {
        None
    } else {
        after_first(s.drop_first(), mark)
    }
}

proof fn lemma_after_first(s: Seq<char>, mark: Seq<char>, at: int)
    requires
        stands_at(s, mark, at),
        forall|k: int| k < at ==> !stands_at(s, mark, k),
    ensures
        after_first(s, mark) == Some(s.skip(at + mark.len())),
    decreases s.len(),
{
    if at > 0 {
        let rest = s.drop_first();
        assert(!stands_at(s, mark, 0));
        assert(rest.subrange(at - 1, at - 1 + mark.len()) == s.subrange(at, at + mark.len()));
        assert forall|k: int| k < at - 1 implies !stands_at(rest, mark, k) by {
            if stands_at(rest, mark, k) {
                assert(rest.subrange(k, k + mark.len()) == s.subrange(k + 1, k + 1 + mark.len()));
                assert(stands_at(s, mark, k + 1));
            }
        }
        lemma_after_first(rest, mark, at - 1);
        assert(rest.skip(at - 1 + mark.len()) == s.skip(at + mark.len()));
    }
}

proof fn lemma_after_none(s: Seq<char>, mark: Seq<char>)
    requires
        !occurs(s, mark),
    ensures
        after_first(s, mark) is None,
    decreases s.len(),
{
    assert(!stands_at(s, mark, 0));
    if s.len() > 0 {
        let rest = s.drop_first();
        assert forall|k: int| !stands_at(rest, mark, k) by {
            if stands_at(rest, mark, k) {
                assert(rest.subrange(k, k + mark.len()) == s.subrange(k + 1, k + 1 + mark.len()));
                assert(stands_at(s, mark, k + 1));
            }
        }
        lemma_after_none(rest, mark);
    }
}

/// What follows the first occurrence of `mark` in `s`, if there is one.
pub fn split_after(s: &str, mark: &str) -> (r: Option<String>)
    ensures
        match r {
            Some(rest) => after_first(s@, mark@) == Some(rest@),
            None => after_first(s@, mark@) is None,
        },
{
    let chars = chars_of(s);
    let mark_chars = chars_of(mark);
    match find(&chars, &mark_chars) {
        Some(at) => {
            proof {
                lemma_after_first(s@, mark@, at as int);
            }
            let total: usize = chars.len();
            Some(text_of(&chars, at + mark_chars.len(), total))
        },
        None => {
            proof {
                lemma_after_none(s@, mark@);
            }
            None
        },
    }
}

/// `s` without the character `end` at its end, if it ends in it.
pub fn strip_end(s: &str, end: char) -> (r: Option<String>)
    ensures
        match r {
            Some(rest) => s@.len() > 0 && s@.last() == end && rest@ == s@.drop_last(),
            None => s@.len() == 0 || s@.last() != end,
        },
{
    let chars = chars_of(s);
    let n: usize = chars.len();
    if n > 0 && chars[n - 1] == end {
        Some(text_of(&chars, 0, n - 1))
    } else {
        None
    }
}

/// Whether all characters of a text are ASCII.
pub open spec fn is_ascii_text(s: Seq<char>) -> bool {
    forall|i: int| 0 <= i < s.len() ==> #[trigger] s[i] <= '\u{7f}'
}

/// A letter from `A` to `Z` in lower case, any other character as it is.
pub open spec fn ascii_lower(c: char) -> char {
    if 'A' <= c <= 'Z' {
        (c as int + 32) as char
    } else {
        c
    }
}

/// A text with its letters from `A` to `Z` in lower case.
pub open spec fn lower_ascii(s: Seq<char>) -> Seq<char> {
    s.map_values(|c: char| ascii_lower(c))
}

/// The characters with the Unicode property White_Space.
pub open spec fn is_white_space(c: char) -> bool {
    ||| '\u{9}' <= c <= '\u{d}'
    ||| c == '\u{20}'
    ||| c == '\u{85}'
    ||| c == '\u{a0}'
    ||| c == '\u{1680}'
    ||| '\u{2000}' <= c <= '\u{200a}'
    ||| c == '\u{2028}'
    ||| c == '\u{2029}'
    ||| c == '\u{202f}'
    ||| c == '\u{205f}'
    ||| c == '\u{3000}'
}

/// Whether `c` has the Unicode property White_Space.
pub fn white_space(c: char) -> (r: bool)
    ensures
        r == is_white_space(c),
{
    ('\u{9}' <= c && c <= '\u{d}') || c == '\u{20}' || c == '\u{85}' || c == '\u{a0}' || c
        == '\u{1680}' || ('\u{2000}' <= c && c <= '\u{200a}') || c == '\u{2028}' || c == '\u{2029}'
        || c == '\u{202f}' || c == '\u{205f}' || c == '\u{3000}'
}

/// `s` without the white space at its two ends.
pub open spec fn trimmed(s: Seq<char>) -> Seq<char>
    decreases s.len(),
{
    if s.len() == 0 {
        s
    } else if is_white_space(s.first()) {
        trimmed(s.drop_first())
    } else if is_white_space(s.last()) {
        trimmed(s.drop_last())
    } else {
        s
    }
}

/// `s` without the white space at its two ends.
pub fn trim(s: &str) -> (r: String)
    ensures
        r@ == trimmed(s@),
{
    let chars = chars_of(s);
    let mut from: usize = 0;
    let mut to: usize = chars.len();
    assert(chars@.subrange(0, to as int) == s@);
    while from < to && white_space(chars[from])
        invariant
            from <= to == chars@.len(),
            trimmed(chars@.subrange(from as int, to as int)) == trimmed(s@),
        decreases to - from,
    {
        assert(chars@.subrange(from as int, to as int).drop_first() == chars@.subrange(
            from + 1,
            to as int,
        ));
        from += 1;
    }
    while from < to && white_space(chars[to - 1])
        invariant
            from <= to <= chars@.len(),
            from < to ==> !is_white_space(chars@[from as int]),
            trimmed(chars@.subrange(from as int, to as int)) == trimmed(s@),
        decreases to - from,
    {
        assert(chars@.subrange(from as int, to as int).drop_last() == chars@.subrange(
            from as int,
            to - 1,
        ));
        to -= 1;
    }
    text_of(&chars, from, to)
}

/// The position of the first line feed in `s`, or its length.
pub open spec fn line_end(s: Seq<char>) -> int
    decreases s.len(),
{
    if s.len() == 0 || s.first() == '\n' {
        0
    } else {
        1 + line_end(s.drop_first())
    }
}

proof fn lemma_line_end(s: Seq<char>)
    ensures
        0 <= line_end(s) <= s.len(),
        line_end(s) < s.len() ==> s[line_end(s)] == '\n',
        forall|k: int| 0 <= k < line_end(s) ==> s[k] != '\n',
    decreases s.len(),
{
    if s.len() != 0 && s.first() != '\n' {
        lemma_line_end(s.drop_first());
        assert forall|k: int| 0 <= k < line_end(s) implies s[k] != '\n' by {
            if k > 0 {
                assert(s.drop_first()[k - 1] == s[k]);
            }
        }
    }
}

proof fn lemma_line_end_is(s: Seq<char>, at: int)
    requires
        0 <= at <= s.len(),
        at < s.len() ==> s[at] == '\n',
        forall|k: int| 0 <= k < at ==> s[k] != '\n',
    ensures
        line_end(s) == at,
{
    lemma_line_end(s);
}

/// `s` without one carriage return at its end.
pub open spec fn without_cr(s: Seq<char>) -> Seq<char> {
    if s.len() > 0 && s.last() == '\r' {
        s.drop_last()
    } else {
        s
    }
}

/// The lines of `s`: each ends in a line feed, which a carriage return may
/// precede, and neither is part of it; a last line need not end in one.
pub open spec fn lines_of(s: Seq<char>) -> Seq<Seq<char>>
    decreases s.len(),
    via lines_of_decreases
{
    if s.len() == 0 {
        Seq::empty()
    } else if line_end(s) == s.len() {
        seq![s]
    } else {
        seq![without_cr(s.take(line_end(s)))] + lines_of(s.skip(line_end(s) + 1))
    }
}

#[via_fn]
proof fn lines_of_decreases(s: Seq<char>) {
    lemma_line_end(s);
}

/// The lines of `s`.
pub fn lines(s: &str) -> (r: Vec<String>)
    ensures
        texts(r@) == lines_of(s@),
{
    let chars = chars_of(s);
    let mut out: Vec<String> = Vec::new();
    let mut start: usize = 0;
    assert(chars@.skip(0) == s@);
    assert(texts(out@) + lines_of(s@) == lines_of(s@));
    while start < chars.len()
        invariant
            chars@ == s@,
            start <= chars@.len(),
            texts(out@) + lines_of(chars@.skip(start as int)) == lines_of(s@),
        decreases chars@.len() - start,
    {
        let ghost rest = chars@.skip(start as int);
        let mut end: usize = start;
        while end < chars.len() && chars[end] != '\n'
            invariant
                start <= end <= chars@.len(),
                forall|k: int| start <= k < end ==> chars@[k] != '\n',
            decreases chars@.len() - end,
        {
            end += 1;
        }
        proof {
            lemma_line_end_is(rest, end - start);
        }
        let ghost before = out@;
        if end == chars.len() {
            let line = text_of(&chars, start, end);
            assert(line@ == rest);
            out.push(line);
            assert(texts(out@) == texts(before).push(rest));
            assert(chars@.skip(end as int).len() == 0);
            assert(texts(before) + seq![rest] == texts(before).push(rest));
            start = end;
        } else {
            let stop: usize = if end > start && chars[end - 1] == '\r' { end - 1 } else { end };
            let line = text_of(&chars, start, stop);
            assert(rest.take(end - start) == chars@.subrange(start as int, end as int));
            assert(line@ == without_cr(rest.take(end - start)));
            out.push(line);
            assert(texts(out@) == texts(before).push(line@));
            assert(rest.skip(end - start + 1) == chars@.skip(end + 1));
            assert(texts(before) + (seq![line@] + lines_of(chars@.skip(end + 1))) == texts(out@)
                + lines_of(chars@.skip(end + 1)));
            start = end + 1;
        }
    }
    assert(lines_of(chars@.skip(start as int)).len() == 0);
    out
}

/// The decimal digit of a number below ten.
pub open spec fn digit(n: nat) -> char {
    ('0' as u32 + n) as char
}

/// `n` written in decimal, without leading zeros.
pub open spec fn decimal_of(n: nat) -> Seq<char>
    decreases n,
{
    if n < 10 {
        seq![digit(n)]
    } else {
        decimal_of(n / 10).push(digit(n % 10))
    }
}

/// The decimal digit of a number below ten.
fn digit_char(n: u64) -> (r: char)
    requires
        n < 10,
    ensures
        r == digit(n as nat),
{
    if n == 0 {
        '0'
    } else if n == 1 {
        '1'
    } else if n == 2 {
        '2'
    } else if n == 3 {
        '3'
    } else if n == 4 {
        '4'
    } else if n == 5 {
        '5'
    } else if n == 6 {
        '6'
    } else if n == 7 {
        '7'
    } else if n == 8 {
        '8'
    } else {
        '9'
    }
}

/// `n` written in decimal, without leading zeros.
pub fn decimal(n: u64) -> (r: String)
    ensures
        r@ == decimal_of(n as nat),
    decreases n,
{
    let mut out = if n < 10 { String::new() } else { decimal(n / 10) };
    out.push(digit_char(n % 10));
    out
}

// ---- Laws ---------------------------------------------------------------

/// The texts of a list are the texts of its strings, one for one.
pub proof fn texts_are_those_of_the_strings(list: Seq<String>)
    ensures
        texts(list).len() == list.len(),
        forall|i: int| 0 <= i < list.len() ==> #[trigger] texts(list)[i] == list[i]@,
{
}

/// A text stands at a place exactly when all its characters follow each other
/// from there on.
pub proof fn text_stands_where_its_characters_are(hay: Seq<char>, needle: Seq<char>, at: int)
    ensures
        stands_at(hay, needle, at) <==> {
            &&& 0 <= at
            &&& at + needle.len() <= hay.len()
            &&& forall|i: int| 0 <= i < needle.len() ==> hay[at + i] == #[trigger] needle[i]
        },
{
    if 0 <= at && at + needle.len() <= hay.len() {
        let piece = hay.subrange(at, at + needle.len());
        if forall|i: int| 0 <= i < needle.len() ==> hay[at + i] == #[trigger] needle[i] {
            assert(piece =~= needle);
        }
        if piece == needle {
            assert forall|i: int| 0 <= i < needle.len() implies hay[at + i]
                == #[trigger] needle[i] by {
                assert(piece[i] == hay[at + i]);
            }
        }
    }
}

/// A text occurs in whatever is put around it.
pub proof fn surrounded_text_occurs(head: Seq<char>, needle: Seq<char>, tail: Seq<char>)
    ensures
        occurs(head + needle + tail, needle),
{
    let hay = head + needle + tail;
    assert(hay.subrange(head.len() as int, (head.len() + needle.len()) as int) == needle);
    assert(stands_at(hay, needle, head.len() as int));
}

/// A text occurs in another exactly when it is one of its pieces.
pub proof fn text_occurs_as_a_piece(hay: Seq<char>, needle: Seq<char>)
    ensures
        occurs(hay, needle) <==> exists|at: int|
            0 <= at <= hay.len() - needle.len() && #[trigger] hay.subrange(at, at + needle.len())
                == needle,
{
    if occurs(hay, needle) {
        let at = choose|at: int| stands_at(hay, needle, at);
        assert(hay.subrange(at, at + needle.len()) == needle);
    }
    if exists|at: int|
        0 <= at <= hay.len() - needle.len() && #[trigger] hay.subrange(at, at + needle.len())
            == needle {
        let at = choose|at: int|
            0 <= at <= hay.len() - needle.len() && #[trigger] hay.subrange(at, at + needle.len())
                == needle;
        assert(stands_at(hay, needle, at));
    }
}

/// What is split off is what follows the first place at which the mark is.
pub proof fn split_comes_after_the_first_mark(s: Seq<char>, mark: Seq<char>, at: int)
    requires
        0 <= at <= s.len() - mark.len(),
        s.subrange(at, at + mark.len()) == mark,
        forall|k: int| 0 <= k < at ==> #[trigger] s.subrange(k, k + mark.len()) != mark,
    ensures
        after_first(s, mark) == Some(s.skip(at + mark.len())),
{
    assert forall|k: int| k < at implies !stands_at(s, mark, k) by {
        if 0 <= k {
            assert(s.subrange(k, k + mark.len()) != mark);
        }
    }
    lemma_after_first(s, mark, at);
}

/// What is split off is what follows some place at which the mark is, up to the
/// end.
pub proof fn split_is_an_end_behind_a_mark(s: Seq<char>, mark: Seq<char>)
    ensures
        after_first(s, mark) matches Some(rest) ==> exists|at: int|
            {
                &&& 0 <= at <= s.len() - mark.len()
                &&& #[trigger] s.subrange(at, at + mark.len()) == mark
                &&& rest == s.skip(at + mark.len())
            },
    decreases s.len(),
{
    if stands_at(s, mark, 0) {
        assert(s.subrange(0int, 0int + mark.len()) == mark);
    } else if s.len() > 0 {
        let tail = s.drop_first();
        split_is_an_end_behind_a_mark(tail, mark);
        if let Some(rest) = after_first(tail, mark) {
            let at = choose|at: int|
                {
                    &&& 0 <= at <= tail.len() - mark.len()
                    &&& #[trigger] tail.subrange(at, at + mark.len()) == mark
                    &&& rest == tail.skip(at + mark.len())
                };
            assert(s.subrange(at + 1, at + 1 + mark.len()) == tail.subrange(at, at + mark.len()));
            assert(s.skip(at + 1 + mark.len()) == tail.skip(at + mark.len()));
        }
    }
}

/// Nothing is split off a text without the mark.
pub proof fn nothing_is_split_without_a_mark(s: Seq<char>, mark: Seq<char>)
    requires
        forall|k: int|
            0 <= k <= s.len() - mark.len() ==> #[trigger] s.subrange(k, k + mark.len()) != mark,
    ensures
        after_first(s, mark) is None,
{
    assert forall|k: int| !stands_at(s, mark, k) by {
        if 0 <= k <= s.len() - mark.len() {
            assert(s.subrange(k, k + mark.len()) != mark);
        }
    }
    lemma_after_none(s, mark);
}

/// Trimming leaves what stands between the white space at the two ends.
pub proof fn trimming_leaves_the_core(head: Seq<char>, core: Seq<char>, tail: Seq<char>)
    requires
        forall|i: int| 0 <= i < head.len() ==> is_white_space(#[trigger] head[i]),
        forall|i: int| 0 <= i < tail.len() ==> is_white_space(#[trigger] tail[i]),
        core.len() > 0 ==> !is_white_space(core.first()) && !is_white_space(core.last()),
    ensures
        trimmed(head + core + tail) == core,
    decreases head.len() + tail.len(),
{
    let s = head + core + tail;
    if head.len() > 0 {
        assert(s.first() == head[0]);
        assert(s.drop_first() == head.drop_first() + core + tail);
        assert forall|i: int| 0 <= i < head.drop_first().len() implies is_white_space(
            #[trigger] head.drop_first()[i],
        ) by {
            assert(head.drop_first()[i] == head[i + 1]);
        }
        trimming_leaves_the_core(head.drop_first(), core, tail);
    } else if tail.len() > 0 {
        assert(s.last() == tail[tail.len() - 1]);
        if core.len() == 0 {
            assert(s == tail);
            assert(s.first() == tail[0]);
            assert(s.drop_first() == head + core + tail.drop_first());
            assert forall|i: int| 0 <= i < tail.drop_first().len() implies is_white_space(
                #[trigger] tail.drop_first()[i],
            ) by {
                assert(tail.drop_first()[i] == tail[i + 1]);
            }
            trimming_leaves_the_core(head, core, tail.drop_first());
        } else {
            assert(s.first() == core.first());
            assert(s.drop_last() == head + core + tail.drop_last());
            trimming_leaves_the_core(head, core, tail.drop_last());
        }
    } else {
        assert(s == core);
    }
}

/// An empty text has no lines.
pub proof fn empty_text_has_no_lines()
    ensures
        lines_of(Seq::empty()).len() == 0,
{
}

/// A text without a line feed is one line, as it stands.
pub proof fn text_without_line_feed_is_a_line(line: Seq<char>)
    requires
        line.len() > 0,
        !line.contains('\n'),
    ensures
        lines_of(line) == seq![line],
{
    assert forall|k: int| 0 <= k < line.len() implies line[k] != '\n' by {
        assert(line.contains(line[k]));
    }
    lemma_line_end_is(line, line.len() as int);
}

/// A line feed ends a line, together with a carriage return before it, and what
/// follows is cut on its own.
pub proof fn line_feed_ends_a_line(line: Seq<char>, rest: Seq<char>)
    requires
        !line.contains('\n'),
    ensures
        line.len() == 0 || line.last() != '\r' ==> lines_of(line + seq!['\n'] + rest) == seq![line]
            + lines_of(rest),
        lines_of(line + seq!['\r', '\n'] + rest) == seq![line] + lines_of(rest),
{
    let plain = line + seq!['\n'] + rest;
    let n = line.len() as int;
    assert forall|k: int| 0 <= k < line.len() implies line[k] != '\n' by {
        assert(line.contains(line[k]));
    }
    lemma_line_end_is(plain, n);
    assert(plain.take(n) == line);
    assert(plain.skip(n + 1) == rest);
    let returned = line + seq!['\r', '\n'] + rest;
    lemma_line_end_is(returned, n + 1);
    assert(returned.take(n + 1) == line.push('\r'));
    assert(line.push('\r').drop_last() == line);
    assert(returned.skip(n + 2) == rest);
}

/// The number that decimal digits stand for.
pub open spec fn number_in(digits: Seq<char>) -> int
    decreases digits.len(),
{
    if digits.len() == 0 {
        0
    } else {
        10 * number_in(digits.drop_last()) + (digits.last() as int - '0' as int)
    }
}

/// A number in decimal stands for the number, is made of digits alone, and does
/// not begin with a zero unless it is zero.
pub proof fn decimal_stands_for_its_number(n: nat)
    ensures
        number_in(decimal_of(n)) == n,
        decimal_of(n).len() > 0,
        forall|i: int| 0 <= i < decimal_of(n).len() ==> '0' <= #[trigger] decimal_of(n)[i] <= '9',
        decimal_of(n)[0] == '0' ==> n == 0,
    decreases n,
{
    let text = decimal_of(n);
    if n < 10 {
        assert(text.drop_last() =~= Seq::<char>::empty());
        assert(number_in(text.drop_last()) == 0);
        assert(text.last() == digit(n));
    } else {
        decimal_stands_for_its_number(n / 10);
        assert(text.drop_last() == decimal_of(n / 10));
        assert(text.last() == digit(n % 10));
        assert(text[0] == decimal_of(n / 10)[0]);
        assert forall|i: int| 0 <= i < text.len() implies '0' <= #[trigger] text[i] <= '9' by {
            if i < text.len() - 1 {
                assert(text[i] == decimal_of(n / 10)[i]);
            }
        }
    }
}

/// Lower case moves the letters from `A` to `Z` by 32 places and nothing else.
pub proof fn lower_case_moves_letters_alone(s: Seq<char>)
    ensures
        lower_ascii(s).len() == s.len(),
        forall|i: int|
            0 <= i < s.len() ==> #[trigger] lower_ascii(s)[i] as int == s[i] as int + (if 'A'
                <= s[i] <= 'Z' {
                32int
            } else {
                0
            }),
{
}

} // verus!
