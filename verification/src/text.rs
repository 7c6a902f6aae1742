//! Text primitives shared by the decoders and collectors: conversions
//! between strings and character vectors, searching, replacing, trimming and
//! decimal rendering, each with its meaning stated over character sequences.

use vstd::prelude::*;

verus! {

// ---------------------------------------------------------------------------
// Strings and character vectors
// ---------------------------------------------------------------------------

/// Builds a string from its characters.
///
/// Trusted: `String::from_iter` over the characters of `chars` yields the
/// string whose characters are exactly those, in order.
#[verifier::external_body]
pub(crate) fn string_from_chars(chars: &Vec<char>) -> (res: String)
    ensures
        res@ == chars@,
{
    String::from_iter(chars.iter())
}

/// The characters of `s`, in order.
pub fn chars_of(s: &str) -> (res: Vec<char>)
    ensures
        res@ == s@,
{
    let mut out: Vec<char> = Vec::new();
    for c in it: s.chars()
        invariant
            out@ == it.seq().take(it.index()),
            it.seq() == s@,
    {
        out.push(c);
    }
    out
}

/// The texts of a list of strings.
pub open spec fn texts(list: Seq<String>) -> Seq<Seq<char>> {
    list.map_values(|s: String| s@)
}

/// A copy of a list of strings.
pub fn clone_strings(list: &Vec<String>) -> (res: Vec<String>)
    ensures
        res@ == list@,
        texts(res@) == texts(list@),
{
    let mut out: Vec<String> = Vec::new();
    let mut i: usize = 0;
    while i < list.len()
        invariant
            i <= list@.len(),
            out@ == list@.take(i as int),
        decreases list@.len() - i,
    {
        out.push(list[i].clone());
        proof {
            assert(out@ =~= list@.take(i + 1));
        }
        i = i + 1;
    }
    proof {
        assert(list@.take(list@.len() as int) =~= list@);
    }
    out
}

/// Whether two texts are the same.
pub fn same_text(a: &str, b: &str) -> (res: bool)
    ensures
        res == (a@ == b@),
{
    let left: Vec<char> = chars_of(a);
    let right: Vec<char> = chars_of(b);
    if left.len() != right.len() {
        return false;
    }
    let mut i: usize = 0;
    while i < left.len()
        invariant
            i <= left@.len(),
            left@.len() == right@.len(),
            left@ == a@,
            right@ == b@,
            left@.take(i as int) == right@.take(i as int),
        decreases left@.len() - i,
    {
        if left[i] != right[i] {
            proof {
                assert(left@[i as int] != right@[i as int]);
            }
            return false;
        }
        proof {
            assert(left@.take(i + 1) =~= left@.take(i as int).push(left@[i as int]));
            assert(right@.take(i + 1) =~= right@.take(i as int).push(right@[i as int]));
        }
        i = i + 1;
    }
    proof {
        assert(left@.take(left@.len() as int) =~= left@);
        assert(right@.take(right@.len() as int) =~= right@);
    }
    true
}

// ---------------------------------------------------------------------------
// Searching and replacing
// ---------------------------------------------------------------------------

/// Whether `pattern` stands in `text` at position `pos`.
pub open spec fn occurs_at(text: Seq<char>, pattern: Seq<char>, pos: int) -> bool {
    0 <= pos && pos + pattern.len() <= text.len() && text.subrange(pos, pos + pattern.len())
        == pattern
}

/// The first position at or behind `from` where `pattern` stands in `text`.
pub open spec fn find_from(text: Seq<char>, pattern: Seq<char>, from: int) -> Option<int>
    decreases text.len() + 1 - from,
{
    if from < 0 || from + pattern.len() > text.len() {
        None
    } else if occurs_at(text, pattern, from) {
        Some(from)
    } else {
        find_from(text, pattern, from + 1)
    }
}

/// `text` with every occurrence of `pattern` replaced by `with`, scanning
/// from the left; occurrences do not overlap. An empty pattern replaces
/// nothing.
pub open spec fn replace_from(text: Seq<char>, pattern: Seq<char>, with: Seq<char>, from: int)
    -> Seq<char>
    decreases text.len() - from,
{
    if from < 0 || from >= text.len() || pattern.len() == 0 {
        Seq::empty()
    } else if occurs_at(text, pattern, from) {
        with + replace_from(text, pattern, with, from + pattern.len())
    } else {
        seq![text[from]] + replace_from(text, pattern, with, from + 1)
    }
}

/// `text` with every occurrence of `pattern` replaced by `with`. An empty
/// pattern occurs nowhere.
pub open spec fn replace_all(text: Seq<char>, pattern: Seq<char>, with: Seq<char>) -> Seq<char> {
    if pattern.len() == 0 {
        text
    } else {
        replace_from(text, pattern, with, 0)
    }
}

/// Where `find_from` finds something, the pattern stands there, and
/// nowhere between `from` and there; where it finds nothing, the pattern
/// stands nowhere at or behind `from`.
pub proof fn lemma_find_from(text: Seq<char>, pattern: Seq<char>, from: int)
    requires
        0 <= from,
    ensures
        find_from(text, pattern, from) matches Some(pos) ==> from <= pos && occurs_at(
            text,
            pattern,
            pos,
        ) && forall|k: int| from <= k < pos ==> !occurs_at(text, pattern, k),
        find_from(text, pattern, from) is None ==> forall|k: int|
            from <= k ==> !occurs_at(text, pattern, k),
    decreases text.len() + 1 - from,
{
    if from + pattern.len() > text.len() {
    } else if occurs_at(text, pattern, from) {
    } else {
        lemma_find_from(text, pattern, from + 1);
    }
}

/// Tests whether `pattern` stands in `text` at `pos`.
pub fn matches_at(text: &Vec<char>, pattern: &Vec<char>, pos: usize) -> (res: bool)
    ensures
        res == occurs_at(text@, pattern@, pos as int),
{
    if pos > text.len() || pattern.len() > text.len() - pos {
        return false;
    }
    let ghost window = text@.subrange(pos as int, pos + pattern@.len());
    let mut i: usize = 0;
    while i < pattern.len()
        invariant
            i <= pattern@.len(),
            pos + pattern@.len() <= text@.len() <= usize::MAX,
            window == text@.subrange(pos as int, pos + pattern@.len()),
            window.take(i as int) == pattern@.take(i as int),
        decreases pattern@.len() - i,
    {
        if text[pos + i] != pattern[i] {
            proof {
                assert(window[i as int] != pattern@[i as int]);
            }
            return false;
        }
        proof {
            assert(window.take(i + 1) =~= window.take(i as int).push(window[i as int]));
            assert(pattern@.take(i + 1) =~= pattern@.take(i as int).push(pattern@[i as int]));
        }
        i = i + 1;
    }
    proof {
        assert(window.take(window.len() as int) =~= window);
        assert(pattern@.take(pattern@.len() as int) =~= pattern@);
    }
    true
}

/// Finds the first occurrence of `pattern` in `text` at or behind `from`.
pub fn find(text: &Vec<char>, pattern: &Vec<char>, from: usize) -> (res: Option<usize>)
    ensures
        match res {
            Some(pos) => find_from(text@, pattern@, from as int) == Some(pos as int),
            None => find_from(text@, pattern@, from as int) is None,
        },
{
    if from > text.len() || pattern.len() > text.len() - from {
        return None;
    }
    let last: usize = text.len() - pattern.len();
    let mut pos: usize = from;
    loop
        invariant
            from <= pos <= last,
            last == text@.len() - pattern@.len(),
            find_from(text@, pattern@, pos as int) == find_from(text@, pattern@, from as int),
        decreases last - pos,
    {
        if matches_at(text, pattern, pos) {
            return Some(pos);
        }
        if pos == last {
            proof {
                assert(find_from(text@, pattern@, pos + 1) is None);
            }
            return None;
        }
        pos = pos + 1;
    }
}

/// Replaces every occurrence of `pattern` in `text` by `with`. An empty
/// pattern occurs nowhere: the text is handed back as it is.
pub fn replace(text: &Vec<char>, pattern: &Vec<char>, with: &Vec<char>) -> (res: Vec<char>)
    ensures
        res@ == replace_all(text@, pattern@, with@),
{
    if pattern.len() == 0 {
        let whole: usize = text.len();
        let copy: Vec<char> = slice_chars(text, 0, whole);
        proof {
            assert(copy@ =~= text@);
        }
        return copy;
    }
    let mut out: Vec<char> = Vec::new();
    let mut pos: usize = 0;
    while pos < text.len()
        invariant
            pos <= text@.len(),
            pattern@.len() > 0,
            out@ + replace_from(text@, pattern@, with@, pos as int) == replace_from(
                text@,
                pattern@,
                with@,
                0,
            ),
        decreases text@.len() - pos,
    {
        if matches_at(text, pattern, pos) {
            let mut j: usize = 0;
            let ghost before = out@;
            while j < with.len()
                invariant
                    j <= with@.len(),
                    out@ == before + with@.take(j as int),
                decreases with@.len() - j,
            {
                out.push(with[j]);
                proof {
                    assert(with@.take(j + 1) =~= with@.take(j as int).push(with@[j as int]));
                    assert(out@ =~= before + with@.take(j + 1));
                }
                j = j + 1;
            }
            proof {
                assert(with@.take(with@.len() as int) =~= with@);
                let rest = replace_from(text@, pattern@, with@, pos + pattern@.len());
                assert((before + with@) + rest =~= before + (with@ + rest));
            }
            pos = pos + pattern.len();
        } else {
            let ghost before = out@;
            out.push(text[pos]);
            proof {
                let rest = replace_from(text@, pattern@, with@, pos + 1);
                assert(before.push(text@[pos as int]) + rest =~= before + (seq![text@[pos as int]]
                    + rest));
            }
            pos = pos + 1;
        }
    }
    proof {
        assert(out@ + Seq::<char>::empty() =~= out@);
    }
    out
}

/// The part of `text` from `from` up to `to`.
pub fn slice_chars(text: &Vec<char>, from: usize, to: usize) -> (res: Vec<char>)
    requires
        from <= to <= text@.len(),
    ensures
        res@ == text@.subrange(from as int, to as int),
{
    let mut out: Vec<char> = Vec::new();
    let mut i: usize = from;
    while i < to
        invariant
            from <= i <= to <= text@.len(),
            out@ == text@.subrange(from as int, i as int),
        decreases to - i,
    {
        out.push(text[i]);
        proof {
            assert(out@ =~= text@.subrange(from as int, i + 1));
        }
        i = i + 1;
    }
    out
}

// ---------------------------------------------------------------------------
// Trimming
// ---------------------------------------------------------------------------

/// Whether a character has the Unicode property White_Space: the
/// controls from tab to carriage return, the space, the next-line
/// control, the no-break space, the ogham space mark, the spaces from en
/// quad to hair space, the line and the paragraph separator, the narrow
/// no-break space, the medium mathematical space and the ideographic
/// space.
pub open spec fn is_white_space(c: char) -> bool {
    let v = c as u32;
    ||| 0x09 <= v <= 0x0D
    ||| v == 0x20
    ||| v == 0x85
    ||| v == 0xA0
    ||| v == 0x1680
    ||| 0x2000 <= v <= 0x200A
    ||| v == 0x2028
    ||| v == 0x2029
    ||| v == 0x202F
    ||| v == 0x205F
    ||| v == 0x3000
}

/// Tests a character for the Unicode property White_Space.
///
/// Trusted: `char::is_whitespace` decides that property, which these
/// twenty-five characters have and no other.
#[verifier::external_body]
fn char_is_whitespace(c: char) -> (res: bool)
    ensures
        res == is_white_space(c),
{
    c.is_whitespace()
}

/// How many white-space characters stand at the start of `text`.
pub open spec fn leading_white_space(text: Seq<char>) -> nat
    decreases text.len(),
{
    if text.len() > 0 && is_white_space(text[0]) {
        1 + leading_white_space(text.drop_first())
    } else {
        0
    }
}

/// How many white-space characters stand at the end of `text`.
pub open spec fn trailing_white_space(text: Seq<char>) -> nat
    decreases text.len(),
{
    if text.len() > 0 && is_white_space(text.last()) {
        1 + trailing_white_space(text.drop_last())
    } else {
        0
    }
}

/// `text` without the white space at its start and at its end.
pub open spec fn trimmed(text: Seq<char>) -> Seq<char> {
    let start = leading_white_space(text);
    let rest = text.skip(start as int);
    rest.take(rest.len() - trailing_white_space(rest))
}

/// Removes the white space at both ends of `text`.
pub fn trim(text: &Vec<char>) -> (res: Vec<char>)
    ensures
        res@ == trimmed(text@),
{
    let mut start: usize = 0;
    proof {
        assert(text@.skip(0) =~= text@);
    }
    while start < text.len() && char_is_whitespace(text[start])
        invariant
            start <= text@.len(),
            start + leading_white_space(text@.skip(start as int)) == leading_white_space(text@),
        decreases text@.len() - start,
    {
        proof {
            assert(text@.skip(start as int).drop_first() =~= text@.skip(start + 1));
        }
        start = start + 1;
    }
    let ghost rest = text@.skip(start as int);
    let mut end: usize = text.len();
    proof {
        assert(rest.take(rest.len() as int) =~= rest);
        if start < text@.len() {
            assert(rest[0] == text@[start as int]);
        }
    }
    while end > start && char_is_whitespace(text[end - 1])
        invariant
            start <= end <= text@.len(),
            rest == text@.skip(start as int),
            (rest.len() - (end - start)) + trailing_white_space(rest.take(end - start))
                == trailing_white_space(rest),
        decreases end,
    {
        proof {
            assert(rest.take(end - start).drop_last() =~= rest.take(end - start - 1));
            assert(rest.take(end - start).last() == text@[end - 1]);
        }
        end = end - 1;
    }
    proof {
        if end > start {
            assert(rest.take(end - start).last() == text@[end - 1]);
        } else {
            assert(rest.take(0).len() == 0);
        }
        assert(text@.subrange(start as int, end as int) =~= rest.take(end - start));
    }
    slice_chars(text, start, end)
}

// ---------------------------------------------------------------------------
// Decimal rendering
// ---------------------------------------------------------------------------

/// The character of a decimal digit.
pub open spec fn digit_char(digit: nat) -> char {
    (48 + digit) as char
}

/// The decimal notation of a number, without sign or leading zeros.
pub open spec fn decimal(n: nat) -> Seq<char>
    decreases n,
{
    if n < 10 {
        seq![digit_char(n)]
    } else {
        decimal(n / 10).push(digit_char(n % 10))
    }
}

/// Appends the decimal notation of `n` to `out`.
pub fn push_decimal(out: &mut Vec<char>, n: u64)
    ensures
        final(out)@ == old(out)@ + decimal(n as nat),
    decreases n,
{
    if n >= 10 {
        push_decimal(out, n / 10);
    }
    let digit: u8 = (n % 10) as u8;
    let ghost before = out@;
    out.push((48u8 + digit) as char);
    proof {
        if n >= 10 {
            assert(before.push(digit_char((n % 10) as nat)) =~= old(out)@ + decimal(n as nat));
        } else {
            assert(before.push(digit_char(n as nat)) =~= old(out)@ + decimal(n as nat));
        }
    }
}

/// Appends the characters of `text` to `out`.
pub fn push_str(out: &mut Vec<char>, text: &str)
    ensures
        final(out)@ == old(out)@ + text@,
{
    let chars: Vec<char> = chars_of(text);
    let mut i: usize = 0;
    while i < chars.len()
        invariant
            i <= chars@.len(),
            chars@ == text@,
            out@ == old(out)@ + chars@.take(i as int),
        decreases chars@.len() - i,
    {
        out.push(chars[i]);
        proof {
            assert(out@ =~= old(out)@ + chars@.take(i + 1));
        }
        i = i + 1;
    }
    proof {
        assert(chars@.take(chars@.len() as int) =~= chars@);
    }
}

} // verus!
