//! The wide-string codec: UTF-8 text to NUL-terminated UTF-16 code units for
//! native wide-character interfaces, and UTF-16 buffers back to text.

use vstd::prelude::*;
use vstd::utf8::*;
use crate::text::{chars_of, string_from_chars};

verus! {

/// The character that ends a native wide string and pads fixed-size buffers.
pub const NUL: char = '\0';

/// What the lossy conversion puts in place of an ill-formed code unit.
pub const REPLACEMENT: char = '\u{FFFD}';

// ---------------------------------------------------------------------------
// Reading UTF-8, one scalar at a time
// ---------------------------------------------------------------------------

/// The scalar value encoded at `pos` in `bytes` together with the position
/// just behind it, or `None` where `pos` is the end of the input or no
/// well-formed encoding starts there.
pub open spec fn first_scalar_at(bytes: Seq<u8>, pos: int) -> Option<(u32, int)> {
    let rest = bytes.subrange(pos, bytes.len() as int);
    if rest.len() > 0 && valid_first_scalar(rest) {
        Some((decode_first_scalar(rest), pos + length_of_first_scalar(rest)))
    } else {
        None
    }
}

/// How many UTF-16 code units a scalar value takes.
pub open spec fn unit_count(code_point: u32) -> nat {
    if code_point <= 0xFFFF {
        1
    } else {
        2
    }
}

/// The number of UTF-16 code units needed for the well-formed prefix of
/// `bytes`: counting stops at the first position where no scalar can be read.
pub open spec fn utf16_len_from(bytes: Seq<u8>, pos: int) -> nat
    decreases bytes.len() - pos,
{
    match first_scalar_at(bytes, pos) {
        Some((code_point, next)) => if 0 <= pos < next <= bytes.len() {
            unit_count(code_point) + utf16_len_from(bytes, next)
        } else {
            0
        },
        None => 0,
    }
}

proof fn lemma_leading_width_2(b0: u8, b1: u8)
    by (bit_vector)
    ensures
        ((b0 as u32) & 0xe0 == 0xc0) <==> (0xc0 <= b0 <= 0xdf),
        ((b1 as u32) & 0xc0 == 0x80) <==> (0x80 <= b1 <= 0xbf),
        (((b0 as u32) & 0x1f) << 6) | ((b1 as u32) & 0x3f) == (((b0 & 0x1F) as u32) << 6) | ((b1
            & 0x3f) as u32),
        (((b0 as u32) & 0x1f) << 6) | ((b1 as u32) & 0x3f) <= 0x7ff,
        b0 <= 0x7f ==> (b0 & 0x7F) as u32 == b0 as u32,
{
}

proof fn lemma_leading_width_3(b0: u8, b1: u8, b2: u8)
    by (bit_vector)
    ensures
        ((b0 as u32) & 0xf0 == 0xe0) <==> (0xe0 <= b0 <= 0xef),
        ((b2 as u32) & 0xc0 == 0x80) <==> (0x80 <= b2 <= 0xbf),
        (((b0 as u32) & 0x0f) << 12) | (((b1 as u32) & 0x3f) << 6) | ((b2 as u32) & 0x3f) == (((b0
            & 0x0F) as u32) << 12) | (((b1 & 0x3f) as u32) << 6) | ((b2 & 0x3f) as u32),
{
}

proof fn lemma_leading_width_4(b0: u8, b1: u8, b2: u8, b3: u8)
    by (bit_vector)
    ensures
        ((b0 as u32) & 0xf8 == 0xf0) <==> (0xf0 <= b0 <= 0xf7),
        ((b3 as u32) & 0xc0 == 0x80) <==> (0x80 <= b3 <= 0xbf),
        (((b0 as u32) & 0x07) << 18) | (((b1 as u32) & 0x3f) << 12) | (((b2 as u32) & 0x3f) << 6)
            | ((b3 as u32) & 0x3f) == (((b0 & 0x07) as u32) << 18) | (((b1 & 0x3f) as u32) << 12)
            | (((b2 & 0x3f) as u32) << 6) | ((b3 & 0x3f) as u32),
{
}

/// Reads the UTF-8 scalar that starts at `pos`.
///
/// Returns the scalar value and the position of the byte behind it. Returns
/// `None` at the end of the input, and wherever the bytes at `pos` are not a
/// well-formed encoding: a stray continuation byte, a truncated or overlong
/// sequence, a surrogate, or a value above U+10FFFF.
pub fn decode_utf8_char(bytes: &[u8], pos: usize) -> (res: Option<(u32, usize)>)
    requires
        pos <= bytes@.len(),
    ensures
        match res {
            Some((code_point, next)) => first_scalar_at(bytes@, pos as int) == Some(
                (code_point, next as int),
            ),
            None => first_scalar_at(bytes@, pos as int) is None,
        },
{
    if bytes.len() == pos {
        return None;
    }
    let ghost rest = bytes@.subrange(pos as int, bytes@.len() as int);
    let remaining: usize = bytes.len() - pos;
    let b0: u8 = bytes[pos];
    let ch: u32 = b0 as u32;
    assert(rest[0] == b0);
    if ch <= 0x7f {
        proof {
            lemma_leading_width_2(b0, b0);
        }
        return Some((ch, pos + 1));
    }
    if (ch & 0xe0) == 0xc0 {
        if remaining < 2 {
            proof {
                lemma_leading_width_2(b0, b0);
            }
            return None;
        }
        let b1: u8 = bytes[pos + 1];
        let ch2: u32 = b1 as u32;
        assert(rest[1] == b1);
        proof {
            lemma_leading_width_2(b0, b1);
        }
        if (ch2 & 0xc0) != 0x80 {
            return None;
        }
        let result: u32 = ((ch & 0x1f) << 6) | (ch2 & 0x3f);
        if result <= 0x7f {
            return None;
        }
        return Some((result, pos + 2));
    }
    if (ch & 0xf0) == 0xe0 {
        if remaining < 3 {
            proof {
                lemma_leading_width_2(b0, b0);
                lemma_leading_width_3(b0, b0, b0);
            }
            return None;
        }
        let b1: u8 = bytes[pos + 1];
        let b2: u8 = bytes[pos + 2];
        let ch2: u32 = b1 as u32;
        let ch3: u32 = b2 as u32;
        assert(rest[1] == b1 && rest[2] == b2);
        proof {
            lemma_leading_width_2(b0, b1);
            lemma_leading_width_3(b0, b1, b2);
        }
        if (ch2 & 0xc0) != 0x80 || (ch3 & 0xc0) != 0x80 {
            return None;
        }
        let result: u32 = ((ch & 0x0f) << 12) | ((ch2 & 0x3f) << 6) | (ch3 & 0x3f);
        if result <= 0x7ff || (0xd800 <= result && result <= 0xdfff) {
            return None;
        }
        return Some((result, pos + 3));
    }
    if (ch & 0xf8) == 0xf0 {
        if remaining < 4 {
            proof {
                lemma_leading_width_2(b0, b0);
                lemma_leading_width_3(b0, b0, b0);
                lemma_leading_width_4(b0, b0, b0, b0);
            }
            return None;
        }
        let b1: u8 = bytes[pos + 1];
        let b2: u8 = bytes[pos + 2];
        let b3: u8 = bytes[pos + 3];
        let ch2: u32 = b1 as u32;
        let ch3: u32 = b2 as u32;
        let ch4: u32 = b3 as u32;
        assert(rest[1] == b1 && rest[2] == b2 && rest[3] == b3);
        proof {
            lemma_leading_width_2(b0, b1);
            lemma_leading_width_3(b0, b1, b2);
            lemma_leading_width_4(b0, b1, b2, b3);
        }
        if (ch2 & 0xc0) != 0x80 || (ch3 & 0xc0) != 0x80 || (ch4 & 0xc0) != 0x80 {
            return None;
        }
        let result: u32 = ((ch & 0x07) << 18) | ((ch2 & 0x3f) << 12) | ((ch3 & 0x3f) << 6) | (ch4
            & 0x3f);
        if result <= 0xffff || 0x10ffff < result {
            return None;
        }
        return Some((result, pos + 4));
    }
    proof {
        lemma_leading_width_2(b0, b0);
        lemma_leading_width_3(b0, b0, b0);
        lemma_leading_width_4(b0, b0, b0, b0);
    }
    None
}

/// Counts the UTF-16 code units that the well-formed prefix of `bytes` needs.
pub fn utf16_len(bytes: &[u8]) -> (len: usize)
    ensures
        len == utf16_len_from(bytes@, 0),
        len <= bytes@.len(),
{
    let mut pos: usize = 0;
    let mut len: usize = 0;
    loop
        invariant
            len <= pos <= bytes@.len(),
            len + utf16_len_from(bytes@, pos as int) == utf16_len_from(bytes@, 0),
        ensures
            len == utf16_len_from(bytes@, 0),
            len <= bytes@.len(),
        decreases bytes@.len() - pos,
    {
        match decode_utf8_char(bytes, pos) {
            Some((code_point, new_pos)) => {
                pos = new_pos;
                len = len + if code_point <= 0xffff {
                    1
                } else {
                    2
                };
            },
            None => {
                break ;
            },
        }
    }
    len
}

// ---------------------------------------------------------------------------
// Encoding to UTF-16
// ---------------------------------------------------------------------------

/// The UTF-16 code units of one character: the value itself up to U+FFFF,
/// above that a surrogate pair carrying the upper and the lower ten bits of
/// the value less 0x10000.
pub open spec fn utf16_units_of(c: char) -> Seq<u16> {
    let v = c as u32;
    if v <= 0xFFFF {
        seq![v as u16]
    } else {
        seq![(0xD800 + (v - 0x10000) / 0x400) as u16, (0xDC00 + (v - 0x10000) % 0x400) as u16]
    }
}

/// The UTF-16 code units of a text, without a terminator.
pub open spec fn utf16_units(s: Seq<char>) -> Seq<u16>
    decreases s.len(),
{
    if s.len() == 0 {
        Seq::empty()
    } else {
        utf16_units(s.drop_last()) + utf16_units_of(s.last())
    }
}

/// A text as a native wide string: its UTF-16 code units and one zero unit.
pub open spec fn encode_wide(s: Seq<char>) -> Seq<u16> {
    utf16_units(s).push(0u16)
}

proof fn lemma_surrogate_split(v: u32)
    by (bit_vector)
    requires
        0x10000 <= v <= 0x10FFFF,
    ensures
        ((v - 0x10000) as u32 >> 10) == (v - 0x10000) as u32 / 0x400,
        ((v - 0x10000) as u32 & 0x3ff) == (v - 0x10000) as u32 % 0x400,
        ((v - 0x10000) as u32 >> 10) <= 0x3ff,
        ((v - 0x10000) as u32 & 0x3ff) <= 0x3ff,
{
}

/// Appending a character to a text appends its code units.
pub proof fn lemma_utf16_units_push(s: Seq<char>, c: char)
    ensures
        utf16_units(s.push(c)) == utf16_units(s) + utf16_units_of(c),
{
    assert(s.push(c).drop_last() =~= s);
}

/// The code units of a concatenation are the concatenated code units.
pub proof fn lemma_utf16_units_concat(a: Seq<char>, b: Seq<char>)
    ensures
        utf16_units(a + b) == utf16_units(a) + utf16_units(b),
    decreases b.len(),
{
    if b.len() == 0 {
        assert(a + b =~= a);
        assert(utf16_units(a) + utf16_units(b) =~= utf16_units(a));
    } else {
        lemma_utf16_units_concat(a, b.drop_last());
        assert((a + b).drop_last() =~= a + b.drop_last());
        assert((a + b).last() == b.last());
        assert(utf16_units(a + b) =~= utf16_units(a) + utf16_units(b));
    }
}

/// Every character takes one or two code units, so a text takes at least as
/// many units as it has characters and at most twice as many.
pub proof fn lemma_utf16_units_len(s: Seq<char>)
    ensures
        s.len() <= utf16_units(s).len() <= 2 * s.len(),
    decreases s.len(),
{
    if s.len() > 0 {
        lemma_utf16_units_len(s.drop_last());
    }
}

/// Counting the units of the UTF-8 encoding of a text from the position
/// where the suffix `tail` starts gives the units of `tail`.
proof fn lemma_utf16_len_of_encoding(bytes: Seq<u8>, pos: int, tail: Seq<char>)
    requires
        0 <= pos <= bytes.len(),
        bytes.subrange(pos, bytes.len() as int) == encode_utf8(tail),
    ensures
        utf16_len_from(bytes, pos) == utf16_units(tail).len(),
    decreases tail.len(),
{
    let rest = bytes.subrange(pos, bytes.len() as int);
    if tail.len() == 0 {
        assert(rest.len() == 0);
    } else {
        lemma_scalar_step(bytes, pos, tail);
        let next = pos + length_of_first_scalar(rest);
        lemma_utf16_len_of_encoding(bytes, next, tail.drop_first());
        lemma_utf16_units_concat(seq![tail[0]], tail.drop_first());
        assert(seq![tail[0]] + tail.drop_first() =~= tail);
        lemma_utf16_units_push(Seq::empty(), tail[0]);
        assert(Seq::<char>::empty().push(tail[0]) =~= seq![tail[0]]);
        assert(utf16_units(seq![tail[0]]) =~= utf16_units_of(tail[0]));
    }
}

/// Reading one scalar from the UTF-8 encoding of a non-empty text: the
/// scalar is the first character, and what follows encodes the rest.
proof fn lemma_scalar_step(bytes: Seq<u8>, pos: int, tail: Seq<char>)
    requires
        0 <= pos <= bytes.len(),
        bytes.subrange(pos, bytes.len() as int) == encode_utf8(tail),
        tail.len() > 0,
    ensures
        first_scalar_at(bytes, pos) matches Some((code_point, next)) && {
            &&& code_point == tail[0] as u32
            &&& pos < next <= bytes.len()
            &&& bytes.subrange(next, bytes.len() as int) == encode_utf8(tail.drop_first())
        },
{
    let rest = bytes.subrange(pos, bytes.len() as int);
    encode_utf8_first_scalar(tail);
    char_is_scalar(tail[0]);
    let width = encode_scalar(tail[0] as u32).len() as int;
    assert(1 <= width <= 4);
    assert(rest =~= encode_scalar(tail[0] as u32) + encode_utf8(tail.drop_first()));
    assert(rest.len() >= width);
    assert(bytes.subrange(pos + width, bytes.len() as int) =~= rest.subrange(
        width,
        rest.len() as int,
    ));
    assert(rest.subrange(width, rest.len() as int) =~= encode_utf8(tail.drop_first()));
}

/// Turns a text into a NUL-terminated UTF-16 string for native
/// wide-character interfaces.
///
/// The UTF-8 bytes are read one code point at a time. A code point up to
/// U+FFFF gives one unit; a larger one gives a surrogate pair. The buffer is
/// sized beforehand for all units and the terminator, and the result always
/// ends in a zero unit: the empty text gives a single zero.
pub fn str_to_pcwstr(s: &str) -> (wide: Vec<u16>)
    ensures
        wide@ == encode_wide(s@),
        wide@.len() == utf16_len_from(encode_utf8(s@), 0) + 1,
        wide@.last() == 0,
{
    let input: &[u8] = s.as_bytes();
    let units: usize = utf16_len(input);
    proof {
        assert(input@.subrange(0, input@.len() as int) =~= input@);
        lemma_utf16_len_of_encoding(input@, 0, s@);
    }
    let mut buffer: Vec<u16> = Vec::with_capacity(units.saturating_add(1));
    let mut input_pos: usize = 0;
    let ghost mut done: int = 0;
    proof {
        assert(input@.subrange(0, input@.len() as int) =~= input@);
        assert(s@.subrange(0, s@.len() as int) =~= s@);
        assert(s@.subrange(0, 0) =~= Seq::<char>::empty());
    }
    loop
        invariant
            input@ == encode_utf8(s@),
            0 <= done <= s@.len(),
            input_pos <= input@.len(),
            input@.subrange(input_pos as int, input@.len() as int) == encode_utf8(
                s@.subrange(done, s@.len() as int),
            ),
            buffer@ == utf16_units(s@.subrange(0, done)),
        ensures
            buffer@ == utf16_units(s@),
        decreases input@.len() - input_pos,
    {
        let ghost tail = s@.subrange(done, s@.len() as int);
        proof {
            if tail.len() > 0 {
                lemma_scalar_step(input@, input_pos as int, tail);
                assert(tail.drop_first() =~= s@.subrange(done + 1, s@.len() as int));
                assert(s@.subrange(0, done + 1) =~= s@.subrange(0, done).push(tail[0]));
                lemma_utf16_units_push(s@.subrange(0, done), tail[0]);
                char_is_scalar(tail[0]);
            } else {
                assert(input@.subrange(input_pos as int, input@.len() as int).len() == 0);
                assert(s@.subrange(0, done) =~= s@);
            }
        }
        match decode_utf8_char(input, input_pos) {
            Some((code_point, new_pos)) => {
                input_pos = new_pos;
                if code_point <= 0xffff {
                    buffer.push(code_point as u16);
                } else {
                    let reduced: u32 = code_point - 0x10000;
                    proof {
                        lemma_surrogate_split(code_point);
                    }
                    buffer.push(0xd800 + (reduced >> 10) as u16);
                    buffer.push(0xdc00 + (reduced & 0x3ff) as u16);
                }
                proof {
                    assert(buffer@ =~= utf16_units(s@.subrange(0, done)) + utf16_units_of(
                        tail[0],
                    ));
                    done = done + 1;
                }
            },
            None => {
                break ;
            },
        }
    }
    buffer.push(0);
    buffer
}

// ---------------------------------------------------------------------------
// Decoding from UTF-16
// ---------------------------------------------------------------------------

/// A leading (high) surrogate unit.
pub open spec fn is_high_surrogate(u: u16) -> bool {
    0xD800 <= u <= 0xDBFF
}

/// A trailing (low) surrogate unit.
pub open spec fn is_low_surrogate(u: u16) -> bool {
    0xDC00 <= u <= 0xDFFF
}

/// The scalar value that a surrogate pair stands for.
pub open spec fn surrogate_pair_value(high: u16, low: u16) -> u32 {
    (0x10000 + (high - 0xD800) * 0x400 + (low - 0xDC00)) as u32
}

/// The text that the lossy UTF-16 conversion gives for `units`: a unit
/// outside the surrogate range is its character, a high surrogate followed
/// by a low one is the character of the pair, and every other surrogate is
/// replaced by U+FFFD on its own.
pub open spec fn decode_utf16_lossy(units: Seq<u16>) -> Seq<char>
    decreases units.len(),
{
    if units.len() == 0 {
        Seq::empty()
    } else if !is_high_surrogate(units[0]) && !is_low_surrogate(units[0]) {
        seq![units[0] as char] + decode_utf16_lossy(units.drop_first())
    } else if is_high_surrogate(units[0]) && units.len() >= 2 && is_low_surrogate(units[1]) {
        seq![surrogate_pair_value(units[0], units[1]) as char] + decode_utf16_lossy(
            units.subrange(2, units.len() as int),
        )
    } else {
        seq![REPLACEMENT] + decode_utf16_lossy(units.drop_first())
    }
}

/// `s` without the NUL characters at its end.
pub open spec fn strip_trailing_nuls(s: Seq<char>) -> Seq<char>
    decreases s.len(),
{
    if s.len() > 0 && s.last() == NUL {
        strip_trailing_nuls(s.drop_last())
    } else {
        s
    }
}

/// The text held in a native wide-character buffer: the lossy conversion of
/// its units, without the NULs that end or pad it.
pub open spec fn decode_wide(units: Seq<u16>) -> Seq<char> {
    strip_trailing_nuls(decode_utf16_lossy(units))
}

/// Whether `s` is empty or ends in something other than NUL.
pub open spec fn has_no_trailing_nul(s: Seq<char>) -> bool {
    s.len() == 0 || s.last() != NUL
}

/// Stripping leaves a prefix that does not end in NUL, and what was cut off
/// is NULs only.
pub proof fn lemma_strip_trailing_nuls(s: Seq<char>)
    ensures
        has_no_trailing_nul(strip_trailing_nuls(s)),
        strip_trailing_nuls(s).len() <= s.len(),
        strip_trailing_nuls(s) == s.take(strip_trailing_nuls(s).len() as int),
        forall|i: int| strip_trailing_nuls(s).len() <= i < s.len() ==> s[i] == NUL,
    decreases s.len(),
{
    if s.len() > 0 && s.last() == NUL {
        lemma_strip_trailing_nuls(s.drop_last());
        let kept = strip_trailing_nuls(s.drop_last());
        assert(s.drop_last().take(kept.len() as int) =~= s.take(kept.len() as int));
        assert forall|i: int| kept.len() <= i < s.len() implies s[i] == NUL by {
            if i < s.len() - 1 {
                assert(s.drop_last()[i] == s[i]);
            }
        }
    } else {
        assert(s.take(s.len() as int) =~= s);
    }
}

/// Whatever a native wide-character buffer holds, the text decoded from it
/// does not end in NUL.
pub proof fn lemma_decoded_text_has_no_trailing_nul(units: Seq<u16>)
    ensures
        has_no_trailing_nul(decode_wide(units)),
{
    lemma_strip_trailing_nuls(decode_utf16_lossy(units));
}

/// Converts UTF-16 code units to text, replacing ill-formed units.
///
/// Trusted: `String::from_utf16_lossy` decodes well-formed UTF-16 and puts
/// U+FFFD in place of each unpaired surrogate, as `decode_utf16_lossy` says.
#[verifier::external_body]
fn utf16_lossy(units: &[u16]) -> (text: String)
    ensures
        text@ == decode_utf16_lossy(units@),
{
    String::from_utf16_lossy(units)
}

/// Removes the NUL characters at the end of `chars`.
pub fn strip_nuls(chars: &mut Vec<char>)
    ensures
        final(chars)@ == strip_trailing_nuls(old(chars)@),
        has_no_trailing_nul(final(chars)@),
{
    let mut n: usize = chars.len();
    proof {
        assert(chars@.take(n as int) =~= chars@);
    }
    while n > 0 && chars[n - 1] == NUL
        invariant
            n <= chars@.len(),
            chars@ == old(chars)@,
            strip_trailing_nuls(chars@.take(n as int)) == strip_trailing_nuls(chars@),
        decreases n,
    {
        proof {
            assert(chars@.take(n as int).drop_last() =~= chars@.take(n - 1));
        }
        n = n - 1;
    }
    proof {
        assert(chars@.take(chars@.len() as int) =~= chars@);
        lemma_strip_trailing_nuls(chars@);
    }
    chars.truncate(n);
    proof {
        assert(chars@ =~= old(chars)@.take(n as int));
    }
}

/// Decodes a native wide-character buffer to text.
///
/// Ill-formed units become U+FFFD; nothing makes the conversion fail. All
/// NUL characters at the end are removed, so the text of a fixed-size buffer
/// never ends in NUL.
pub fn wide_to_string(units: &[u16]) -> (text: String)
    ensures
        text@ == decode_wide(units@),
        has_no_trailing_nul(text@),
{
    let lossy: String = utf16_lossy(units);
    let mut chars: Vec<char> = chars_of(lossy.as_str());
    strip_nuls(&mut chars);
    string_from_chars(&chars)
}

// ---------------------------------------------------------------------------
// Encoding and decoding together
// ---------------------------------------------------------------------------

/// Decoding the units of one character followed by `tail` gives the
/// character followed by the decoding of `tail`.
proof fn lemma_decode_one(c: char, tail: Seq<u16>)
    ensures
        decode_utf16_lossy(utf16_units_of(c) + tail) == seq![c] + decode_utf16_lossy(tail),
{
    let v = c as u32;
    let units = utf16_units_of(c) + tail;
    char_is_scalar(c);
    if v <= 0xFFFF {
        assert(units[0] == v as u16);
        assert(units.drop_first() =~= tail);
        assert(units[0] as char == c);
    } else {
        let high = (0xD800 + (v - 0x10000) / 0x400) as u16;
        let low = (0xDC00 + (v - 0x10000) % 0x400) as u16;
        assert(units[0] == high && units[1] == low);
        assert(units.subrange(2, units.len() as int) =~= tail);
        assert(surrogate_pair_value(high, low) == v);
        assert(v as char == c);
    }
}

/// Decoding the units of a text followed by `tail` gives the text followed
/// by the decoding of `tail`.
pub proof fn lemma_decode_units(s: Seq<char>, tail: Seq<u16>)
    ensures
        decode_utf16_lossy(utf16_units(s) + tail) == s + decode_utf16_lossy(tail),
    decreases s.len(),
{
    if s.len() == 0 {
        assert(utf16_units(s) + tail =~= tail);
        assert(s + decode_utf16_lossy(tail) =~= decode_utf16_lossy(tail));
    } else {
        let front = s.drop_last();
        let last_units = utf16_units_of(s.last());
        lemma_decode_units(front, last_units + tail);
        lemma_decode_one(s.last(), tail);
        assert(utf16_units(s) + tail =~= utf16_units(front) + (last_units + tail));
        assert(front + (seq![s.last()] + decode_utf16_lossy(tail)) =~= s + decode_utf16_lossy(
            tail,
        ));
    }
}

/// Round trip: a text that does not end in NUL, encoded as a native wide
/// string and decoded again, is the text itself. This holds for every
/// character, those that take a surrogate pair too.
pub proof fn lemma_wide_round_trip(s: Seq<char>)
    requires
        has_no_trailing_nul(s),
    ensures
        decode_wide(encode_wide(s)) == s,
{
    let terminator = seq![0u16];
    assert(encode_wide(s) =~= utf16_units(s) + terminator);
    lemma_decode_units(s, terminator);
    lemma_decode_one(NUL, Seq::empty());
    assert(utf16_units_of(NUL) + Seq::<u16>::empty() =~= terminator);
    assert(decode_utf16_lossy(terminator) =~= seq![NUL]);
    let decoded = s + seq![NUL];
    assert(decoded.drop_last() =~= s);
    assert(strip_trailing_nuls(s) == s);
}

/// A text that ends in NUL does not survive the round trip unchanged: the
/// decoder takes its own NULs for padding and removes them with the
/// terminator.
pub proof fn lemma_wide_round_trip_strips(s: Seq<char>)
    ensures
        decode_wide(encode_wide(s)) == strip_trailing_nuls(s),
{
    let terminator = seq![0u16];
    assert(encode_wide(s) =~= utf16_units(s) + terminator);
    lemma_decode_units(s, terminator);
    lemma_decode_one(NUL, Seq::empty());
    assert(utf16_units_of(NUL) + Seq::<u16>::empty() =~= terminator);
    assert(decode_utf16_lossy(terminator) =~= seq![NUL]);
    let decoded = s + seq![NUL];
    assert(decoded.drop_last() =~= s);
}

} // verus!
