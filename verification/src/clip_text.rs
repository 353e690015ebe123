//! Text as clipboards hand it over: UTF-8 or UTF-16, sometimes with trailing
//! zero characters.

use vstd::prelude::*;
use vstd::slice::slice_subrange;
use vstd::string::*;
use vstd::utf8::*;

use crate::bytes::copy_bytes;
use crate::text::{chars_of, string_of};

verus! {

/// `char::from_u32` gives the character of a Unicode scalar value, and
/// nothing for any other number.
pub assume_specification[ char::from_u32 ](i: u32) -> (r: Option<char>)
    ensures
        r is Some <==> is_scalar(i),
        r matches Some(c) ==> c as u32 == i,
;

/// `s` without its trailing zero characters.
pub open spec fn without_trailing_zeros(s: Seq<char>) -> Seq<char>
    decreases s.len(),
{
    if s.len() > 0 && s.last() == '\0' {
        without_trailing_zeros(s.drop_last())
    } else {
        s
    }
}

/// Drops trailing zero characters.
pub fn normalize_clipboard_text(text: &str) -> (r: String)
    ensures
        r@ == without_trailing_zeros(text@),
{
    let chars = chars_of(text);
    let mut n: usize = chars.len();
    assert(chars@.take(n as int) == chars@);
    while n > 0 && chars[n - 1] == '\0'
        invariant
            n <= chars@.len(),
            chars@ == text@,
            without_trailing_zeros(chars@.take(n as int)) == without_trailing_zeros(chars@),
        decreases n,
    {
        assert(chars@.take(n as int).drop_last() == chars@.take(n - 1));
        n = n - 1;
    }
    assert(chars@.subrange(0, n as int) == chars@.take(n as int));
    string_of(slice_subrange(chars.as_slice(), 0, n))
}

/// What normalizing gives has no trailing zero character, so normalizing it
/// again changes nothing.
pub proof fn normalizing_is_idempotent(s: Seq<char>)
    ensures
        without_trailing_zeros(s).len() > 0 ==> without_trailing_zeros(s).last() != '\0',
        without_trailing_zeros(without_trailing_zeros(s)) == without_trailing_zeros(s),
    decreases s.len(),
{
    if s.len() > 0 && s.last() == '\0' {
        normalizing_is_idempotent(s.drop_last());
    }
}

// ---- UTF-16 ----

/// The 16-bit units of little-endian bytes; a single last byte is left out.
pub open spec fn utf16_units(bytes: Seq<u8>) -> Seq<u16> {
    Seq::new(bytes.len() / 2, |i: int| (bytes[2 * i] + 256 * bytes[2 * i + 1]) as u16)
}

pub open spec fn is_high_surrogate(u: u16) -> bool {
    0xD800 <= u < 0xDC00
}

pub open spec fn is_low_surrogate(u: u16) -> bool {
    0xDC00 <= u < 0xE000
}

/// The character of a surrogate pair.
pub open spec fn pair_char(high: u16, low: u16) -> char {
    (0x10000 + (high - 0xD800) * 0x400 + (low - 0xDC00)) as u32 as char
}

/// The text that UTF-16 units denote; none where a surrogate is unpaired.
pub open spec fn utf16_text(units: Seq<u16>) -> Option<Seq<char>>
    decreases units.len(),
{
    if units.len() == 0 {
        Some(seq![])
    } else if !is_high_surrogate(units[0]) && !is_low_surrogate(units[0]) {
        match utf16_text(units.skip(1)) {
            Some(rest) => Some(seq![units[0] as u32 as char] + rest),
            None => None,
        }
    } else if is_high_surrogate(units[0]) && units.len() > 1 && is_low_surrogate(units[1]) {
        match utf16_text(units.skip(2)) {
            Some(rest) => Some(seq![pair_char(units[0], units[1])] + rest),
            None => None,
        }
    } else {
        None
    }
}

/// How the text of the units from `n` on continues what was read so far.
spec fn utf16_continues(units: Seq<u16>, n: int, done: Seq<char>) -> bool {
    match (utf16_text(units), utf16_text(units.skip(n))) {
        (Some(all), Some(rest)) => all == done + rest,
        (None, None) => true,
        _ => false,
    }
}

/// Reads little-endian UTF-16.
pub fn decode_utf16_le(bytes: &[u8]) -> (r: Option<String>)
    ensures
        r is Some <==> utf16_text(utf16_units(bytes@)) is Some,
        r matches Some(s) ==> utf16_text(utf16_units(bytes@)) == Some(s@),
{
    let ghost units = utf16_units(bytes@);
    let total: usize = bytes.len();
    let count: usize = total / 2;
    let mut out = String::new();
    let mut i: usize = 0;
    assert(units.skip(0) == units);
    proof {
        if let Some(all) = utf16_text(units) {
            assert(all == out@ + all);
        }
    }
    while i < count
        invariant
            i <= count,
            total == bytes@.len(),
            count == total / 2,
            units == utf16_units(bytes@),
            utf16_continues(units, i as int, out@),
        decreases count - i,
    {
        let ghost before = out@;
        let ghost rest = units.skip(i as int);
        let unit: u16 = bytes[2 * i] as u16 + 256 * (bytes[2 * i + 1] as u16);
        assert(unit == units[i as int]);
        assert(rest[0] == unit);
        if unit < 0xD800 || unit >= 0xE000 {
            match char::from_u32(unit as u32) {
                Some(c) => {
                    out.push(c);
                    proof {
                        char_u32_cast(c, unit as u32);
                    }
                    assert(out@ == before + seq![units[i as int] as u32 as char]);
                },
                None => {
                    return None;
                },
            }
            i = i + 1;
            assert(rest.skip(1) == units.skip(i as int));
            proof {
                if let (Some(all), Some(tail)) = (utf16_text(units), utf16_text(rest.skip(1))) {
                    assert(before + (seq![unit as u32 as char] + tail) == out@ + tail);
                }
            }
        } else {
            if unit >= 0xDC00 || i + 1 >= count {
                return None;
            }
            let next: u16 = bytes[2 * i + 2] as u16 + 256 * (bytes[2 * i + 3] as u16);
            assert(next == units[i + 1]);
            assert(rest[1] == next);
            if next < 0xDC00 || next >= 0xE000 {
                return None;
            }
            let code: u32 = 0x10000 + (unit as u32 - 0xD800) * 0x400 + (next as u32 - 0xDC00);
            match char::from_u32(code) {
                Some(c) => {
                    out.push(c);
                    proof {
                        char_u32_cast(c, code);
                    }
                    assert(out@ == before + seq![pair_char(unit, next)]);
                },
                None => {
                    return None;
                },
            }
            i = i + 2;
            assert(rest.skip(2) == units.skip(i as int));
            proof {
                if let (Some(all), Some(tail)) = (utf16_text(units), utf16_text(rest.skip(2))) {
                    assert(before + (seq![pair_char(unit, next)] + tail) == out@ + tail);
                }
            }
        }
    }
    assert(units.skip(i as int) == Seq::<u16>::empty());
    proof {
        if let Some(all) = utf16_text(units) {
            assert(out@ + Seq::<char>::empty() == out@);
        }
    }
    Some(out)
}

/// Whether bytes have the look of little-endian UTF-16 of plain Latin text:
/// the first eight units are below 256 and not zero.
pub open spec fn utf16_like(bytes: Seq<u8>) -> bool {
    &&& bytes.len() >= 4
    &&& bytes.len() % 2 == 0
    &&& forall|k: int|
        0 <= k < 8 && 2 * k + 1 < bytes.len() ==> #[trigger] bytes[2 * k + 1] == 0 && bytes[2 * k]
            != 0
}

/// Whether bytes look like little-endian UTF-16.
pub fn looks_like_utf16_le(bytes: &[u8]) -> (r: bool)
    ensures
        r == utf16_like(bytes@),
{
    if bytes.len() < 4 || bytes.len() % 2 != 0 {
        return false;
    }
    let mut k: usize = 0;
    while k < 8 && 2 * k + 1 < bytes.len()
        invariant
            k <= 8,
            bytes@.len() % 2 == 0,
            forall|j: int|
                0 <= j < k && 2 * j + 1 < bytes@.len() ==> #[trigger] bytes@[2 * j + 1] == 0
                    && bytes@[2 * j] != 0,
        decreases 8 - k,
    {
        if bytes[2 * k + 1] != 0 || bytes[2 * k] == 0 {
            assert(!(bytes@[2 * (k as int) + 1] == 0 && bytes@[2 * (k as int)] != 0));
            return false;
        }
        k = k + 1;
    }
    true
}

/// Whether bytes carry the little-endian UTF-16 mark and at least one unit.
pub open spec fn utf16_marked(bytes: Seq<u8>) -> bool {
    bytes.len() >= 4 && bytes.len() % 2 == 0 && bytes[0] == 0xFF && bytes[1] == 0xFE
}

/// The text that clipboard bytes denote: UTF-16 where they are marked as such
/// or look like it, and can be read so; UTF-8 otherwise.
pub open spec fn clipboard_text(bytes: Seq<u8>) -> Option<Seq<char>> {
    if bytes.len() == 0 {
        None
    } else if utf16_marked(bytes) && utf16_text(utf16_units(bytes.skip(2))) is Some {
        utf16_text(utf16_units(bytes.skip(2)))
    } else if utf16_like(bytes) && utf16_text(utf16_units(bytes)) is Some {
        utf16_text(utf16_units(bytes))
    } else if valid_utf8(bytes) {
        Some(decode_utf8(bytes))
    } else {
        None
    }
}

/// Reads clipboard bytes as text.
pub fn decode_clipboard_bytes(bytes: &[u8]) -> (r: Option<String>)
    ensures
        r is Some <==> clipboard_text(bytes@) is Some,
        r matches Some(s) ==> clipboard_text(bytes@) == Some(s@),
{
    if bytes.len() == 0 {
        return None;
    }
    if bytes.len() >= 4 && bytes.len() % 2 == 0 && bytes[0] == 0xFF && bytes[1] == 0xFE {
        let body = slice_subrange(bytes, 2, bytes.len());
        assert(body@ == bytes@.skip(2));
        if let Some(text) = decode_utf16_le(body) {
            return Some(text);
        }
    }
    if looks_like_utf16_le(bytes) {
        if let Some(text) = decode_utf16_le(bytes) {
            return Some(text);
        }
    }
    match String::from_utf8(copy_bytes(bytes)) {
        Ok(text) => Some(text),
        Err(_) => None,
    }
}

/// UTF-8 text is read back as it is, unless its bytes could be UTF-16.
pub proof fn utf8_text_is_read_back(s: Seq<char>)
    requires
        s.len() > 0,
        !utf16_like(encode_utf8(s)),
    ensures
        clipboard_text(encode_utf8(s)) == Some(s),
{
    utf8_carries_no_mark(encode_utf8(s), s);
    encode_utf8_valid_utf8(s);
    encode_utf8_decode_utf8(s);
    encode_utf8_first_scalar(s);
}

/// Whether a text is made of zero characters only.
pub open spec fn all_zeros(s: Seq<char>) -> bool {
    forall|i: int| 0 <= i < s.len() ==> #[trigger] s[i] == '\0'
}

/// Normalizing drops the zero characters at the end of a text, all of them and
/// nothing else: line feeds, and zero characters before another one, stay.
pub proof fn only_trailing_zeros_are_dropped(s: Seq<char>, zeros: Seq<char>)
    requires
        s.len() == 0 || s.last() != '\0',
        all_zeros(zeros),
    ensures
        without_trailing_zeros(s + zeros) == s,
    decreases zeros.len(),
{
    if zeros.len() == 0 {
        assert(s + zeros =~= s);
    } else {
        assert(zeros.last() == '\0');
        assert((s + zeros).drop_last() =~= s + zeros.drop_last());
        only_trailing_zeros_are_dropped(s, zeros.drop_last());
    }
}

/// The UTF-16 units of a character.
pub open spec fn units_of_char(c: char) -> Seq<u16> {
    if c as u32 <= 0xFFFF {
        seq![c as u32 as u16]
    } else {
        seq![
            (0xD800 + (c as u32 - 0x10000) / 0x400) as u16,
            (0xDC00 + (c as u32 - 0x10000) % 0x400) as u16,
        ]
    }
}

/// The UTF-16 units of a text.
pub open spec fn units_of(s: Seq<char>) -> Seq<u16>
    decreases s.len(),
{
    if s.len() == 0 {
        seq![]
    } else {
        units_of_char(s[0]) + units_of(s.drop_first())
    }
}

/// Units as little-endian bytes.
pub open spec fn unit_bytes(units: Seq<u16>) -> Seq<u8> {
    Seq::new(
        2 * units.len(),
        |i: int|
            if i % 2 == 0 {
                (units[i / 2] % 256) as u8
            } else {
                (units[i / 2] / 256) as u8
            },
    )
}

/// What UTF-16 units of a text denote is the text.
pub proof fn utf16_is_read_back(s: Seq<char>)
    ensures
        utf16_text(units_of(s)) == Some(s),
        utf16_units(unit_bytes(units_of(s))) == units_of(s),
    decreases s.len(),
{
    let units = units_of(s);
    let bytes = unit_bytes(units);
    assert(bytes.len() / 2 == units.len());
    assert forall|i: int| 0 <= i < units.len() implies utf16_units(bytes)[i] == units[i] by {
        assert((2 * i) / 2 == i && (2 * i + 1) / 2 == i && (2 * i) % 2 == 0 && (2 * i + 1) % 2
            == 1);
        assert(bytes[2 * i] == units[i] % 256);
        assert(bytes[2 * i + 1] == units[i] / 256);
    }
    assert(utf16_units(bytes) =~= units);
    if s.len() > 0 {
        let c = s[0];
        let rest = s.drop_first();
        utf16_is_read_back(rest);
        assert(seq![c] + rest =~= s);
        let code = c as u32;
        char_is_scalar(c);
        if code <= 0xFFFF {
            assert(units.skip(1) =~= units_of(rest));
            assert(units[0] as u32 == code);
            char_u32_cast(c, code);
        } else {
            let high = units[0];
            let low = units[1];
            assert(high == 0xD800 + (code - 0x10000) / 0x400);
            assert(low == 0xDC00 + (code - 0x10000) % 0x400);
            assert(is_high_surrogate(high) && is_low_surrogate(low));
            assert(units.skip(2) =~= units_of(rest));
            assert(0x10000 + (high - 0xD800) * 0x400 + (low - 0xDC00) == code);
            char_u32_cast(c, code);
            assert(pair_char(high, low) == c);
        }
    }
}

/// A text that is marked as little-endian UTF-16 is read back as it is, and so
/// is one that looks like it without the mark.
pub proof fn utf16_clipboard_text_is_read_back(s: Seq<char>)
    requires
        s.len() > 0,
    ensures
        clipboard_text(seq![0xFFu8, 0xFEu8] + unit_bytes(units_of(s))) == Some(s),
        utf16_like(unit_bytes(units_of(s))) ==> clipboard_text(unit_bytes(units_of(s))) == Some(s),
{
    utf16_is_read_back(s);
    assert(units_of_char(s[0]).len() > 0);
    assert(units_of(s).len() > 0);
    lemma_utf16_bytes_are_read(unit_bytes(units_of(s)), s);
}

proof fn lemma_utf16_bytes_are_read(bytes: Seq<u8>, s: Seq<char>)
    requires
        bytes.len() >= 2,
        bytes.len() % 2 == 0,
        utf16_text(utf16_units(bytes)) == Some(s),
    ensures
        clipboard_text(seq![0xFFu8, 0xFEu8] + bytes) == Some(s),
        utf16_like(bytes) ==> clipboard_text(bytes) == Some(s),
{
    let marked = seq![0xFFu8, 0xFEu8] + bytes;
    assert(marked.skip(2) =~= bytes);
    assert(marked[0] == 0xFF && marked[1] == 0xFE);
    if utf16_like(bytes) {
        assert(bytes[2 * 0int + 1] == 0);
        assert(!utf16_marked(bytes));
    }
}

/// Latin text of at least two characters looks like UTF-16 where it is UTF-16.
/// Bytes without a zero never do.
pub proof fn latin_units_look_like_utf16(s: Seq<char>, bytes: Seq<u8>)
    requires
        s.len() >= 2,
        forall|i: int| 0 <= i < s.len() ==> 0 < #[trigger] s[i] as u32 <= 0xFF,
        forall|i: int| 0 <= i < bytes.len() ==> #[trigger] bytes[i] != 0,
    ensures
        utf16_like(unit_bytes(units_of(s))),
        !utf16_like(bytes),
{
    lemma_latin_units(s);
    let out = unit_bytes(units_of(s));
    assert forall|k: int| 0 <= k < 8 && 2 * k + 1 < out.len() implies #[trigger] out[2 * k + 1]
        == 0 && out[2 * k] != 0 by {
        assert((2 * k) / 2 == k && (2 * k + 1) / 2 == k);
        assert(units_of(s)[k] == s[k] as u32);
    }
    if utf16_like(bytes) {
        assert(bytes[2 * 0int + 1] == 0);
    }
}

proof fn lemma_latin_units(s: Seq<char>)
    requires
        forall|i: int| 0 <= i < s.len() ==> 0 < #[trigger] s[i] as u32 <= 0xFF,
    ensures
        units_of(s).len() == s.len(),
        forall|i: int| 0 <= i < s.len() ==> #[trigger] units_of(s)[i] == s[i] as u32,
    decreases s.len(),
{
    if s.len() > 0 {
        let rest = s.drop_first();
        assert forall|i: int| 0 <= i < rest.len() implies 0 < #[trigger] rest[i] as u32 <= 0xFF by {
            assert(rest[i] == s[i + 1]);
        }
        lemma_latin_units(rest);
        assert forall|i: int| 0 <= i < s.len() implies #[trigger] units_of(s)[i] == s[i] as u32 by {
            if i > 0 {
                assert(units_of(s)[i] == units_of(rest)[i - 1]);
            }
        }
    }
}

/// Bytes look like UTF-16 exactly where there are at least two units, and in each
/// of the first eight the high byte is zero and the low byte is not. What comes
/// after the first eight does not matter.
pub proof fn eight_units_tell_utf16(bytes: Seq<u8>, k: int)
    ensures
        utf16_like(bytes) ==> bytes.len() >= 4 && bytes.len() % 2 == 0,
        utf16_like(bytes) && 0 <= k < 8 && 2 * k + 1 < bytes.len() ==> bytes[2 * k + 1] == 0
            && bytes[2 * k] != 0,
        bytes.len() >= 4 && bytes.len() % 2 == 0 && (forall|j: int|
            0 <= j < 8 && 2 * j + 1 < bytes.len() ==> #[trigger] bytes[2 * j + 1] == 0 && bytes[2
                * j] != 0) ==> utf16_like(bytes),
{
}

/// Bytes that neither carry the mark nor look like UTF-16 are read as UTF-8 or not
/// at all, and so are bytes that cannot be read as UTF-16. Nothing is no text.
pub proof fn other_bytes_are_utf8(bytes: Seq<u8>)
    ensures
        bytes.len() == 0 ==> clipboard_text(bytes) is None,
        !utf16_marked(bytes) && !utf16_like(bytes) && !valid_utf8(bytes) ==> clipboard_text(bytes)
            is None,
        bytes.len() > 0 && valid_utf8(bytes) ==> clipboard_text(bytes) is Some,
        bytes.len() > 0 && valid_utf8(bytes) && utf16_text(utf16_units(bytes)) is None && !(
        bytes[0] == 0xFF) ==> clipboard_text(bytes) == Some(decode_utf8(bytes)),
{
}

/// A surrogate without its other half is no text.
pub proof fn lone_surrogates_are_no_text(u: u16, v: u16, rest: Seq<u16>)
    requires
        0xD800 <= u < 0xE000,
    ensures
        0xDC00 <= u ==> utf16_text(seq![u] + rest) is None,
        utf16_text(seq![u]) is None,
        !(0xDC00 <= v < 0xE000) ==> utf16_text(seq![u, v] + rest) is None,
{
    assert((seq![u] + rest)[0] == u);
    assert((seq![u, v] + rest)[0] == u && (seq![u, v] + rest)[1] == v);
}

/// The mark of UTF-16 is the two bytes 255 and 254, before at least one unit. No
/// text in UTF-8 starts so.
pub proof fn utf8_carries_no_mark(bytes: Seq<u8>, s: Seq<char>)
    ensures
        utf16_marked(bytes) <==> bytes.len() >= 4 && bytes.len() % 2 == 0 && bytes[0] == 255
            && bytes[1] == 254,
        !utf16_marked(encode_utf8(s)),
{
    if s.len() > 0 {
        encode_utf8_first_scalar(s);
    }
}

proof fn lemma_scalar_has_no_zero_byte(v: u32)
    requires
        is_scalar(v),
        v > 0,
    ensures
        forall|i: int| 0 <= i < encode_scalar(v).len() ==> #[trigger] encode_scalar(v)[i] != 0,
{
    if has_width_1_encoding(v) {
        assert(0 < v <= 0x7F ==> (v & 0x7F) == v) by (bit_vector);
    }
    let a = ((v >> 6) & 0x1F) as u8;
    let b = ((v >> 12) & 0x0F) as u8;
    let c = ((v >> 18) & 0x7) as u8;
    let d = (v & 0x3F) as u8;
    let e = ((v >> 6) & 0x3F) as u8;
    let f = ((v >> 12) & 0x3F) as u8;
    assert(0xC0u8 | a != 0) by (bit_vector);
    assert(0xE0u8 | b != 0) by (bit_vector);
    assert(0xF0u8 | c != 0) by (bit_vector);
    assert(0x80u8 | d != 0) by (bit_vector);
    assert(0x80u8 | e != 0) by (bit_vector);
    assert(0x80u8 | f != 0) by (bit_vector);
}

proof fn lemma_utf8_has_no_zero_byte(s: Seq<char>)
    requires
        forall|i: int| 0 <= i < s.len() ==> #[trigger] s[i] != '\0',
    ensures
        forall|i: int| 0 <= i < encode_utf8(s).len() ==> #[trigger] encode_utf8(s)[i] != 0,
    decreases s.len(),
{
    if s.len() > 0 {
        let rest = s.drop_first();
        assert forall|i: int| 0 <= i < rest.len() implies #[trigger] rest[i] != '\0' by {
            assert(rest[i] == s[i + 1]);
        }
        lemma_utf8_has_no_zero_byte(rest);
        char_is_scalar(s[0]);
        let first = encode_scalar(s[0] as u32);
        if s[0] as u32 == 0 {
            char_u32_cast(s[0], 0u32);
            assert(0u32 as char == '\0');
        }
        lemma_scalar_has_no_zero_byte(s[0] as u32);
        assert forall|i: int| 0 <= i < encode_utf8(s).len() implies #[trigger] encode_utf8(s)[i]
            != 0 by {
            if i < first.len() {
                assert(encode_utf8(s)[i] == first[i]);
            } else {
                assert(encode_utf8(s)[i] == encode_utf8(rest)[i - first.len()]);
            }
        }
    }
}

/// Text in UTF-8 without a zero character is never taken for UTF-16, and is read
/// back as it is.
pub proof fn plain_text_is_read_back(s: Seq<char>)
    requires
        s.len() > 0,
        forall|i: int| 0 <= i < s.len() ==> #[trigger] s[i] != '\0',
    ensures
        !utf16_like(encode_utf8(s)),
        clipboard_text(encode_utf8(s)) == Some(s),
{
    lemma_utf8_has_no_zero_byte(s);
    if utf16_like(encode_utf8(s)) {
        assert(encode_utf8(s)[2 * 0int + 1] == 0);
    }
    utf8_text_is_read_back(s);
}

} // verus!
