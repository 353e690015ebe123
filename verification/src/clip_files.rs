//! Files on the clipboard: the URI lists that file managers offer, and the
//! names by which a picture is recognised. Paths are those of Linux and macOS,
//! the systems that the program is for.

use vstd::prelude::*;
use vstd::slice::slice_subrange;
use vstd::string::*;
use vstd::utf8::*;

use crate::text;
use crate::text::{
    chars_of, chars_vec, has_prefix, lines_of, lowercase_of, same, string_of, trimmed,
};

verus! {

// ---- percent encoding ----

/// The value of a hexadecimal digit byte.
pub open spec fn hex_value(b: u8) -> Option<int> {
    if 0x30 <= b <= 0x39 {
        Some(b - 0x30)
    } else if 0x41 <= b <= 0x46 {
        Some(b - 0x41 + 10)
    } else if 0x61 <= b <= 0x66 {
        Some(b - 0x61 + 10)
    } else {
        None
    }
}

/// The byte that the two characters after a `%` denote: two hexadecimal
/// digits, or a plus sign and one.
pub open spec fn escaped_byte(x: u8, y: u8) -> Option<int> {
    match (hex_value(x), hex_value(y)) {
        (Some(high), Some(low)) => Some(16 * high + low),
        (None, Some(low)) => if x == 0x2B {
            Some(low)
        } else {
            None
        },
        _ => None,
    }
}

/// `b` with each escape replaced by its byte; a `%` that begins no escape
/// stands for itself.
pub open spec fn unescaped(b: Seq<u8>) -> Seq<u8>
    decreases b.len(),
{
    if b.len() == 0 {
        seq![]
    } else if b[0] == 0x25 && b.len() > 2 && escaped_byte(b[1], b[2]) is Some {
        seq![escaped_byte(b[1], b[2])->0 as u8] + unescaped(b.skip(3))
    } else {
        seq![b[0]] + unescaped(b.skip(1))
    }
}

/// The text that a percent-encoded text denotes, where its bytes are UTF-8.
pub open spec fn percent_text(s: Seq<char>) -> Option<Seq<char>> {
    let bytes = unescaped(encode_utf8(s));
    if valid_utf8(bytes) {
        Some(decode_utf8(bytes))
    } else {
        None
    }
}

fn hex_digit_value(b: u8) -> (r: Option<u8>)
    ensures
        r is Some <==> hex_value(b) is Some,
        r matches Some(n) ==> hex_value(b) == Some(n as int) && n < 16,
{
    if 0x30 <= b && b <= 0x39 {
        Some(b - 0x30)
    } else if 0x41 <= b && b <= 0x46 {
        Some(b - 0x41 + 10)
    } else if 0x61 <= b && b <= 0x66 {
        Some(b - 0x61 + 10)
    } else {
        None
    }
}

fn escape(x: u8, y: u8) -> (r: Option<u8>)
    ensures
        r is Some <==> escaped_byte(x, y) is Some,
        r matches Some(n) ==> escaped_byte(x, y) == Some(n as int),
{
    match (hex_digit_value(x), hex_digit_value(y)) {
        (Some(high), Some(low)) => Some(16 * high + low),
        (None, Some(low)) => if x == 0x2B {
            Some(low)
        } else {
            None
        },
        _ => None,
    }
}

/// Decodes percent escapes.
pub fn percent_decode(input: &str) -> (r: Option<String>)
    ensures
        r is Some <==> percent_text(input@) is Some,
        r matches Some(s) ==> percent_text(input@) == Some(s@),
{
    let bytes = input.as_bytes();
    let mut out: Vec<u8> = Vec::new();
    let mut index: usize = 0;
    assert(bytes@.skip(0) == bytes@);
    assert(out@ + unescaped(bytes@) == unescaped(bytes@));
    while index < bytes.len()
        invariant
            index <= bytes@.len(),
            out@ + unescaped(bytes@.skip(index as int)) == unescaped(bytes@),
        decreases bytes@.len() - index,
    {
        let ghost before = out@;
        let ghost rest = bytes@.skip(index as int);
        assert(rest[0] == bytes@[index as int]);
        let mut step: usize = 1;
        let mut byte: u8 = bytes[index];
        if byte == 0x25 && bytes.len() - index > 2 {
            assert(rest[1] == bytes@[index + 1] && rest[2] == bytes@[index + 2]);
            if let Some(value) = escape(bytes[index + 1], bytes[index + 2]) {
                byte = value;
                step = 3;
            }
        }
        out.push(byte);
        index = index + step;
        assert(rest.skip(step as int) == bytes@.skip(index as int));
        assert(unescaped(rest) == seq![byte] + unescaped(rest.skip(step as int)));
        assert(before + (seq![byte] + unescaped(rest.skip(step as int))) == out@ + unescaped(
            rest.skip(step as int),
        ));
    }
    assert(bytes@.skip(index as int) == Seq::<u8>::empty());
    assert(out@ == unescaped(bytes@));
    match String::from_utf8(out) {
        Ok(text) => Some(text),
        Err(_) => None,
    }
}

/// A text without a percent sign is decoded to itself.
pub proof fn text_without_escapes_decodes_to_itself(s: Seq<char>)
    requires
        forall|i: int| 0 <= i < encode_utf8(s).len() ==> encode_utf8(s)[i] != 0x25,
    ensures
        percent_text(s) == Some(s),
{
    lemma_unescaped_plain(encode_utf8(s));
    encode_utf8_valid_utf8(s);
    encode_utf8_decode_utf8(s);
}

proof fn lemma_unescaped_plain(b: Seq<u8>)
    requires
        forall|i: int| 0 <= i < b.len() ==> b[i] != 0x25,
    ensures
        unescaped(b) == b,
    decreases b.len(),
{
    if b.len() > 0 {
        assert forall|i: int| 0 <= i < b.skip(1).len() implies b.skip(1)[i] != 0x25 by {
            assert(b.skip(1)[i] == b[i + 1]);
        }
        lemma_unescaped_plain(b.skip(1));
        assert(b == seq![b[0]] + b.skip(1));
    }
}

// ---- file URIs ----

/// The absolute path that a `file://` URI names.
pub open spec fn uri_path(uri: Seq<char>) -> Option<Seq<char>> {
    let t = text::trim(uri);
    let scheme = "file://"@;
    if !text::starts_with(t, scheme) {
        None
    } else {
        match percent_text(t.skip(scheme.len() as int)) {
            Some(path) => if path.len() > 0 && path[0] == '/' {
                Some(path)
            } else {
                None
            },
            None => None,
        }
    }
}

fn path_of_uri(uri: &[char]) -> (r: Option<String>)
    ensures
        r is Some <==> uri_path(uri@) is Some,
        r matches Some(p) ==> uri_path(uri@) == Some(p@),
{
    let t = trimmed(uri);
    let scheme = chars_of("file://");
    if !has_prefix(t, scheme.as_slice()) {
        return None;
    }
    let rest = slice_subrange(t, scheme.len(), t.len());
    assert(rest@ == t@.skip(scheme@.len() as int));
    let encoded = string_of(rest);
    match percent_decode(encoded.as_str()) {
        Some(path) => {
            let chars = chars_of(path.as_str());
            if chars.len() > 0 && chars[0] == '/' {
                Some(path)
            } else {
                None
            }
        },
        None => None,
    }
}

/// The absolute path that a `file://` URI names, if it names one.
pub fn file_uri_to_path(uri: &str) -> (r: Option<String>)
    ensures
        r is Some <==> uri_path(uri@) is Some,
        r matches Some(p) ==> uri_path(uri@) == Some(p@),
{
    let chars = chars_of(uri);
    path_of_uri(chars.as_slice())
}

/// The paths that those of `lines` name that are file URIs, in order.
pub open spec fn paths_in(lines: Seq<Seq<char>>) -> Seq<Seq<char>>
    decreases lines.len(),
{
    if lines.len() == 0 {
        seq![]
    } else {
        let rest = paths_in(lines.drop_last());
        match uri_path(lines.last()) {
            Some(path) => rest.push(path),
            None => rest,
        }
    }
}

/// The paths of a URI list, one URI to a line. Blank lines and comments name
/// no path.
pub open spec fn uri_list_paths(raw: Seq<char>) -> Seq<Seq<char>> {
    paths_in(text::lines(raw))
}

/// Collects the paths that lines name.
fn collect_paths(lines: &Vec<Vec<char>>, from: usize) -> (r: Vec<String>)
    requires
        from <= lines@.len(),
    ensures
        text::strings(r@) == paths_in(text::texts(lines@).skip(from as int)),
{
    let mut out: Vec<String> = Vec::new();
    let mut i: usize = from;
    let ghost all = text::texts(lines@).skip(from as int);
    assert(all.take(0) == Seq::<Seq<char>>::empty());
    assert(text::strings(out@) == paths_in(all.take(0)));
    while i < lines.len()
        invariant
            from <= i <= lines@.len(),
            all == text::texts(lines@).skip(from as int),
            text::strings(out@) == paths_in(all.take(i - from)),
        decreases lines@.len() - i,
    {
        let ghost before = out@;
        let ghost n = i - from;
        assert(all.take(n + 1).drop_last() == all.take(n));
        assert(all.take(n + 1).last() == lines@[i as int]@);
        if let Some(path) = path_of_uri(lines[i].as_slice()) {
            out.push(path);
            assert(text::strings(out@) == text::strings(before).push(path@));
        }
        i = i + 1;
    }
    assert(all.take(i - from) == all);
    out
}

/// The paths that a `text/uri-list` payload names.
pub fn parse_uri_list(raw: &str) -> (r: Vec<String>)
    ensures
        text::strings(r@) == uri_list_paths(raw@),
{
    let chars = chars_of(raw);
    let list = lines_of(chars.as_slice());
    assert(text::texts(list@).skip(0) == text::texts(list@));
    collect_paths(&list, 0)
}

/// The lines of `lines` that are not blank, without the white space round
/// them.
pub open spec fn filled(lines: Seq<Seq<char>>) -> Seq<Seq<char>>
    decreases lines.len(),
{
    if lines.len() == 0 {
        seq![]
    } else {
        let rest = filled(lines.drop_last());
        if text::trim(lines.last()).len() > 0 {
            rest.push(text::trim(lines.last()))
        } else {
            rest
        }
    }
}

/// The paths of a GNOME file payload: an action line, `copy` or `cut`, and
/// then one URI to a line.
pub open spec fn gnome_paths(raw: Seq<char>) -> Seq<Seq<char>> {
    let list = filled(text::lines(raw));
    if list.len() == 0 || (list[0] != "copy"@ && list[0] != "cut"@) {
        seq![]
    } else {
        paths_in(list.skip(1))
    }
}

/// The paths that an `x-special/gnome-copied-files` payload names.
pub fn parse_gnome_copied_files(raw: &str) -> (r: Vec<String>)
    ensures
        text::strings(r@) == gnome_paths(raw@),
{
    let chars = chars_of(raw);
    let all = lines_of(chars.as_slice());
    let mut list: Vec<Vec<char>> = Vec::new();
    let mut i: usize = 0;
    assert(text::texts(all@).take(0) == Seq::<Seq<char>>::empty());
    assert(text::texts(list@) == filled(text::texts(all@).take(0)));
    while i < all.len()
        invariant
            i <= all@.len(),
            text::texts(list@) == filled(text::texts(all@).take(i as int)),
        decreases all@.len() - i,
    {
        let ghost before = list@;
        assert(text::texts(all@).take(i + 1).drop_last() == text::texts(all@).take(i as int));
        assert(text::texts(all@).take(i + 1).last() == all@[i as int]@);
        let line = trimmed(all[i].as_slice());
        if line.len() > 0 {
            list.push(chars_vec(line));
            assert(text::texts(list@) == text::texts(before).push(line@));
        }
        i = i + 1;
    }
    assert(text::texts(all@).take(i as int) == text::texts(all@));
    if list.len() == 0 {
        let none: Vec<String> = Vec::new();
        assert(text::strings(none@) =~= gnome_paths(raw@));
        return none;
    }
    assert(list@[0]@ == text::texts(list@)[0]);
    let copy = chars_of("copy");
    let cut = chars_of("cut");
    if !same(list[0].as_slice(), copy.as_slice()) && !same(list[0].as_slice(), cut.as_slice()) {
        let none: Vec<String> = Vec::new();
        assert(text::strings(none@) =~= gnome_paths(raw@));
        return none;
    }
    collect_paths(&list, 1)
}

// ---- file names ----

/// The position after the last `c` in `s`, or 0 where there is none.
pub open spec fn after_last(s: Seq<char>, c: char) -> nat
    decreases s.len(),
{
    if s.len() == 0 {
        0
    } else if s.last() == c {
        s.len()
    } else {
        after_last(s.drop_last(), c)
    }
}

fn position_after_last(s: &[char], c: char) -> (r: usize)
    ensures
        r == after_last(s@, c),
        r <= s@.len(),
{
    let mut n: usize = s.len();
    assert(s@.take(n as int) == s@);
    while n > 0 && s[n - 1] != c
        invariant
            n <= s@.len(),
            after_last(s@.take(n as int), c) == after_last(s@, c),
        decreases n,
    {
        assert(s@.take(n as int).drop_last() == s@.take(n - 1));
        n = n - 1;
    }
    assert(n > 0 ==> s@.take(n as int).last() == c);
    n
}

/// The last component of a path: what follows the last slash, after trailing
/// slashes and `.` components are dropped. A path that ends in `..`, and one
/// without any component, has none.
pub open spec fn file_name(path: Seq<char>) -> Option<Seq<char>>
    decreases path.len(),
{
    if path.len() == 0 {
        None
    } else if path.last() == '/' {
        file_name(path.drop_last())
    } else {
        let k = after_last(path, '/');
        let name = path.skip(k as int);
        if name == seq!['.'] {
            if k < path.len() {
                file_name(path.take(k as int))
            } else {
                None
            }
        } else if name == seq!['.', '.'] {
            None
        } else {
            Some(name)
        }
    }
}

fn last_component(path: &[char]) -> (r: Option<Vec<char>>)
    ensures
        r is Some <==> file_name(path@) is Some,
        r matches Some(n) ==> file_name(path@) == Some(n@),
    decreases path@.len(),
{
    let len: usize = path.len();
    if len == 0 {
        return None;
    }
    if path[len - 1] == '/' {
        let shorter = slice_subrange(path, 0, len - 1);
        assert(shorter@ == path@.drop_last());
        return last_component(shorter);
    }
    let k: usize = position_after_last(path, '/');
    let name = slice_subrange(path, k, len);
    assert(name@ == path@.skip(k as int));
    if name.len() == 1 && name[0] == '.' {
        assert(name@ =~= seq!['.']);
        let parent = slice_subrange(path, 0, k);
        assert(parent@ == path@.take(k as int));
        return last_component(parent);
    }
    if name.len() == 2 && name[0] == '.' && name[1] == '.' {
        assert(name@ =~= seq!['.', '.']);
        return None;
    }
    assert(name@ != seq!['.']) by {
        if name@ == seq!['.'] {
            assert(name@.len() == 1 && name@[0] == '.');
        }
    }
    assert(name@ != seq!['.', '.']) by {
        if name@ == seq!['.', '.'] {
            assert(name@.len() == 2 && name@[0] == '.' && name@[1] == '.');
        }
    }
    Some(chars_vec(name))
}

/// The last component of a path.
pub fn file_name_of(path: &str) -> (r: Option<String>)
    ensures
        r is Some <==> file_name(path@) is Some,
        r matches Some(name) ==> file_name(path@) == Some(name@),
{
    let chars = chars_of(path);
    match last_component(chars.as_slice()) {
        Some(name) => Some(string_of(name.as_slice())),
        None => None,
    }
}

/// The extension of a file name: what follows its last dot, unless that dot is
/// its first character.
pub open spec fn extension(path: Seq<char>) -> Option<Seq<char>> {
    match file_name(path) {
        Some(name) => if after_last(name, '.') >= 2 {
            Some(name.skip(after_last(name, '.') as int))
        } else {
            None
        },
        None => None,
    }
}

fn lower_extension(path: &[char]) -> (r: Option<Vec<char>>)
    ensures
        r is Some <==> extension(path@) is Some,
        r matches Some(e) ==> e@ == text::lowercase(extension(path@)->0),
{
    match last_component(path) {
        Some(name) => {
            let k: usize = position_after_last(name.as_slice(), '.');
            if k >= 2 {
                let ext = slice_subrange(name.as_slice(), k, name.len());
                assert(ext@ == name@.skip(k as int));
                Some(lowercase_of(ext))
            } else {
                None
            }
        },
        None => None,
    }
}

/// The extensions of the picture formats that are sent as pixels.
pub open spec fn is_image_extension(e: Seq<char>) -> bool {
    ||| e == "png"@
    ||| e == "jpg"@
    ||| e == "jpeg"@
    ||| e == "gif"@
    ||| e == "webp"@
    ||| e == "bmp"@
    ||| e == "tif"@
    ||| e == "tiff"@
}

pub open spec fn image_name(name: Seq<char>) -> bool {
    extension(name) is Some && is_image_extension(text::lowercase(extension(name)->0))
}

pub open spec fn png_name(name: Seq<char>) -> bool {
    extension(name) is Some && text::lowercase(extension(name)->0) == "png"@
}

fn is_text(chars: &Vec<char>, text: &str) -> (r: bool)
    ensures
        r == (chars@ == text@),
{
    let other = chars_of(text);
    same(chars.as_slice(), other.as_slice())
}

/// Whether a file name is that of a picture.
pub fn is_image_name(name: &str) -> (r: bool)
    ensures
        r == image_name(name@),
{
    let chars = chars_of(name);
    match lower_extension(chars.as_slice()) {
        Some(e) => is_text(&e, "png") || is_text(&e, "jpg") || is_text(&e, "jpeg") || is_text(
            &e,
            "gif",
        ) || is_text(&e, "webp") || is_text(&e, "bmp") || is_text(&e, "tif") || is_text(&e, "tiff"),
        None => false,
    }
}

/// Whether a file name is that of a PNG picture.
pub fn is_png_name(name: &str) -> (r: bool)
    ensures
        r == png_name(name@),
{
    let chars = chars_of(name);
    match lower_extension(chars.as_slice()) {
        Some(e) => is_text(&e, "png"),
        None => false,
    }
}

/// Whether the last component of a path is the name of a picture.
pub open spec fn image_path(path: Seq<char>) -> bool {
    file_name(path) is Some && image_name(file_name(path)->0)
}

/// Whether the last component of a path is the name of a picture.
pub fn is_image_path(path: &str) -> (r: bool)
    ensures
        r == image_path(path@),
{
    match file_name_of(path) {
        Some(name) => is_image_name(name.as_str()),
        None => false,
    }
}

/// A PNG name is a picture name.
pub proof fn png_names_are_image_names(name: Seq<char>)
    requires
        png_name(name),
    ensures
        image_name(name),
{
}

// ---- laws ----

/// The byte of a hexadecimal digit.
pub open spec fn digit_byte(n: int, capital: bool) -> u8 {
    if n < 10 {
        (0x30 + n) as u8
    } else if capital {
        (0x41 + n - 10) as u8
    } else {
        (0x61 + n - 10) as u8
    }
}

/// An escape stands for the byte that its two digits give, in capitals or not.
/// Every other byte stands for itself.
pub proof fn escapes_stand_for_their_bytes(v: u8, high: bool, low: bool, rest: Seq<u8>)
    ensures
        unescaped(
            seq![0x25u8, digit_byte(v as int / 16, high), digit_byte(v as int % 16, low)] + rest,
        ) == seq![v] + unescaped(rest),
        v != 0x25 ==> unescaped(seq![v] + rest) == seq![v] + unescaped(rest),
        unescaped(Seq::<u8>::empty()) == Seq::<u8>::empty(),
{
    let x = digit_byte(v as int / 16, high);
    let y = digit_byte(v as int % 16, low);
    let whole = seq![0x25u8, x, y] + rest;
    assert(hex_value(x) == Some(v as int / 16));
    assert(hex_value(y) == Some(v as int % 16));
    assert(16 * (v as int / 16) + v as int % 16 == v);
    assert(whole[0] == 0x25 && whole[1] == x && whole[2] == y);
    assert(whole.skip(3) =~= rest);
    let plain = seq![v] + rest;
    assert(plain[0] == v);
    assert(plain.skip(1) =~= rest);
}

/// A percent sign that no digit stands behind at two places' distance begins no
/// escape.
pub proof fn loose_percent_signs_stay(x: u8, y: u8, rest: Seq<u8>)
    requires
        !(0x30 <= y <= 0x39 || 0x41 <= y <= 0x46 || 0x61 <= y <= 0x66),
    ensures
        unescaped(seq![0x25u8, x, y] + rest) == seq![0x25u8] + unescaped(seq![x, y] + rest),
        unescaped(seq![0x25u8, x]) == seq![0x25u8] + unescaped(seq![x]),
        unescaped(seq![0x25u8]) == seq![0x25u8],
{
    let whole = seq![0x25u8, x, y] + rest;
    assert(whole[0] == 0x25 && whole[1] == x && whole[2] == y);
    assert(whole.skip(1) =~= seq![x, y] + rest);
    assert(seq![0x25u8, x].skip(1) =~= seq![x]);
    assert(seq![0x25u8].skip(1) =~= Seq::<u8>::empty());
    assert(unescaped(seq![0x25u8].skip(1)) =~= Seq::<u8>::empty());
    assert(unescaped(seq![0x25u8]) =~= seq![0x25u8]);
}

/// A file URI names the path that follows `file://`, whatever white space
/// stands round it, where that path is absolute. No other text names one.
pub proof fn file_uris_name_absolute_paths(
    before: Seq<char>,
    encoded: Seq<char>,
    after: Seq<char>,
    other: Seq<char>,
)
    requires
        text::blank(before),
        text::blank(after),
        encoded.len() > 0,
        !text::is_space(encoded.last()),
    ensures
        percent_text(encoded) matches Some(path) ==> path.len() > 0 && path[0] == '/' ==> uri_path(
            before + ("file://"@ + encoded) + after,
        ) == Some(path),
        uri_path(before + ("file://"@ + encoded) + after) matches Some(path) ==> path.len() > 0
            && path[0] == '/' && percent_text(encoded) == Some(path),
        uri_path(other) is Some ==> exists|a: Seq<char>, b: Seq<char>, e: Seq<char>|
            text::blank(a) && text::blank(b) && other == #[trigger] (a + ("file://"@ + e) + b),
{
    reveal_strlit("file://");
    let scheme = "file://"@;
    let t = scheme + encoded;
    assert(t[0] == 'f');
    assert(t.last() == encoded.last());
    text::outer_space_is_trimmed(before, t, after);
    text::beginnings_are_found(t, scheme, encoded);
    assert(t.skip(scheme.len() as int) =~= encoded);
    if uri_path(other) is Some {
        let m = text::trim(other);
        text::trimmed_text_stands_between_white_space(other);
        let (a, b) = choose|a: Seq<char>, b: Seq<char>|
            text::blank(a) && text::blank(b) && other == #[trigger] (a + m + b);
        text::beginnings_are_found(m, scheme, scheme);
        let e = m.skip(scheme.len() as int);
        assert(other == a + (scheme + e) + b);
    }
}

/// Lines name their paths one after the other: what some lines name is followed
/// by what the next ones name, and a line names at most one path.
pub proof fn paths_come_line_by_line(a: Seq<Seq<char>>, b: Seq<Seq<char>>, line: Seq<char>)
    ensures
        paths_in(a + b) == paths_in(a) + paths_in(b),
        uri_path(line) matches Some(path) ==> paths_in(seq![line]) == seq![path],
        uri_path(line) is None ==> paths_in(seq![line]) == Seq::<Seq<char>>::empty(),
    decreases b.len(),
{
    assert(seq![line].drop_last() =~= Seq::<Seq<char>>::empty());
    assert(paths_in(Seq::<Seq<char>>::empty()) =~= Seq::<Seq<char>>::empty());
    assert(seq![line].last() == line);
    if let Some(path) = uri_path(line) {
        assert(paths_in(seq![line]) =~= seq![path]);
    }
    if b.len() == 0 {
        assert(a + b =~= a);
        assert(paths_in(a) + paths_in(b) =~= paths_in(a));
    } else {
        assert((a + b).drop_last() =~= a + b.drop_last());
        assert((a + b).last() == b.last());
        paths_come_line_by_line(a, b.drop_last(), line);
        assert(paths_in(a + b) =~= paths_in(a) + paths_in(b));
    }
}

/// Each line of a URI list gives its path, if it names one, before those of the
/// lines that follow.
pub proof fn uri_lists_are_read_in_order(line: Seq<char>, rest: Seq<char>)
    requires
        text::lacks(line, '\n'),
        line.len() == 0 || line.last() != '\r',
    ensures
        uri_path(line) matches Some(path) ==> uri_list_paths(line + seq!['\n'] + rest) == seq![path]
            + uri_list_paths(rest) && uri_list_paths(line + seq!['\r', '\n'] + rest) == seq![path]
            + uri_list_paths(rest),
        uri_path(line) is None ==> uri_list_paths(line + seq!['\n'] + rest) == uri_list_paths(rest)
            && uri_list_paths(line + seq!['\r', '\n'] + rest) == uri_list_paths(rest),
        uri_path(line) matches Some(path) ==> line.len() > 0 ==> uri_list_paths(line) == seq![path],
{
    text::lines_end_with_line_feeds(line, rest);
    paths_come_line_by_line(seq![line], text::lines(rest), line);
    assert(Seq::<Seq<char>>::empty() + uri_list_paths(rest) =~= uri_list_paths(rest));
}

/// A line that begins with `#` is a comment, and an empty one names nothing.
pub proof fn comments_name_no_path(rest: Seq<char>)
    ensures
        uri_path(seq!['#'] + rest) is None,
        uri_path(Seq::<char>::empty()) is None,
{
    reveal_strlit("file://");
    let line = seq!['#'] + rest;
    text::trimmed_text_stands_between_white_space(line);
    let m = text::trim(line);
    let (a, b) = choose|a: Seq<char>, b: Seq<char>|
        text::blank(a) && text::blank(b) && line == #[trigger] (a + m + b);
    assert(line[0] == '#');
    if a.len() > 0 {
        assert(line[0] == a[0]);
    } else if m.len() > 0 {
        assert(line[0] == m[0]);
        if text::starts_with(m, "file://"@) {
            assert(m.take(7)[0] == 'f');
        }
    }
    assert(text::trim(Seq::<char>::empty()) =~= Seq::<char>::empty()) by {
        text::outer_space_is_trimmed(seq![], seq![], seq![]);
        assert(Seq::<char>::empty() + Seq::<char>::empty() + Seq::<char>::empty()
            =~= Seq::<char>::empty());
    }
}

proof fn lemma_filled_names_the_same(lines: Seq<Seq<char>>)
    ensures
        paths_in(filled(lines)) == paths_in(lines),
    decreases lines.len(),
{
    if lines.len() > 0 {
        let line = lines.last();
        let rest = filled(lines.drop_last());
        lemma_filled_names_the_same(lines.drop_last());
        text::trimmed_text_stands_between_white_space(line);
        if text::trim(line).len() > 0 {
            assert(rest.push(text::trim(line)).drop_last() =~= rest);
            assert(uri_path(text::trim(line)) == uri_path(line));
        } else {
            reveal_strlit("file://");
            assert(uri_path(line) is None);
        }
    }
}

proof fn lemma_filled_in_front(line: Seq<char>, rest: Seq<Seq<char>>)
    requires
        line.len() > 0,
        text::trim(line) == line,
    ensures
        filled(seq![line] + rest) == seq![line] + filled(rest),
    decreases rest.len(),
{
    let all = seq![line] + rest;
    if rest.len() == 0 {
        assert(all =~= seq![line]);
        assert(all.drop_last() =~= Seq::<Seq<char>>::empty());
        assert(filled(all.drop_last()) =~= Seq::<Seq<char>>::empty());
        assert(filled(all) =~= seq![line] + filled(rest));
    } else {
        assert(all.drop_last() =~= seq![line] + rest.drop_last());
        assert(all.last() == rest.last());
        lemma_filled_in_front(line, rest.drop_last());
        assert(filled(all) =~= seq![line] + filled(rest));
    }
}

/// A GNOME payload names what the URI list after its action line names, where
/// the action is to copy or to cut. With any other action it names nothing.
pub proof fn gnome_payloads_name_their_uri_list(action: Seq<char>, rest: Seq<char>)
    requires
        action.len() > 0,
        text::bare(action),
        text::lacks(action, '\n'),
    ensures
        action == "copy"@ || action == "cut"@ ==> gnome_paths(action + seq!['\n'] + rest)
            == uri_list_paths(rest),
        action != "copy"@ && action != "cut"@ ==> gnome_paths(action + seq!['\n'] + rest)
            == Seq::<Seq<char>>::empty(),
{
    text::printing_characters_are_no_space('\r');
    text::lines_end_with_line_feeds(action, rest);
    text::outer_space_is_trimmed(seq![], action, seq![]);
    assert(Seq::<char>::empty() + action + Seq::<char>::empty() =~= action);
    lemma_filled_in_front(action, text::lines(rest));
    lemma_filled_names_the_same(text::lines(rest));
    let list = filled(text::lines(action + seq!['\n'] + rest));
    assert(list[0] == action);
    assert(list.skip(1) =~= filled(text::lines(rest)));
}

proof fn lemma_after_last(before: Seq<char>, c: char, after: Seq<char>)
    requires
        text::lacks(after, c),
    ensures
        after_last(before + seq![c] + after, c) == before.len() + 1,
        after_last(after, c) == 0,
    decreases after.len(),
{
    let whole = before + seq![c] + after;
    if after.len() == 0 {
        assert(whole =~= before.push(c));
    } else {
        assert(after.last() != c);
        assert(whole.last() == after.last());
        assert(whole.drop_last() =~= before + seq![c] + after.drop_last());
        assert forall|i: int| 0 <= i < after.drop_last().len() implies #[trigger] after.drop_last()[i]
            != c by {
            assert(after.drop_last()[i] == after[i]);
        }
        lemma_after_last(before, c, after.drop_last());
    }
}

/// The last component of a path is what follows its last slash, with or without
/// a directory before it. A slash at the end does not matter, nor does a `.`
/// component there.
pub proof fn file_names_follow_the_last_slash(dir: Seq<char>, name: Seq<char>, path: Seq<char>)
    requires
        name.len() > 0,
        text::lacks(name, '/'),
        name != seq!['.'],
        name != seq!['.', '.'],
    ensures
        file_name(dir + seq!['/'] + name) == Some(name),
        file_name(name) == Some(name),
        file_name(path + seq!['/']) == file_name(path),
        file_name(path + seq!['/', '.']) == file_name(path),
        file_name(path + seq!['/', '.', '.']) is None,
{
    let whole = dir + seq!['/'] + name;
    lemma_after_last(dir, '/', name);
    assert(whole.last() == name.last());
    assert(whole.skip(dir.len() as int + 1) =~= name);
    assert(name.skip(0) =~= name);
    let slashed = path + seq!['/'];
    assert(slashed.drop_last() =~= path);
    let dotted = path + seq!['/', '.'];
    let up = path + seq!['/', '.', '.'];
    assert(text::lacks(seq!['.'], '/'));
    assert(text::lacks(seq!['.', '.'], '/'));
    lemma_after_last(path, '/', seq!['.']);
    lemma_after_last(path, '/', seq!['.', '.']);
    assert(dotted =~= path + seq!['/'] + seq!['.']);
    assert(up =~= path + seq!['/'] + seq!['.', '.']);
    assert(dotted.skip(path.len() as int + 1) =~= seq!['.']);
    assert(up.skip(path.len() as int + 1) =~= seq!['.', '.']);
    assert(seq!['.', '.'] != seq!['.']) by {
        assert(seq!['.', '.'].len() == 2 && seq!['.'].len() == 1);
    }
    assert(dotted.take(path.len() as int + 1) =~= slashed);
    assert(dotted.last() == '.');
    assert(up.last() == '.');
}

/// A name is that of a picture exactly where what follows its last dot is one of
/// the eight picture extensions, in capitals or not. A name that has no dot, or
/// one only at its start, is not.
pub proof fn picture_names_end_with_an_extension(stem: Seq<char>, ext: Seq<char>, dir: Seq<char>)
    requires
        stem.len() > 0,
        ext.len() > 0,
        text::lacks(stem, '/'),
        text::lacks(ext, '/'),
        text::lacks(ext, '.'),
    ensures
        ({
            let name = stem + seq!['.'] + ext;
            let lower = text::lowercase(ext);
            let known = seq![
                "png"@,
                "jpg"@,
                "jpeg"@,
                "gif"@,
                "webp"@,
                "bmp"@,
                "tif"@,
                "tiff"@,
            ];
            &&& image_name(name) <==> known.contains(lower)
            &&& png_name(name) <==> lower == "png"@
            &&& image_name(name) == image_name(stem + seq!['.'] + lower)
            &&& image_path(dir + seq!['/'] + name) == image_name(name)
        }),
        !image_name(ext),
        !image_name(seq!['.'] + ext),
{
    let name = stem + seq!['.'] + ext;
    let lower = text::lowercase(ext);
    let known = seq!["png"@, "jpg"@, "jpeg"@, "gif"@, "webp"@, "bmp"@, "tif"@, "tiff"@];
    lemma_extension(stem, ext, dir);
    assert forall|i: int| 0 <= i < lower.len() implies #[trigger] lower[i] != '/' && lower[i]
        != '.' by {
        text::lowercase_changes_capitals_only(ext, i);
    }
    lemma_extension(stem, lower, dir);
    text::lowercase_changes_capitals_only(ext, 0);
    assert(known.contains(lower) <==> is_image_extension(lower)) by {
        assert(known[0] == "png"@ && known[1] == "jpg"@ && known[2] == "jpeg"@ && known[3]
            == "gif"@ && known[4] == "webp"@ && known[5] == "bmp"@ && known[6] == "tif"@
            && known[7] == "tiff"@);
        if is_image_extension(lower) {
            let at: int = if lower == "png"@ {
                0
            } else if lower == "jpg"@ {
                1
            } else if lower == "jpeg"@ {
                2
            } else if lower == "gif"@ {
                3
            } else if lower == "webp"@ {
                4
            } else if lower == "bmp"@ {
                5
            } else if lower == "tif"@ {
                6
            } else {
                7
            };
            assert(known[at] == lower);
        }
    }
    assert(ext != seq!['.'] && ext != seq!['.', '.']) by {
        assert(ext[0] != '.');
    }
    lemma_after_last(seq![], '.', ext);
    lemma_after_last(seq![], '/', ext);
    assert(ext.skip(0) =~= ext);
    let hidden = seq!['.'] + ext;
    assert(Seq::<char>::empty() + seq!['.'] + ext =~= hidden);
    assert forall|i: int| 0 <= i < hidden.len() implies #[trigger] hidden[i] != '/' by {
        if i > 0 {
            assert(hidden[i] == ext[i - 1]);
        }
    }
    lemma_after_last(seq![], '/', hidden);
    assert(hidden.skip(0) =~= hidden);
    assert(hidden.last() == ext.last());
    assert(hidden[1] == ext[0]);
}

proof fn lemma_extension(stem: Seq<char>, ext: Seq<char>, dir: Seq<char>)
    requires
        stem.len() > 0,
        ext.len() > 0,
        text::lacks(stem, '/'),
        text::lacks(ext, '/'),
        text::lacks(ext, '.'),
    ensures
        ({
            let name = stem + seq!['.'] + ext;
            &&& extension(name) == Some(ext)
            &&& file_name(dir + seq!['/'] + name) == Some(name)
        }),
{
    let name = stem + seq!['.'] + ext;
    assert forall|i: int| 0 <= i < name.len() implies #[trigger] name[i] != '/' by {
        if i < stem.len() {
            assert(name[i] == stem[i]);
        } else if i > stem.len() {
            assert(name[i] == ext[i - stem.len() - 1]);
        }
    }
    assert(name.last() == ext.last());
    assert(ext.last() != '.');
    file_names_follow_the_last_slash(dir, name, dir);
    lemma_after_last(stem, '.', ext);
    assert(name.skip(stem.len() as int + 1) =~= ext);
}

/// A percent sign before a plus sign and one digit stands, with them, for the
/// value of that digit. Before anything else that is no digit it begins no
/// escape.
pub proof fn escapes_may_have_one_digit(n: int, capital: bool, x: u8, rest: Seq<u8>)
    requires
        0 <= n < 16,
        !(0x30 <= x <= 0x39 || 0x41 <= x <= 0x46 || 0x61 <= x <= 0x66),
    ensures
        x == 0x2B ==> unescaped(seq![0x25u8, x, digit_byte(n, capital)] + rest) == seq![n as u8]
            + unescaped(rest),
        x != 0x2B ==> unescaped(seq![0x25u8, x, digit_byte(n, capital)] + rest) == seq![0x25u8]
            + unescaped(seq![x, digit_byte(n, capital)] + rest),
{
    let y = digit_byte(n, capital);
    let whole = seq![0x25u8, x, y] + rest;
    assert(hex_value(y) == Some(n));
    assert(hex_value(x) is None);
    assert(whole[0] == 0x25 && whole[1] == x && whole[2] == y);
    assert(whole.skip(3) =~= rest);
    assert(whole.skip(1) =~= seq![x, y] + rest);
}

/// Where the bytes that an encoded text stands for are those of a text, it is
/// decoded to that text. Where they are no text at all, it is not decoded.
pub proof fn encoded_texts_are_decoded(s: Seq<char>, t: Seq<char>)
    ensures
        unescaped(encode_utf8(s)) == encode_utf8(t) ==> percent_text(s) == Some(t),
        !valid_utf8(unescaped(encode_utf8(s))) ==> percent_text(s) is None,
{
    encode_utf8_valid_utf8(t);
    encode_utf8_decode_utf8(t);
}

} // verus!
