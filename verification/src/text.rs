//! Text primitives: the Unicode and ASCII classes, trimming, line and word
//! splitting, decimal numbers and lexicographic order that the other modules
//! build on. Text is specified as a sequence of `char`.

use vstd::prelude::*;
use vstd::slice::slice_subrange;
use vstd::string::*;
use vstd::utf8::*;

verus! {

/// `String::push` appends one character.
pub assume_specification[ String::push ](s: &mut String, c: char)
    ensures
        final(s)@ == old(s)@.push(c),
;

/// The error of `String::from_utf8`.
#[verifier::external_type_specification]
#[verifier::external_body]
pub struct ExFromUtf8Error(std::string::FromUtf8Error);

/// `String::from_utf8` takes the bytes over as text when they are valid
/// UTF-8, and fails otherwise.
pub assume_specification[ String::from_utf8 ](vec: Vec<u8>) -> (r: Result<
    String,
    std::string::FromUtf8Error,
>)
    ensures
        r is Ok <==> valid_utf8(vec@),
        r matches Ok(s) ==> s@ == decode_utf8(vec@),
;

/// White space in the sense of the Unicode `White_Space` property.
pub open spec fn is_space(c: char) -> bool {
    let n = c as u32;
    ||| 9 <= n <= 13
    ||| n == 0x20 || n == 0x85 || n == 0xA0 || n == 0x1680
    ||| 0x2000 <= n <= 0x200A
    ||| n == 0x2028 || n == 0x2029 || n == 0x202F || n == 0x205F || n == 0x3000
}

/// Whether `c` is Unicode white space.
pub fn space(c: char) -> (r: bool)
    ensures
        r == is_space(c),
{
    let n: u32 = c as u32;
    (9 <= n && n <= 13) || n == 0x20 || n == 0x85 || n == 0xA0 || n == 0x1680
        || (0x2000 <= n && n <= 0x200A) || n == 0x2028 || n == 0x2029 || n == 0x202F || n == 0x205F
        || n == 0x3000
}

/// Control codes: the Unicode general category `Cc`.
pub open spec fn is_control(c: char) -> bool {
    let n = c as u32;
    n < 0x20 || 0x7F <= n < 0xA0
}

/// Whether `c` is a control code.
pub fn control(c: char) -> (r: bool)
    ensures
        r == is_control(c),
{
    let n: u32 = c as u32;
    n < 0x20 || (0x7F <= n && n < 0xA0)
}

pub open spec fn is_digit(c: char) -> bool {
    '0' <= c <= '9'
}

/// The lower-case form of an ASCII letter; every other character is kept.
pub open spec fn lower(c: char) -> char {
    if 'A' <= c <= 'Z' {
        ((c as u32) + 32) as char
    } else {
        c
    }
}

pub open spec fn lowercase(s: Seq<char>) -> Seq<char> {
    s.map_values(|c: char| lower(c))
}

/// The characters of `s`.
pub fn chars_of(s: &str) -> (r: Vec<char>)
    ensures
        r@ == s@,
{
    let mut out: Vec<char> = Vec::new();
    for c in it: s.chars()
        invariant
            it.seq() == s@,
            out@ == it.seq().take(it.index() as int),
    {
        out.push(c);
    }
    assert(s@.take(s@.len() as int) == s@);
    out
}

/// The text made of the characters `chars`.
pub fn string_of(chars: &[char]) -> (r: String)
    ensures
        r@ == chars@,
{
    let mut out: String = String::new();
    let mut i: usize = 0;
    while i < chars.len()
        invariant
            i <= chars@.len(),
            out@ == chars@.take(i as int),
        decreases chars@.len() - i,
    {
        out.push(chars[i]);
        i = i + 1;
        assert(chars@.take(i as int) == chars@.take(i - 1).push(chars@[i - 1]));
    }
    assert(chars@.take(i as int) == chars@);
    out
}

/// The lower-case form of one character.
pub fn lower_char(c: char) -> (r: char)
    ensures
        r == lower(c),
{
    if 'A' <= c && c <= 'Z' {
        (c as u8 + 32) as char
    } else {
        c
    }
}

/// ASCII lower-casing of a text.
pub fn lowercase_of(s: &[char]) -> (r: Vec<char>)
    ensures
        r@ == lowercase(s@),
{
    let mut out: Vec<char> = Vec::new();
    let mut i: usize = 0;
    while i < s.len()
        invariant
            i <= s@.len(),
            out@ == lowercase(s@.take(i as int)),
        decreases s@.len() - i,
    {
        out.push(lower_char(s[i]));
        i = i + 1;
        assert(s@.take(i as int) == s@.take(i - 1).push(s@[i - 1]));
    }
    assert(s@.take(i as int) == s@);
    out
}

/// Whether two character slices hold the same text.
pub fn same(a: &[char], b: &[char]) -> (r: bool)
    ensures
        r == (a@ == b@),
{
    if a.len() != b.len() {
        return false;
    }
    let mut i: usize = 0;
    while i < a.len()
        invariant
            i <= a@.len(),
            a@.len() == b@.len(),
            forall|j: int| 0 <= j < i ==> a@[j] == b@[j],
        decreases a@.len() - i,
    {
        if a[i] != b[i] {
            return false;
        }
        i = i + 1;
    }
    assert(a@ =~= b@);
    true
}

/// Whether two texts are equal.
pub fn same_text(a: &str, b: &str) -> (r: bool)
    ensures
        r == (a@ == b@),
{
    let left = chars_of(a);
    let right = chars_of(b);
    same(left.as_slice(), right.as_slice())
}

// ---- trimming ----

pub open spec fn trim_start(s: Seq<char>) -> Seq<char>
    decreases s.len(),
{
    if s.len() > 0 && is_space(s[0]) {
        trim_start(s.drop_first())
    } else {
        s
    }
}

pub open spec fn trim_end(s: Seq<char>) -> Seq<char>
    decreases s.len(),
{
    if s.len() > 0 && is_space(s.last()) {
        trim_end(s.drop_last())
    } else {
        s
    }
}

/// A text without its leading and trailing white space.
pub open spec fn trim(s: Seq<char>) -> Seq<char> {
    trim_end(trim_start(s))
}

/// Drops the leading white space.
pub fn trimmed_start(s: &[char]) -> (r: &[char])
    ensures
        r@ == trim_start(s@),
{
    let mut i: usize = 0;
    proof {
        assert(s@.skip(0) == s@);
    }
    while i < s.len() && space(s[i])
        invariant
            i <= s@.len(),
            trim_start(s@.skip(i as int)) == trim_start(s@),
        decreases s@.len() - i,
    {
        proof {
            assert(s@.skip(i as int).drop_first() == s@.skip(i + 1));
        }
        i = i + 1;
    }
    assert(s@.subrange(i as int, s@.len() as int) == s@.skip(i as int));
    slice_subrange(s, i, s.len())
}

/// Drops the trailing white space.
pub fn trimmed_end(s: &[char]) -> (r: &[char])
    ensures
        r@ == trim_end(s@),
{
    let mut n: usize = s.len();
    proof {
        assert(s@.take(n as int) == s@);
    }
    while n > 0 && space(s[n - 1])
        invariant
            n <= s@.len(),
            trim_end(s@.take(n as int)) == trim_end(s@),
        decreases n,
    {
        proof {
            assert(s@.take(n as int).drop_last() == s@.take(n - 1));
        }
        n = n - 1;
    }
    assert(s@.subrange(0, n as int) == s@.take(n as int));
    slice_subrange(s, 0, n)
}

/// Drops white space at both ends.
pub fn trimmed(s: &[char]) -> (r: &[char])
    ensures
        r@ == trim(s@),
{
    trimmed_end(trimmed_start(s))
}

// ---- searching and splitting ----

/// The position of the first `c` in `s`, or the length of `s` where there is
/// none.
pub open spec fn find(s: Seq<char>, c: char) -> nat
    decreases s.len(),
{
    if s.len() == 0 || s[0] == c {
        0
    } else {
        1 + find(s.drop_first(), c)
    }
}

pub proof fn lemma_find(s: Seq<char>, c: char)
    ensures
        0 <= find(s, c) <= s.len(),
        forall|j: int| 0 <= j < find(s, c) ==> s[j] != c,
        find(s, c) < s.len() ==> s[find(s, c) as int] == c,
    decreases s.len(),
{
    if s.len() > 0 && s[0] != c {
        lemma_find(s.drop_first(), c);
        assert forall|j: int| 0 <= j < find(s, c) implies s[j] != c by {
            if j > 0 {
                assert(s[j] == s.drop_first()[j - 1]);
            }
        }
    }
}

proof fn lemma_find_at(s: Seq<char>, c: char, i: int)
    requires
        0 <= i <= s.len(),
        forall|j: int| 0 <= j < i ==> s[j] != c,
        i < s.len() ==> s[i] == c,
    ensures
        find(s, c) == i,
{
    lemma_find(s, c);
    let f = find(s, c) as int;
    if f < i {
        assert(s[f] == c);
    }
}

/// Looks for the first `c`.
pub fn find_char(s: &[char], c: char) -> (r: usize)
    ensures
        r == find(s@, c),
        r <= s@.len(),
{
    let mut i: usize = 0;
    while i < s.len() && s[i] != c
        invariant
            i <= s@.len(),
            forall|j: int| 0 <= j < i ==> s@[j] != c,
        decreases s@.len() - i,
    {
        i = i + 1;
    }
    proof {
        lemma_find_at(s@, c, i as int);
    }
    i
}

pub open spec fn contains_char(s: Seq<char>, c: char) -> bool {
    find(s, c) < s.len()
}

/// Whether `part` stands somewhere in `s`.
pub open spec fn contains(s: Seq<char>, part: Seq<char>) -> bool {
    exists|i: int| 0 <= i && i + part.len() <= s.len() && #[trigger] s.skip(i).take(part.len() as int) == part
}

pub open spec fn starts_with(s: Seq<char>, prefix: Seq<char>) -> bool {
    prefix.len() <= s.len() && s.take(prefix.len() as int) == prefix
}

/// Whether `s` begins with `prefix`.
pub fn has_prefix(s: &[char], prefix: &[char]) -> (r: bool)
    ensures
        r == starts_with(s@, prefix@),
{
    if s.len() < prefix.len() {
        return false;
    }
    assert(s@.subrange(0, prefix@.len() as int) == s@.take(prefix@.len() as int));
    same(slice_subrange(s, 0, prefix.len()), prefix)
}

/// Whether the text `part` stands in `s`.
pub fn has_part(s: &[char], part: &[char]) -> (r: bool)
    ensures
        r == contains(s@, part@),
{
    if s.len() < part.len() {
        return false;
    }
    let total: usize = s.len();
    let last: usize = total - part.len();
    let mut i: usize = 0;
    loop
        invariant
            total == s@.len(),
            last == s@.len() - part@.len(),
            i <= last,
            forall|j: int| 0 <= j < i ==> #[trigger] s@.skip(j).take(part@.len() as int) != part@,
        decreases last - i,
    {
        assert(s@.subrange(i as int, i + part@.len()) == s@.skip(i as int).take(part@.len() as int));
        if same(slice_subrange(s, i, i + part.len()), part) {
            return true;
        }
        if i == last {
            return false;
        }
        i = i + 1;
    }
}

/// Without one trailing carriage return.
pub open spec fn strip_cr(s: Seq<char>) -> Seq<char> {
    if s.len() > 0 && s.last() == '\r' {
        s.drop_last()
    } else {
        s
    }
}

/// The lines of a text. A line ends with a line feed, or with a carriage
/// return and a line feed; the last line needs no ending.
pub open spec fn lines(s: Seq<char>) -> Seq<Seq<char>>
    decreases s.len(),
{
    if s.len() == 0 {
        seq![]
    } else if find(s, '\n') >= s.len() {
        seq![s]
    } else {
        seq![strip_cr(s.take(find(s, '\n') as int))] + lines(s.skip(find(s, '\n') as int + 1))
    }
}

/// The fields of `s` between the separators `c`.
pub open spec fn split(s: Seq<char>, c: char) -> Seq<Seq<char>>
    decreases s.len(),
{
    if find(s, c) >= s.len() {
        seq![s]
    } else {
        seq![s.take(find(s, c) as int)] + split(s.skip(find(s, c) as int + 1), c)
    }
}

/// The texts of a vector of strings.
pub open spec fn strings(v: Seq<String>) -> Seq<Seq<char>> {
    v.map_values(|s: String| s@)
}

/// Parts with a separator between them.
pub open spec fn joined(parts: Seq<Seq<char>>, separator: Seq<char>) -> Seq<char>
    decreases parts.len(),
{
    if parts.len() == 0 {
        seq![]
    } else if parts.len() == 1 {
        parts[0]
    } else {
        joined(parts.drop_last(), separator) + separator + parts.last()
    }
}

/// Appends a line to lines.
pub fn add_line(lines: &mut Vec<String>, line: String)
    ensures
        strings(final(lines)@) == strings(old(lines)@).push(line@),
{
    lines.push(line);
    assert(strings(lines@) =~= strings(old(lines)@).push(line@));
}

/// Appends a copy of a line to lines.
pub fn add_text(lines: &mut Vec<String>, line: &str)
    ensures
        strings(final(lines)@) == strings(old(lines)@).push(line@),
{
    add_line(lines, line.to_string());
}

/// The texts that a vector of character vectors holds.
pub open spec fn texts(v: Seq<Vec<char>>) -> Seq<Seq<char>> {
    v.map_values(|x: Vec<char>| x@)
}

/// A copy of the slice as a vector.
pub fn chars_vec(s: &[char]) -> (r: Vec<char>)
    ensures
        r@ == s@,
{
    let mut out: Vec<char> = Vec::new();
    let mut i: usize = 0;
    while i < s.len()
        invariant
            i <= s@.len(),
            out@ == s@.take(i as int),
        decreases s@.len() - i,
    {
        out.push(s[i]);
        i = i + 1;
        assert(s@.take(i as int) == s@.take(i - 1).push(s@[i - 1]));
    }
    assert(s@.take(i as int) == s@);
    out
}

/// Splits a text into its lines.
pub fn lines_of(s: &[char]) -> (r: Vec<Vec<char>>)
    ensures
        texts(r@) == lines(s@),
{
    let mut out: Vec<Vec<char>> = Vec::new();
    let mut from: usize = 0;
    proof {
        assert(s@.skip(0) == s@);
    }
    while from < s.len()
        invariant
            from <= s@.len(),
            texts(out@) + lines(s@.skip(from as int)) == lines(s@),
        decreases s@.len() - from,
    {
        let ghost before = out@;
        let ghost rest = s@.skip(from as int);
        let tail = slice_subrange(s, from, s.len());
        assert(tail@ == rest);
        let n: usize = find_char(tail, '\n');
        proof {
            lemma_find(rest, '\n');
        }
        if n == tail.len() {
            out.push(chars_vec(tail));
            assert(texts(out@) == texts(before).push(rest));
            assert(texts(out@) == texts(before) + seq![rest]);
            from = s.len();
            assert(s@.skip(from as int) == Seq::<char>::empty());
            assert(texts(out@) + lines(s@.skip(from as int)) == texts(out@));
        } else {
            let mut end: usize = n;
            if n > 0 && tail[n - 1] == '\r' {
                end = n - 1;
            }
            let line = slice_subrange(tail, 0, end);
            assert(line@ == strip_cr(rest.take(n as int)));
            out.push(chars_vec(line));
            from = from + n + 1;
            assert(s@.skip(from as int) == rest.skip(n + 1));
            assert(texts(out@) == texts(before).push(line@));
            assert(texts(out@) + lines(s@.skip(from as int)) == texts(before) + (seq![line@] + lines(
                s@.skip(from as int),
            )));
        }
    }
    assert(s@.skip(from as int) == Seq::<char>::empty());
    assert(texts(out@) + lines(s@.skip(from as int)) == texts(out@));
    out
}

/// Splits a text at each `c`.
pub fn split_at_char(s: &[char], c: char) -> (r: Vec<Vec<char>>)
    ensures
        texts(r@) == split(s@, c),
{
    let mut out: Vec<Vec<char>> = Vec::new();
    let mut from: usize = 0;
    proof {
        assert(s@.skip(0) == s@);
        assert(texts(out@) + split(s@, c) == split(s@, c));
    }
    loop
        invariant
            from <= s@.len(),
            texts(out@) + split(s@.skip(from as int), c) == split(s@, c),
        decreases s@.len() - from,
    {
        let ghost before = out@;
        let ghost rest = s@.skip(from as int);
        let tail = slice_subrange(s, from, s.len());
        assert(tail@ == rest);
        let n: usize = find_char(tail, c);
        proof {
            lemma_find(rest, c);
        }
        if n == tail.len() {
            out.push(chars_vec(tail));
            assert(texts(out@) == texts(before) + seq![rest]);
            return out;
        }
        let field = slice_subrange(tail, 0, n);
        assert(field@ == rest.take(n as int));
        out.push(chars_vec(field));
        from = from + n + 1;
        assert(s@.skip(from as int) == rest.skip(n + 1));
        assert(texts(out@) == texts(before).push(field@));
        assert(texts(out@) + split(s@.skip(from as int), c) == texts(before) + (seq![field@] + split(
            s@.skip(from as int),
            c,
        )));
    }
}

/// How many characters stand before the first white space.
pub open spec fn word_len(s: Seq<char>) -> nat
    decreases s.len(),
{
    if s.len() == 0 || is_space(s[0]) {
        0
    } else {
        1 + word_len(s.drop_first())
    }
}

pub proof fn lemma_word_len(s: Seq<char>)
    ensures
        word_len(s) <= s.len(),
        forall|j: int| 0 <= j < word_len(s) ==> !is_space(s[j]),
        word_len(s) < s.len() ==> is_space(s[word_len(s) as int]),
    decreases s.len(),
{
    if s.len() > 0 && !is_space(s[0]) {
        lemma_word_len(s.drop_first());
        assert forall|j: int| 0 <= j < word_len(s) implies !is_space(s[j]) by {
            if j > 0 {
                assert(s[j] == s.drop_first()[j - 1]);
            }
        }
    }
}

pub proof fn lemma_trim_start(s: Seq<char>)
    ensures
        trim_start(s).len() <= s.len(),
        trim_start(s).len() > 0 ==> !is_space(trim_start(s)[0]),
    decreases s.len(),
{
    if s.len() > 0 && is_space(s[0]) {
        lemma_trim_start(s.drop_first());
    }
}

/// The words of a text: what stands between runs of white space.
pub open spec fn words(s: Seq<char>) -> Seq<Seq<char>>
    decreases s.len(),
{
    proof {
        lemma_trim_start(s);
        lemma_word_len(trim_start(s));
    }
    let t = trim_start(s);
    if t.len() == 0 {
        seq![]
    } else {
        seq![t.take(word_len(t) as int)] + words(t.skip(word_len(t) as int))
    }
}

/// Splits a text into its words.
pub fn words_of(s: &[char]) -> (r: Vec<Vec<char>>)
    ensures
        texts(r@) == words(s@),
{
    let mut out: Vec<Vec<char>> = Vec::new();
    let mut rest: &[char] = s;
    proof {
        assert(texts(out@) + words(s@) == words(s@));
    }
    loop
        invariant
            texts(out@) + words(rest@) == words(s@),
        decreases rest@.len(),
    {
        let ghost before = out@;
        let ghost whole = rest@;
        let t = trimmed_start(rest);
        proof {
            lemma_trim_start(whole);
            lemma_word_len(t@);
        }
        if t.len() == 0 {
            assert(texts(out@) + words(rest@) == texts(out@));
            return out;
        }
        let mut n: usize = 0;
        while n < t.len() && !space(t[n])
            invariant
                n <= t@.len(),
                forall|j: int| 0 <= j < n ==> !is_space(t@[j]),
            decreases t@.len() - n,
        {
            n = n + 1;
        }
        proof {
            let w = word_len(t@);
            if w < n {
                assert(is_space(t@[w as int]));
            }
            if n < w {
                assert(!is_space(t@[n as int]));
            }
        }
        let word = slice_subrange(t, 0, n);
        out.push(chars_vec(word));
        rest = slice_subrange(t, n, t.len());
        assert(word@ == t@.take(word_len(t@) as int));
        assert(rest@ == t@.skip(word_len(t@) as int));
        assert(texts(out@) == texts(before).push(word@));
        assert(texts(out@) + words(rest@) == texts(before) + (seq![word@] + words(rest@)));
    }
}

// ---- order ----

/// Lexicographic order by code point, which for valid text is the order of
/// the UTF-8 bytes.
pub open spec fn precedes(a: Seq<char>, b: Seq<char>) -> bool
    decreases a.len(),
{
    if b.len() == 0 {
        false
    } else if a.len() == 0 {
        true
    } else if a[0] != b[0] {
        a[0] < b[0]
    } else {
        precedes(a.drop_first(), b.drop_first())
    }
}

/// Of two texts exactly one of three holds: the first precedes the second,
/// the second precedes the first, or they are equal.
pub proof fn precedes_is_a_strict_total_order(a: Seq<char>, b: Seq<char>)
    ensures
        precedes(a, b) ==> !precedes(b, a) && a != b,
        !precedes(a, b) && !precedes(b, a) ==> a == b,
    decreases a.len(),
{
    if a.len() > 0 && b.len() > 0 && a[0] == b[0] {
        precedes_is_a_strict_total_order(a.drop_first(), b.drop_first());
        if a.drop_first() == b.drop_first() {
            assert(a == seq![a[0]] + a.drop_first());
            assert(b == seq![b[0]] + b.drop_first());
        }
    } else if a.len() == 0 && b.len() == 0 {
        assert(a =~= b);
    }
}

proof fn lemma_precedes_after(a: Seq<char>, b: Seq<char>, n: int)
    requires
        0 <= n <= a.len(),
        n <= b.len(),
        forall|j: int| 0 <= j < n ==> a[j] == b[j],
    ensures
        precedes(a, b) == precedes(a.skip(n), b.skip(n)),
    decreases n,
{
    if n == 0 {
        assert(a.skip(0) == a);
        assert(b.skip(0) == b);
    } else {
        assert(a[0] == b[0]);
        assert forall|j: int| 0 <= j < n - 1 implies a.drop_first()[j] == b.drop_first()[j] by {
            assert(a[j + 1] == b[j + 1]);
        }
        lemma_precedes_after(a.drop_first(), b.drop_first(), n - 1);
        assert(a.drop_first().skip(n - 1) == a.skip(n));
        assert(b.drop_first().skip(n - 1) == b.skip(n));
    }
}

/// Whether `a` comes before `b` in lexicographic order.
pub fn comes_before(a: &str, b: &str) -> (r: bool)
    ensures
        r == precedes(a@, b@),
{
    let left = chars_of(a);
    let right = chars_of(b);
    let mut i: usize = 0;
    while i < left.len() && i < right.len()
        invariant
            i <= left@.len(),
            i <= right@.len(),
            left@ == a@,
            right@ == b@,
            forall|j: int| 0 <= j < i ==> left@[j] == right@[j],
        decreases left@.len() - i,
    {
        if left[i] != right[i] {
            proof {
                lemma_precedes_after(a@, b@, i as int);
            }
            return left[i] < right[i];
        }
        i = i + 1;
    }
    proof {
        lemma_precedes_after(a@, b@, i as int);
    }
    i < right.len()
}

// ---- decimal numbers ----

/// The decimal digit of value `d`.
pub open spec fn digit(d: int) -> char {
    (('0' as u32) + d) as char
}

/// The decimal notation of `n`, without leading zeros.
pub open spec fn decimal(n: nat) -> Seq<char>
    decreases n,
{
    if n < 10 {
        seq![digit(n as int)]
    } else {
        decimal(n / 10).push(digit((n % 10) as int))
    }
}

/// The digit character of a value below ten.
pub fn digit_char(d: u8) -> (r: char)
    requires
        d < 10,
    ensures
        r == digit(d as int),
{
    (48 + d) as char
}

/// Writes `n` in decimal.
pub fn decimal_of(n: u128) -> (r: Vec<char>)
    ensures
        r@ == decimal(n as nat),
    decreases n,
{
    let last: u8 = (n % 10) as u8;
    if n < 10 {
        let mut out: Vec<char> = Vec::new();
        out.push(digit_char(last));
        assert(out@ == seq![digit(n as int)]);
        out
    } else {
        let mut out = decimal_of(n / 10);
        out.push(digit_char(last));
        out
    }
}

/// Appends the decimal notation of `n`.
pub fn push_decimal(out: &mut String, n: u128)
    ensures
        final(out)@ == old(out)@ + decimal(n as nat),
{
    let digits = string_of(decimal_of(n).as_slice());
    out.append(digits.as_str());
}

pub open spec fn all_digits(s: Seq<char>) -> bool {
    forall|i: int| 0 <= i < s.len() ==> is_digit(#[trigger] s[i])
}

/// The number that a row of decimal digits denotes.
pub open spec fn value(s: Seq<char>) -> nat
    decreases s.len(),
{
    if s.len() == 0 {
        0
    } else {
        value(s.drop_last()) * 10 + ((s.last() as u32) - ('0' as u32)) as nat
    }
}

/// The number that `s` denotes where it is an optional `+` and at least one
/// decimal digit, and the number is at most `max`.
pub open spec fn parse_number(s: Seq<char>, max: nat) -> Option<nat> {
    let digits = if s.len() > 0 && s[0] == '+' {
        s.drop_first()
    } else {
        s
    };
    if digits.len() > 0 && all_digits(digits) && value(digits) <= max {
        Some(value(digits))
    } else {
        None
    }
}

proof fn lemma_value_grows(s: Seq<char>, n: int)
    requires
        0 <= n <= s.len(),
    ensures
        value(s.take(n)) <= value(s),
    decreases s.len() - n,
{
    if n == s.len() {
        assert(s.take(n) == s);
    } else {
        assert(s.take(n + 1).drop_last() == s.take(n));
        lemma_value_grows(s, n + 1);
    }
}

/// Reads an unsigned 32-bit decimal number.
pub fn parse_u32(s: &[char]) -> (r: Option<u32>)
    ensures
        r is Some <==> parse_number(s@, u32::MAX as nat) is Some,
        r matches Some(n) ==> parse_number(s@, u32::MAX as nat) == Some(n as nat),
{
    let mut digits: &[char] = s;
    if s.len() > 0 && s[0] == '+' {
        digits = slice_subrange(s, 1, s.len());
        assert(digits@ == s@.drop_first());
    }
    if digits.len() == 0 {
        return None;
    }
    let mut n: u64 = 0;
    let mut i: usize = 0;
    assert(digits@.take(0) == Seq::<char>::empty());
    while i < digits.len()
        invariant
            i <= digits@.len(),
            digits@.len() > 0,
            digits@ == (if s@.len() > 0 && s@[0] == '+' {
                s@.drop_first()
            } else {
                s@
            }),
            n == value(digits@.take(i as int)),
            n <= u32::MAX,
            forall|j: int| 0 <= j < i ==> is_digit(#[trigger] digits@[j]),
        decreases digits@.len() - i,
    {
        let c = digits[i];
        if c < '0' || '9' < c {
            assert(!is_digit(digits@[i as int]));
            return None;
        }
        n = n * 10 + (c as u64 - 48);
        i = i + 1;
        proof {
            assert(digits@.take(i as int).drop_last() == digits@.take(i - 1));
            lemma_value_grows(digits@, i as int);
        }
        if n > u32::MAX as u64 {
            return None;
        }
    }
    assert(digits@.take(i as int) == digits@);
    Some(n as u32)
}

/// What was written in decimal has only digits and is read back as the same
/// number.
pub proof fn decimal_is_read_back(n: nat, max: nat)
    requires
        n <= max,
    ensures
        all_digits(decimal(n)),
        decimal(n).len() > 0,
        value(decimal(n)) == n,
        parse_number(decimal(n), max) == Some(n),
    decreases n,
{
    let d = decimal(n);
    let last = digit((n % 10) as int);
    assert(is_digit(last) && (last as u32) - ('0' as u32) == n % 10) by {
        assert(n % 10 < 10);
    }
    if n < 10 {
        assert(d =~= seq![last]);
        assert(d.drop_last() =~= seq![]);
        assert(value(d.drop_last()) == 0);
    } else {
        decimal_is_read_back(n / 10, max);
        assert(d.drop_last() =~= decimal(n / 10));
        assert forall|i: int| 0 <= i < d.len() implies is_digit(#[trigger] d[i]) by {
            if i < d.len() - 1 {
                assert(d[i] == decimal(n / 10)[i]);
            }
        }
    }
    assert(is_digit(d[0]));
}

// ---- laws ----

/// A text begins with each of its beginnings and with nothing else.
pub proof fn beginnings_are_found(s: Seq<char>, prefix: Seq<char>, rest: Seq<char>)
    ensures
        starts_with(prefix + rest, prefix),
        starts_with(s, prefix) ==> s == prefix + s.skip(prefix.len() as int),
{
    assert((prefix + rest).take(prefix.len() as int) =~= prefix);
    if starts_with(s, prefix) {
        assert(s =~= s.take(prefix.len() as int) + s.skip(prefix.len() as int));
    }
}

/// A part is found wherever it stands in a text, and only where it does.
pub proof fn parts_are_found(s: Seq<char>, before: Seq<char>, part: Seq<char>, after: Seq<char>)
    ensures
        contains(before + part + after, part),
        contains(s, part) ==> exists|a: Seq<char>, b: Seq<char>| s == #[trigger] (a + part + b),
{
    let whole = before + part + after;
    assert(whole.skip(before.len() as int).take(part.len() as int) =~= part);
    if contains(s, part) {
        let i = choose|i: int|
            0 <= i && i + part.len() <= s.len() && #[trigger] s.skip(i).take(part.len() as int)
                == part;
        let a = s.take(i);
        let b = s.skip(i + part.len());
        assert forall|j: int| 0 <= j < s.len() implies s[j] == (a + part + b)[j] by {
            if i <= j < i + part.len() {
                assert(s.skip(i).take(part.len() as int)[j - i] == s[j]);
            }
        }
        assert(s =~= a + part + b);
    }
}

/// Whether a text is white space only.
pub open spec fn blank(s: Seq<char>) -> bool {
    forall|i: int| 0 <= i < s.len() ==> is_space(#[trigger] s[i])
}

/// Whether a text neither begins nor ends with white space.
pub open spec fn bare(s: Seq<char>) -> bool {
    s.len() > 0 ==> !is_space(s[0]) && !is_space(s.last())
}

proof fn lemma_trim_start_blank(a: Seq<char>, m: Seq<char>)
    requires
        blank(a),
    ensures
        trim_start(a + m) == trim_start(m),
    decreases a.len(),
{
    if a.len() == 0 {
        assert(a + m =~= m);
    } else {
        assert(is_space(a[0]));
        assert((a + m).drop_first() =~= a.drop_first() + m);
        assert forall|i: int| 0 <= i < a.drop_first().len() implies is_space(
            #[trigger] a.drop_first()[i],
        ) by {
            assert(a.drop_first()[i] == a[i + 1]);
        }
        lemma_trim_start_blank(a.drop_first(), m);
    }
}

proof fn lemma_trim_end_blank(m: Seq<char>, b: Seq<char>)
    requires
        blank(b),
    ensures
        trim_end(m + b) == trim_end(m),
    decreases b.len(),
{
    if b.len() == 0 {
        assert(m + b =~= m);
    } else {
        assert(is_space(b.last()));
        assert((m + b).drop_last() =~= m + b.drop_last());
        assert forall|i: int| 0 <= i < b.drop_last().len() implies is_space(
            #[trigger] b.drop_last()[i],
        ) by {
            assert(b.drop_last()[i] == b[i]);
        }
        lemma_trim_end_blank(m, b.drop_last());
    }
}

/// Trimming drops the white space round a text, all of it and nothing else.
pub proof fn outer_space_is_trimmed(before: Seq<char>, middle: Seq<char>, after: Seq<char>)
    requires
        blank(before),
        bare(middle),
        blank(after),
    ensures
        trim(before + middle + after) == middle,
{
    assert(before + middle + after =~= before + (middle + after));
    lemma_trim_start_blank(before, middle + after);
    if middle.len() > 0 {
        assert((middle + after)[0] == middle[0]);
        assert(trim_start(middle + after) == middle + after);
        lemma_trim_end_blank(middle, after);
    } else {
        assert(middle + after =~= after);
        assert(after + Seq::<char>::empty() =~= after);
        lemma_trim_start_blank(after, Seq::empty());
        assert(trim_start(after) == Seq::<char>::empty());
        assert(middle =~= Seq::<char>::empty());
    }
}

/// The space, the tabulator and the ends of lines are white space; what prints
/// is not. The wide spaces beyond ASCII are, and no letter of any script is.
pub proof fn printing_characters_are_no_space(c: char)
    ensures
        c == '\u{85}' || c == '\u{a0}' || c == '\u{1680}' || '\u{2000}' <= c <= '\u{200a}' || c
            == '\u{2028}' || c == '\u{2029}' || c == '\u{202f}' || c == '\u{205f}' || c == '\u{3000}'
            ==> is_space(c),
        '\u{a1}' <= c < '\u{1680}' || '\u{1681}' <= c < '\u{2000}' || '\u{2060}' <= c < '\u{3000}'
            || c > '\u{3000}' ==> !is_space(c),
        c == ' ' || c == '\t' || c == '\n' || c == '\r' ==> is_space(c),
        '!' <= c <= '~' ==> !is_space(c),
{
}

/// The characters before the space and the one after the tilde are control
/// codes; what prints is not.
pub proof fn printing_characters_are_no_controls(c: char)
    ensures
        c < ' ' || c == '\u{7f}' ==> is_control(c),
        ' ' <= c <= '~' || c >= '\u{a0}' ==> !is_control(c),
{
}

/// Lower-casing changes the letters from `A` to `Z`, each to the letter that is
/// as far behind `a`, and nothing else. Done again it changes nothing.
pub proof fn lowercase_changes_capitals_only(s: Seq<char>, i: int)
    requires
        0 <= i < s.len(),
    ensures
        lowercase(s).len() == s.len(),
        'A' <= s[i] <= 'Z' ==> lowercase(s)[i] as u32 - 'a' as u32 == s[i] as u32 - 'A' as u32,
        !('A' <= s[i] <= 'Z') ==> lowercase(s)[i] == s[i],
        lowercase(lowercase(s)) == lowercase(s),
{
    assert(lowercase(lowercase(s)) =~= lowercase(s));
}

/// Whether a character does not occur in a text.
pub open spec fn lacks(s: Seq<char>, c: char) -> bool {
    forall|i: int| 0 <= i < s.len() ==> #[trigger] s[i] != c
}

proof fn lemma_find_in_front(part: Seq<char>, c: char, rest: Seq<char>)
    requires
        lacks(part, c),
    ensures
        find(part + seq![c] + rest, c) == part.len(),
        find(part, c) == part.len(),
{
    let whole = part + seq![c] + rest;
    assert forall|j: int| 0 <= j < part.len() implies whole[j] != c by {
        assert(whole[j] == part[j]);
    }
    assert(whole[part.len() as int] == c);
    lemma_find_at(whole, c, part.len() as int);
    lemma_find_at(part, c, part.len() as int);
}

/// A line that is ended by a line feed, with or without a carriage return
/// before it, is followed by the lines of what comes after. A text without a
/// line feed is one line, and an empty text is none.
pub proof fn lines_end_with_line_feeds(line: Seq<char>, rest: Seq<char>)
    requires
        lacks(line, '\n'),
    ensures
        lines(line + seq!['\r', '\n'] + rest) == seq![line] + lines(rest),
        (line.len() == 0 || line.last() != '\r') ==> lines(line + seq!['\n'] + rest) == seq![line]
            + lines(rest),
        line.len() > 0 ==> lines(line) == seq![line],
        lines(Seq::<char>::empty()) == Seq::<Seq<char>>::empty(),
{
    lemma_find_in_front(line, '\n', rest);
    let plain = line + seq!['\n'] + rest;
    assert(plain.take(line.len() as int) =~= line);
    assert(plain.skip(line.len() as int + 1) =~= rest);
    let ended = line.push('\r');
    let whole = line + seq!['\r', '\n'] + rest;
    assert(whole =~= ended + seq!['\n'] + rest);
    assert forall|i: int| 0 <= i < ended.len() implies #[trigger] ended[i] != '\n' by {
        if i < line.len() {
            assert(ended[i] == line[i]);
        }
    }
    lemma_find_in_front(ended, '\n', rest);
    assert(whole.take(ended.len() as int) =~= ended);
    assert(whole.skip(ended.len() as int + 1) =~= rest);
    assert(strip_cr(ended) =~= line);
}

/// The first field ends at the first separator, and the fields of what comes
/// after it follow. A text without a separator is one field.
pub proof fn fields_end_at_separators(field: Seq<char>, c: char, rest: Seq<char>)
    requires
        lacks(field, c),
    ensures
        split(field + seq![c] + rest, c) == seq![field] + split(rest, c),
        split(field, c) == seq![field],
{
    lemma_find_in_front(field, c, rest);
    let whole = field + seq![c] + rest;
    assert(whole.take(field.len() as int) =~= field);
    assert(whole.skip(field.len() as int + 1) =~= rest);
}

/// Whether a text is one word.
pub open spec fn is_one_word(s: Seq<char>) -> bool {
    s.len() > 0 && forall|i: int| 0 <= i < s.len() ==> !is_space(#[trigger] s[i])
}

proof fn lemma_word_in_front(word: Seq<char>, rest: Seq<char>)
    requires
        is_one_word(word),
        rest.len() == 0 || is_space(rest[0]),
    ensures
        words(word + rest) == seq![word] + words(rest),
{
    let whole = word + rest;
    assert(whole[0] == word[0]);
    assert(trim_start(whole) == whole);
    lemma_word_len(whole);
    let n = word_len(whole) as int;
    if n < word.len() {
        assert(whole[n] == word[n]);
    }
    if n > word.len() {
        assert(whole[word.len() as int] == rest[0]);
    }
    assert(whole.take(n) =~= word);
    assert(whole.skip(n) =~= rest);
}

/// White space before a text adds no word. A word before white space is the
/// first, and the words of what comes after follow.
pub proof fn words_end_at_white_space(word: Seq<char>, space: char, rest: Seq<char>)
    requires
        is_one_word(word),
        is_space(space),
    ensures
        words(seq![space] + rest) == words(rest),
        words(word + seq![space] + rest) == seq![word] + words(rest),
        words(word) == seq![word],
        words(Seq::<char>::empty()) == Seq::<Seq<char>>::empty(),
{
    let spaced = seq![space] + rest;
    assert(spaced.drop_first() =~= rest);
    assert(trim_start(spaced) == trim_start(rest));
    assert(words(spaced) == words(rest));
    assert(word + seq![space] + rest =~= word + spaced);
    lemma_word_in_front(word, spaced);
    assert(word + Seq::<char>::empty() =~= word);
    lemma_word_in_front(word, Seq::empty());
    assert(trim_start(Seq::<char>::empty()) =~= Seq::<char>::empty());
    assert(words(Seq::<char>::empty()) =~= Seq::<Seq<char>>::empty());
    assert(seq![word] + words(Seq::<char>::empty()) =~= seq![word]);
}

/// Of two texts that differ after a common beginning, the one with the smaller
/// character comes first. A text comes before its continuations.
pub proof fn first_difference_decides(
    common: Seq<char>,
    x: char,
    a: Seq<char>,
    y: char,
    b: Seq<char>,
)
    requires
        x != y,
    ensures
        precedes(common + seq![x] + a, common + seq![y] + b) == (x < y),
        precedes(common, common + seq![x] + a),
{
    let left = common + seq![x] + a;
    let right = common + seq![y] + b;
    let n = common.len() as int;
    lemma_precedes_after(left, right, n);
    assert(left.skip(n)[0] == x && right.skip(n)[0] == y);
    lemma_precedes_after(common, left, n);
    assert(common.skip(n) =~= Seq::<char>::empty());
}

/// What comes before a text that comes before another comes before that too.
pub proof fn precedes_is_transitive(a: Seq<char>, b: Seq<char>, c: Seq<char>)
    requires
        precedes(a, b),
        precedes(b, c),
    ensures
        precedes(a, c),
    decreases a.len(),
{
    if a.len() > 0 && b.len() > 0 && c.len() > 0 && a[0] == b[0] && b[0] == c[0] {
        precedes_is_transitive(a.drop_first(), b.drop_first(), c.drop_first());
    }
}

/// Joining two rows of texts is joining each and putting a separator between
/// them. One text is joined to itself.
pub proof fn rows_are_joined(a: Seq<Seq<char>>, b: Seq<Seq<char>>, one: Seq<char>, sep: Seq<char>)
    requires
        a.len() > 0,
        b.len() > 0,
    ensures
        joined(a + b, sep) == joined(a, sep) + sep + joined(b, sep),
        joined(seq![one], sep) == one,
        joined(Seq::<Seq<char>>::empty(), sep) == Seq::<char>::empty(),
    decreases b.len(),
{
    assert((a + b).drop_last() =~= a + b.drop_last());
    assert((a + b).last() == b.last());
    if b.len() == 1 {
        assert((a + b).drop_last() =~= a);
    } else {
        rows_are_joined(a, b.drop_last(), one, sep);
        assert(joined(a, sep) + sep + joined(b.drop_last(), sep) + sep + b.last() =~= joined(a, sep)
            + sep + (joined(b.drop_last(), sep) + sep + b.last()));
    }
}

/// A number above the limit is not read. A plus sign before a number is
/// skipped. A text with anything else than digits after that is no number, nor
/// is an empty one.
pub proof fn numbers_are_digits(n: nat, max: nat, s: Seq<char>, i: int)
    ensures
        parse_number(decimal(n), max) is Some <==> n <= max,
        n <= max ==> parse_number(seq!['+'] + decimal(n), max) == Some(n),
        0 <= i < s.len() && !is_digit(s[i]) && !(i == 0 && s[i] == '+') ==> parse_number(
            s,
            max,
        ) is None,
        parse_number(Seq::<char>::empty(), max) is None,
        parse_number(seq!['+'], max) is None,
        n > 0 ==> decimal(n)[0] != '0',
{
    decimal_is_read_back(n, n);
    assert(is_digit(decimal(n)[0]));
    assert((seq!['+'] + decimal(n)).drop_first() =~= decimal(n));
    if 0 <= i < s.len() && !is_digit(s[i]) && !(i == 0 && s[i] == '+') {
        if s[0] == '+' {
            assert(s.drop_first()[i - 1] == s[i]);
        }
    }
    assert(seq!['+'].drop_first() =~= Seq::<char>::empty());
    lemma_no_leading_zero(n);
}

proof fn lemma_no_leading_zero(n: nat)
    ensures
        decimal(n).len() > 0,
        n > 0 ==> decimal(n)[0] != '0',
    decreases n,
{
    if n >= 10 {
        lemma_no_leading_zero(n / 10);
        assert(decimal(n)[0] == decimal(n / 10)[0]);
    }
}

/// Leading zeros do not matter.
pub proof fn leading_zeros_do_not_matter(s: Seq<char>, max: nat)
    requires
        s.len() > 0,
        all_digits(s),
    ensures
        parse_number(seq!['0'] + s, max) == parse_number(s, max),
{
    lemma_value_after_zero(s);
    assert((seq!['0'] + s)[0] == '0');
    assert(is_digit(s[0]));
    assert(all_digits(seq!['0'] + s)) by {
        assert forall|i: int| 0 <= i < s.len() + 1 implies is_digit(
            #[trigger] (seq!['0'] + s)[i],
        ) by {
            if i > 0 {
                assert((seq!['0'] + s)[i] == s[i - 1]);
            }
        }
    }
}

proof fn lemma_value_after_zero(s: Seq<char>)
    ensures
        value(seq!['0'] + s) == value(s),
    decreases s.len(),
{
    let whole = seq!['0'] + s;
    if s.len() == 0 {
        assert(whole.drop_last() =~= Seq::<char>::empty());
        reveal_with_fuel(value, 2);
    } else {
        assert(whole.drop_last() =~= seq!['0'] + s.drop_last());
        assert(whole.last() == s.last());
        lemma_value_after_zero(s.drop_last());
    }
}

/// A trimmed text stands in the text, between white space, and has none at its
/// ends. Trimming it again changes nothing.
pub proof fn trimmed_text_stands_between_white_space(s: Seq<char>)
    ensures
        bare(trim(s)),
        trim(trim(s)) == trim(s),
        exists|a: Seq<char>, b: Seq<char>|
            blank(a) && blank(b) && s == #[trigger] (a + trim(s) + b),
{
    let t = trim_start(s);
    let a = s.take(s.len() - t.len());
    lemma_trim_start_is_a_tail(s);
    lemma_trim_end_is_a_head(t);
    let m = trim_end(t);
    let b = t.skip(m.len() as int);
    assert(s =~= a + m + b);
    if m.len() > 0 {
        assert(m[0] == t[0]);
    }
    outer_space_is_trimmed(seq![], m, seq![]);
    assert(Seq::<char>::empty() + m + Seq::<char>::empty() =~= m);
}

proof fn lemma_trim_start_is_a_tail(s: Seq<char>)
    ensures
        trim_start(s).len() <= s.len(),
        s == s.take(s.len() - trim_start(s).len()) + trim_start(s),
        blank(s.take(s.len() - trim_start(s).len())),
        trim_start(s).len() > 0 ==> !is_space(trim_start(s)[0]),
    decreases s.len(),
{
    if s.len() > 0 && is_space(s[0]) {
        let rest = s.drop_first();
        lemma_trim_start_is_a_tail(rest);
        let n = rest.len() - trim_start(rest).len();
        assert(s.take(n + 1) =~= seq![s[0]] + rest.take(n));
        assert forall|i: int| 0 <= i < n + 1 implies is_space(#[trigger] s.take(n + 1)[i]) by {
            if i > 0 {
                assert(s.take(n + 1)[i] == rest.take(n)[i - 1]);
            }
        }
        assert(s =~= seq![s[0]] + rest);
    } else {
        assert(s.take(0) + s =~= s);
    }
}

proof fn lemma_trim_end_is_a_head(s: Seq<char>)
    ensures
        trim_end(s).len() <= s.len(),
        s == trim_end(s) + s.skip(trim_end(s).len() as int),
        blank(s.skip(trim_end(s).len() as int)),
        trim_end(s).len() > 0 ==> !is_space(trim_end(s).last()),
    decreases s.len(),
{
    if s.len() > 0 && is_space(s.last()) {
        let rest = s.drop_last();
        lemma_trim_end_is_a_head(rest);
        let n = trim_end(rest).len() as int;
        assert forall|i: int| 0 <= i < s.skip(n).len() implies is_space(#[trigger] s.skip(n)[i]) by {
            if i < rest.skip(n).len() {
                assert(s.skip(n)[i] == rest.skip(n)[i]);
            }
        }
        assert(s =~= rest.push(s.last()));
        assert(s =~= trim_end(s) + s.skip(n));
    } else {
        assert(s + s.skip(s.len() as int) =~= s);
    }
}

/// What was joined with a separator that none of the texts holds is split into
/// these texts again.
pub proof fn joined_texts_are_split_again(parts: Seq<Seq<char>>, c: char)
    requires
        parts.len() > 0,
        forall|i: int| 0 <= i < parts.len() ==> lacks(#[trigger] parts[i], c),
    ensures
        split(joined(parts, seq![c]), c) == parts,
    decreases parts.len(),
{
    let first = parts[0];
    let rest = parts.skip(1);
    if rest.len() == 0 {
        assert(parts =~= seq![first]);
        rows_are_joined(parts, parts, first, seq![c]);
        fields_end_at_separators(first, c, first);
    } else {
        assert(parts =~= seq![first] + rest);
        rows_are_joined(seq![first], rest, first, seq![c]);
        assert forall|i: int| 0 <= i < rest.len() implies lacks(#[trigger] rest[i], c) by {
            assert(rest[i] == parts[i + 1]);
        }
        joined_texts_are_split_again(rest, c);
        fields_end_at_separators(first, c, joined(rest, seq![c]));
    }
}

/// A line stands in the text as a part of it.
pub proof fn lines_are_parts(s: Seq<char>, i: int)
    requires
        0 <= i < lines(s).len(),
    ensures
        exists|a: Seq<char>, b: Seq<char>| s == #[trigger] (a + lines(s)[i] + b),
        lacks(lines(s)[i], '\n'),
    decreases s.len(),
{
    lemma_find(s, '\n');
    let f = find(s, '\n') as int;
    if f >= s.len() {
        assert(lines(s)[i] == s);
        assert(s =~= Seq::<char>::empty() + s + Seq::<char>::empty());
    } else {
        let head = s.take(f);
        let rest = s.skip(f + 1);
        if i == 0 {
            let line = strip_cr(head);
            assert(lines(s)[0] == line);
            assert(s =~= Seq::<char>::empty() + line + s.skip(line.len() as int));
        } else {
            assert(lines(s)[i] == lines(rest)[i - 1]);
            lines_are_parts(rest, i - 1);
            let line = lines(rest)[i - 1];
            let (a, b) = choose|a: Seq<char>, b: Seq<char>| rest == #[trigger] (a + line + b);
            assert(s =~= s.take(f + 1) + rest);
            assert(s.take(f + 1) + (a + line + b) =~= (s.take(f + 1) + a) + line + b);
        }
    }
}

/// A part of a text that holds no end of line stands in one of the lines.
pub proof fn parts_stand_in_lines(a: Seq<char>, part: Seq<char>, b: Seq<char>)
    requires
        part.len() > 0,
        lacks(part, '\n'),
        part.last() != '\r',
    ensures
        exists|i: int|
            0 <= i < lines(a + part + b).len() && contains(#[trigger] lines(a + part + b)[i], part),
    decreases a.len(),
{
    let s = a + part + b;
    lemma_find(s, '\n');
    lemma_find(a, '\n');
    let f = find(s, '\n') as int;
    let fa = find(a, '\n') as int;
    if fa < a.len() {
        assert(s[fa] == a[fa]);
        assert(forall|j: int| 0 <= j < fa ==> s[j] == a[j]);
        lemma_find_at(s, '\n', fa);
        let rest_a = a.skip(fa + 1);
        let rest = s.skip(fa + 1);
        assert(rest =~= rest_a + part + b);
        parts_stand_in_lines(rest_a, part, b);
        let i = choose|i: int| 0 <= i < lines(rest).len() && contains(#[trigger] lines(rest)[i], part);
        assert(lines(s)[i + 1] == lines(rest)[i]);
    } else {
        assert forall|j: int| 0 <= j < a.len() + part.len() implies s[j] != '\n' by {
            if j < a.len() {
                assert(s[j] == a[j]);
            } else {
                assert(s[j] == part[j - a.len()]);
            }
        }
        if f >= s.len() {
            assert(lines(s)[0] == s);
            parts_are_found(s, a, part, b);
        } else {
            assert(f >= a.len() + part.len());
            let line = strip_cr(s.take(f));
            assert(lines(s)[0] == line);
            let n = a.len() + part.len();
            assert(s[n - 1] == part.last());
            assert(line.len() >= n);
            let tail = line.skip(n as int);
            assert(line =~= a + part + tail);
            parts_are_found(line, a, part, tail);
        }
    }
}

/// What was joined holds each of the texts.
pub proof fn joined_texts_hold_each(parts: Seq<Seq<char>>, sep: Seq<char>, i: int)
    requires
        0 <= i < parts.len(),
    ensures
        contains(joined(parts, sep), parts[i]),
{
    let one = parts[i];
    let none = Seq::<char>::empty();
    let a = parts.take(i);
    let b = parts.skip(i + 1);
    let upto = a + seq![one];
    assert(parts =~= upto + b);
    rows_are_joined(seq![one], seq![one], one, sep);
    let before = if a.len() > 0 {
        joined(a, sep) + sep
    } else {
        none
    };
    if a.len() > 0 {
        rows_are_joined(a, seq![one], one, sep);
    } else {
        assert(upto =~= seq![one]);
        assert(none + one =~= one);
    }
    assert(joined(upto, sep) == before + one);
    let after = if b.len() > 0 {
        sep + joined(b, sep)
    } else {
        none
    };
    if b.len() > 0 {
        rows_are_joined(upto, b, one, sep);
    } else {
        assert(parts =~= upto);
    }
    assert(joined(parts, sep) =~= before + one + after);
    parts_are_found(one, before, one, after);
}

/// A number is written to base ten, its last digit at the end, and read so.
pub proof fn numbers_are_written_to_base_ten(n: nat, d: nat, s: Seq<char>, c: char)
    requires
        d < 10,
        is_digit(c),
    ensures
        decimal(d).len() == 1,
        decimal(d)[0] as u32 == '0' as u32 + d,
        n > 0 ==> decimal(10 * n + d) == decimal(n).push(decimal(d)[0]),
        value(s.push(c)) == 10 * value(s) + (c as u32 - '0' as u32),
        value(Seq::<char>::empty()) == 0,
{
    assert(s.push(c).drop_last() =~= s);
    if n > 0 {
        assert((10 * n + d) / 10 == n);
        assert((10 * n + d) % 10 == d);
    }
}

/// There are ten digits.
pub proof fn digits_are_ten(c: char)
    ensures
        is_digit(c) <==> (c as u32) >= 48 && (c as u32) < 58,
{
}

/// What owned texts hold is told one by one.
pub proof fn owned_texts_are_told_in_order(list: Seq<String>, rows: Seq<Vec<char>>, i: int)
    ensures
        strings(list).len() == list.len(),
        0 <= i < list.len() ==> strings(list)[i] == list[i]@,
        texts(rows).len() == rows.len(),
        0 <= i < rows.len() ==> texts(rows)[i] == rows[i]@,
{
}

} // verus!
