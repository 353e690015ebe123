//! Hexadecimal and base64 notation, and the PEM envelope of a certificate.

use base64::engine::general_purpose::STANDARD;
use base64::Engine;
use vstd::prelude::*;
use vstd::slice::slice_subrange;
use vstd::string::*;

use crate::text;
use crate::text::{chars_of, string_of};

verus! {

// ---- hexadecimal ----

/// The lower-case hexadecimal digit of value `n`.
pub open spec fn hex_digit(n: int) -> char {
    if n < 10 {
        (('0' as u32) + n) as char
    } else {
        (('a' as u32) + (n - 10)) as char
    }
}

/// Two lower-case hexadecimal digits for each byte, the high half first.
pub open spec fn hex_text(bytes: Seq<u8>) -> Seq<char> {
    Seq::new(
        2 * bytes.len(),
        |i: int|
            if i % 2 == 0 {
                hex_digit(bytes[i / 2] as int / 16)
            } else {
                hex_digit(bytes[i / 2] as int % 16)
            },
    )
}

/// `hex::encode` writes each byte as two lower-case hexadecimal digits.
#[verifier::external_body]
pub(crate) fn hex_encode(bytes: &[u8]) -> (r: String)
    ensures
        r@ == hex_text(bytes@),
{
    hex::encode(bytes)
}

// ---- base64 ----

/// The character of the standard base64 alphabet for a value below 64.
pub open spec fn base64_char(n: int) -> char {
    if n < 26 {
        (('A' as u32) + n) as char
    } else if n < 52 {
        (('a' as u32) + (n - 26)) as char
    } else if n < 62 {
        (('0' as u32) + (n - 52)) as char
    } else if n == 62 {
        '+'
    } else {
        '/'
    }
}

/// The standard base64 text of `s`: four characters for three bytes, the last
/// group filled up with `=`.
pub open spec fn base64_text(s: Seq<u8>) -> Seq<char>
    decreases s.len(),
{
    if s.len() == 0 {
        seq![]
    } else {
        let a = s[0] as int;
        let b = if s.len() > 1 {
            s[1] as int
        } else {
            0
        };
        let c = if s.len() > 2 {
            s[2] as int
        } else {
            0
        };
        let group = seq![
            base64_char(a / 4),
            base64_char((a % 4) * 16 + b / 16),
            if s.len() > 1 {
                base64_char((b % 16) * 4 + c / 64)
            } else {
                '='
            },
            if s.len() > 2 {
                base64_char(c % 64)
            } else {
                '='
            },
        ];
        if s.len() <= 3 {
            group
        } else {
            group + base64_text(s.skip(3))
        }
    }
}

/// The error of a base64 decoding.
#[verifier::external_type_specification]
#[verifier::external_body]
pub struct ExDecodeError(base64::DecodeError);

/// `Engine::encode` of the `STANDARD` engine: the standard alphabet, with
/// padding.
#[verifier::external_body]
pub(crate) fn base64_encode(bytes: &[u8]) -> (r: String)
    ensures
        r@ == base64_text(bytes@),
{
    STANDARD.encode(bytes)
}

/// `Engine::decode` of the `STANDARD` engine. It requires canonical padding
/// and no stray trailing bits, so it accepts exactly the texts that encoding
/// some bytes gives, and returns those bytes.
#[verifier::external_body]
pub(crate) fn base64_decode(text: &str) -> (r: Result<Vec<u8>, base64::DecodeError>)
    ensures
        r matches Ok(bytes) ==> base64_text(bytes@) == text@,
        r is Err ==> forall|bytes: Seq<u8>| #[trigger] base64_text(bytes) != text@,
{
    STANDARD.decode(text)
}

proof fn lemma_base64_char_injective(m: int, n: int)
    requires
        0 <= m < 64,
        0 <= n < 64,
        base64_char(m) == base64_char(n),
    ensures
        m == n,
{
}

proof fn lemma_base64_char_is_no_padding(n: int)
    requires
        0 <= n < 64,
    ensures
        base64_char(n) != '=',
{
}

/// The length of base64 text.
pub proof fn base64_length(s: Seq<u8>)
    ensures
        base64_text(s).len() == 4 * ((s.len() + 2) / 3),
    decreases s.len(),
{
    if s.len() > 3 {
        base64_length(s.skip(3));
    }
}

/// Two byte strings with the same base64 text are equal, so decoding gives
/// back what was encoded.
pub proof fn base64_is_injective(s: Seq<u8>, t: Seq<u8>)
    requires
        base64_text(s) == base64_text(t),
    ensures
        s == t,
    decreases s.len(),
{
    base64_length(s);
    base64_length(t);
    if s.len() == 0 || t.len() == 0 {
        assert(s =~= t);
    } else {
        let x = base64_text(s);
        let y = base64_text(t);
        assert(x[0] == y[0] && x[1] == y[1] && x[2] == y[2] && x[3] == y[3]);
        let (a, b, c) = (
            s[0] as int,
            if s.len() > 1 { s[1] as int } else { 0 },
            if s.len() > 2 { s[2] as int } else { 0 },
        );
        let (d, e, f) = (
            t[0] as int,
            if t.len() > 1 { t[1] as int } else { 0 },
            if t.len() > 2 { t[2] as int } else { 0 },
        );
        lemma_base64_char_injective(a / 4, d / 4);
        lemma_base64_char_injective((a % 4) * 16 + b / 16, (d % 4) * 16 + e / 16);
        lemma_base64_char_is_no_padding((b % 16) * 4 + c / 64);
        lemma_base64_char_is_no_padding((e % 16) * 4 + f / 64);
        lemma_base64_char_is_no_padding(c % 64);
        lemma_base64_char_is_no_padding(f % 64);
        assert(s.len() > 1 <==> t.len() > 1);
        assert(s.len() > 2 <==> t.len() > 2);
        assert(a == d);
        if s.len() > 1 {
            lemma_base64_char_injective((b % 16) * 4 + c / 64, (e % 16) * 4 + f / 64);
            assert(b == e);
        }
        if s.len() > 2 {
            lemma_base64_char_injective(c % 64, f % 64);
            assert(c == f);
        }
        if s.len() > 3 || t.len() > 3 {
            assert(s.len() > 3 && t.len() > 3);
            assert(x.skip(4) == base64_text(s.skip(3)));
            assert(y.skip(4) == base64_text(t.skip(3)));
            base64_is_injective(s.skip(3), t.skip(3));
            assert(s == seq![s[0], s[1], s[2]] + s.skip(3));
            assert(t == seq![t[0], t[1], t[2]] + t.skip(3));
        } else {
            assert(s =~= t);
        }
    }
}

// ---- PEM ----

/// `s` in lines of at most 64 characters, each ended by a line feed.
pub open spec fn wrapped(s: Seq<char>) -> Seq<char>
    decreases s.len(),
{
    if s.len() == 0 {
        seq![]
    } else if s.len() <= 64 {
        s.push('\n')
    } else {
        s.take(64).push('\n') + wrapped(s.skip(64))
    }
}

/// The PEM form of a certificate.
pub open spec fn pem_text(der: Seq<u8>) -> Seq<char> {
    "-----BEGIN CERTIFICATE-----\n"@ + wrapped(base64_text(der)) + "-----END CERTIFICATE-----\n"@
}

/// Writes a certificate in PEM form.
pub fn der_to_pem(der: &[u8]) -> (r: String)
    ensures
        r@ == pem_text(der@),
{
    let encoded = base64_encode(der);
    let b64 = chars_of(encoded.as_str());
    let mut pem = String::from_str("-----BEGIN CERTIFICATE-----\n");
    let ghost head = pem@;
    let mut from: usize = 0;
    assert(b64@.skip(0) == b64@);
    assert(head + wrapped(b64@) == pem@ + wrapped(b64@.skip(0)));
    while from < b64.len()
        invariant
            from <= b64@.len(),
            pem@ + wrapped(b64@.skip(from as int)) == head + wrapped(b64@),
        decreases b64@.len() - from,
    {
        let ghost before = pem@;
        let ghost rest = b64@.skip(from as int);
        let mut end: usize = b64.len();
        if b64.len() - from > 64 {
            end = from + 64;
        }
        let line = slice_subrange(b64.as_slice(), from, end);
        pem.append(string_of(line).as_str());
        pem.push('\n');
        assert(pem@ == before + line@.push('\n'));
        from = end;
        proof {
            if rest.len() > 64 {
                assert(line@ == rest.take(64));
                assert(b64@.skip(from as int) == rest.skip(64));
            } else {
                assert(line@ == rest);
                assert(b64@.skip(from as int) == Seq::<char>::empty());
            }
        }
        assert(pem@ + wrapped(b64@.skip(from as int)) == before + (line@.push('\n') + wrapped(
            b64@.skip(from as int),
        )));
        assert(line@.push('\n') + wrapped(b64@.skip(from as int)) == wrapped(rest));
    }
    assert(b64@.skip(from as int) == Seq::<char>::empty());
    assert(pem@ == head + wrapped(b64@));
    pem.append("-----END CERTIFICATE-----\n");
    pem
}

// ---- laws ----

/// Different bytes have different hexadecimal texts, of two digits a byte.
pub proof fn hexadecimal_tells_bytes_apart(a: Seq<u8>, b: Seq<u8>)
    requires
        hex_text(a) == hex_text(b),
    ensures
        a == b,
        hex_text(a).len() == 2 * a.len(),
{
    let x = hex_text(a);
    let y = hex_text(b);
    assert(x.len() == 2 * a.len() && y.len() == 2 * b.len());
    assert forall|i: int| 0 <= i < a.len() implies a[i] == b[i] by {
        assert((2 * i) / 2 == i && (2 * i + 1) / 2 == i && (2 * i) % 2 == 0 && (2 * i + 1) % 2
            == 1);
        assert(x[2 * i] == y[2 * i] && x[2 * i + 1] == y[2 * i + 1]);
        assert(x[2 * i] == hex_digit(a[i] as int / 16));
        assert(y[2 * i] == hex_digit(b[i] as int / 16));
        assert(x[2 * i + 1] == hex_digit(a[i] as int % 16));
        assert(y[2 * i + 1] == hex_digit(b[i] as int % 16));
        lemma_hex_digit_injective(a[i] as int / 16, b[i] as int / 16);
        lemma_hex_digit_injective(a[i] as int % 16, b[i] as int % 16);
    }
    assert(a =~= b);
}

proof fn lemma_hex_digit_injective(m: int, n: int)
    requires
        0 <= m < 16,
        0 <= n < 16,
        hex_digit(m) == hex_digit(n),
    ensures
        m == n,
{
}

/// Wrapping a text only breaks it into lines: put together, the lines are the
/// text. Each is of 64 characters, but for the last, which may be shorter.
pub proof fn wrapping_breaks_lines_only(s: Seq<char>, i: int)
    requires
        text::lacks(s, '\n'),
        text::lacks(s, '\r'),
    ensures
        ({
            let rows = text::lines(wrapped(s));
            &&& text::joined(rows, Seq::<char>::empty()) == s
            &&& 0 <= i < rows.len() ==> 0 < rows[i].len() <= 64
            &&& 0 <= i < rows.len() - 1 ==> rows[i].len() == 64
        }),
    decreases s.len(),
{
    let none = Seq::<char>::empty();
    let rows = text::lines(wrapped(s));
    if s.len() == 0 {
        text::lines_end_with_line_feeds(s, s);
        assert(wrapped(s) =~= none);
        assert(text::joined(rows, none) =~= s);
    } else if s.len() <= 64 {
        assert(wrapped(s) =~= s + seq!['\n'] + none);
        text::lines_end_with_line_feeds(s, none);
        assert(text::lines(none) =~= Seq::<Seq<char>>::empty());
        assert(rows =~= seq![s]);
        text::rows_are_joined(rows, rows, s, none);
    } else {
        let line = s.take(64);
        let rest = s.skip(64);
        assert forall|j: int| 0 <= j < line.len() implies #[trigger] line[j] != '\n' && line[j]
            != '\r' by {
            assert(line[j] == s[j]);
        }
        assert forall|j: int| 0 <= j < rest.len() implies #[trigger] rest[j] != '\n' && rest[j]
            != '\r' by {
            assert(rest[j] == s[j + 64]);
        }
        assert(wrapped(s) =~= line + seq!['\n'] + wrapped(rest));
        text::lines_end_with_line_feeds(line, wrapped(rest));
        let more = text::lines(wrapped(rest));
        assert(rows =~= seq![line] + more);
        wrapping_breaks_lines_only(rest, i - 1);
        assert(more.len() > 0) by {
            if more.len() == 0 {
                assert(text::joined(more, none) =~= none);
            }
        }
        text::rows_are_joined(seq![line], more, line, none);
        assert(line + none + rest =~= s);
        if i > 0 && i < rows.len() {
            assert(rows[i] == more[i - 1]);
        }
    }
}

proof fn lemma_base64_lacks_line_ends(s: Seq<u8>)
    ensures
        text::lacks(base64_text(s), '\n'),
        text::lacks(base64_text(s), '\r'),
    decreases s.len(),
{
    if s.len() > 3 {
        lemma_base64_lacks_line_ends(s.skip(3));
        let rest = base64_text(s.skip(3));
        let all = base64_text(s);
        assert forall|i: int| 0 <= i < all.len() implies #[trigger] all[i] != '\n' && all[i]
            != '\r' by {
            if i >= 4 {
                assert(all[i] == rest[i - 4]);
            }
        }
    }
}

/// The PEM form of a certificate is a first line, the base64 text of the
/// certificate in lines, and a last line. So it tells the certificate.
pub proof fn pem_holds_the_certificate(der: Seq<u8>)
    ensures
        ({
            let rows = text::lines(pem_text(der));
            &&& rows.len() >= 2
            &&& rows[0] == "-----BEGIN CERTIFICATE-----"@
            &&& rows.last() == "-----END CERTIFICATE-----"@
            &&& text::joined(rows.subrange(1, rows.len() - 1), Seq::<char>::empty()) == base64_text(
                der,
            )
        }),
{
    reveal_strlit("-----BEGIN CERTIFICATE-----");
    reveal_strlit("-----BEGIN CERTIFICATE-----\n");
    reveal_strlit("-----END CERTIFICATE-----");
    reveal_strlit("-----END CERTIFICATE-----\n");
    let first = "-----BEGIN CERTIFICATE-----"@;
    let last = "-----END CERTIFICATE-----"@;
    let none = Seq::<char>::empty();
    let body = wrapped(base64_text(der));
    lemma_base64_lacks_line_ends(der);
    wrapping_breaks_lines_only(base64_text(der), 0);
    assert("-----BEGIN CERTIFICATE-----\n"@ =~= first + seq!['\n']);
    assert("-----END CERTIFICATE-----\n"@ =~= last + seq!['\n']);
    let tail = last + seq!['\n'];
    assert(pem_text(der) =~= first + seq!['\n'] + (body + tail));
    text::lines_end_with_line_feeds(first, body + tail);
    lemma_lines_after_wrapped(base64_text(der), tail);
    assert(tail =~= last + seq!['\n'] + none);
    text::lines_end_with_line_feeds(last, none);
    assert(text::lines(tail) =~= seq![last]);
    let rows = text::lines(pem_text(der));
    assert(rows =~= seq![first] + text::lines(body) + seq![last]);
    assert(rows.subrange(1, rows.len() - 1) =~= text::lines(body));
}

proof fn lemma_lines_after_wrapped(s: Seq<char>, tail: Seq<char>)
    requires
        text::lacks(s, '\n'),
        text::lacks(s, '\r'),
    ensures
        text::lines(wrapped(s) + tail) == text::lines(wrapped(s)) + text::lines(tail),
    decreases s.len(),
{
    let none = Seq::<char>::empty();
    if s.len() == 0 {
        assert(wrapped(s) + tail =~= tail);
        text::lines_end_with_line_feeds(s, s);
        assert(wrapped(s) =~= none);
        assert(text::lines(wrapped(s)) + text::lines(tail) =~= text::lines(tail));
    } else if s.len() <= 64 {
        assert(wrapped(s) + tail =~= s + seq!['\n'] + tail);
        assert(wrapped(s) =~= s + seq!['\n'] + none);
        text::lines_end_with_line_feeds(s, tail);
        text::lines_end_with_line_feeds(s, none);
        assert(text::lines(none) =~= Seq::<Seq<char>>::empty());
        assert(text::lines(wrapped(s)) =~= seq![s]);
    } else {
        let line = s.take(64);
        let rest = s.skip(64);
        assert forall|j: int| 0 <= j < line.len() implies #[trigger] line[j] != '\n' && line[j]
            != '\r' by {
            assert(line[j] == s[j]);
        }
        assert forall|j: int| 0 <= j < rest.len() implies #[trigger] rest[j] != '\n' && rest[j]
            != '\r' by {
            assert(rest[j] == s[j + 64]);
        }
        assert(wrapped(s) =~= line + seq!['\n'] + wrapped(rest));
        assert(wrapped(s) + tail =~= line + seq!['\n'] + (wrapped(rest) + tail));
        text::lines_end_with_line_feeds(line, wrapped(rest));
        text::lines_end_with_line_feeds(line, wrapped(rest) + tail);
        lemma_lines_after_wrapped(rest, tail);
        assert(text::lines(wrapped(s) + tail) =~= text::lines(wrapped(s)) + text::lines(tail));
    }
}

} // verus!
