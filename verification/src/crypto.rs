//! Certificate digests, device identifiers, the pairing code and the digest
//! by which a clipboard item is recognised.

use sha2::{Digest, Sha256};
use vstd::prelude::*;
use vstd::string::*;
use vstd::utf8::*;

use crate::bytes::push_bytes;
use crate::codec;
use crate::codec::hex_encode;
use crate::text;
use crate::text::digit_char;

verus! {

/// The SHA-256 digest of `data`.
pub uninterp spec fn sha256_digest(data: Seq<u8>) -> Seq<u8>;

/// `Sha256::digest`: the SHA-256 digest of the bytes, a function of them
/// alone. What the digest is stays unsaid.
#[verifier::external_body]
pub(crate) fn sha256(data: &[u8]) -> (r: [u8; 32])
    ensures
        r@ == sha256_digest(data@),
{
    Sha256::digest(data).into()
}

/// The digest of a certificate.
pub fn cert_sha256(der: &[u8]) -> (r: [u8; 32])
    ensures
        r@ == sha256_digest(der@),
{
    sha256(der)
}

pub open spec fn fingerprint_text(der: Seq<u8>) -> Seq<char> {
    codec::hex_text(sha256_digest(der))
}

/// The certificate digest in hexadecimal.
pub fn cert_fingerprint(der: &[u8]) -> (r: String)
    ensures
        r@ == fingerprint_text(der@),
{
    let hash = cert_sha256(der);
    hex_encode(hash.as_slice())
}

/// The device identifier: the first eight digest bytes in hexadecimal.
pub open spec fn device_id_text(der: Seq<u8>) -> Seq<char> {
    codec::hex_text(sha256_digest(der).take(8))
}

/// The identifier of the device that holds the certificate.
pub fn device_id_from_cert(der: &[u8]) -> (r: String)
    ensures
        r@ == device_id_text(der@),
{
    let hash = cert_sha256(der);
    let prefix = vstd::slice::slice_subrange(hash.as_slice(), 0, 8);
    assert(prefix@ == sha256_digest(der@).take(8));
    hex_encode(prefix)
}

/// Lexicographic order of byte strings.
pub open spec fn bytes_before(a: Seq<u8>, b: Seq<u8>) -> bool
    decreases a.len(),
{
    if b.len() == 0 {
        false
    } else if a.len() == 0 {
        true
    } else if a[0] != b[0] {
        a[0] < b[0]
    } else {
        bytes_before(a.drop_first(), b.drop_first())
    }
}

proof fn lemma_bytes_order(a: Seq<u8>, b: Seq<u8>)
    ensures
        bytes_before(a, b) ==> !bytes_before(b, a),
        !bytes_before(a, b) && !bytes_before(b, a) ==> a == b,
    decreases a.len(),
{
    if a.len() > 0 && b.len() > 0 && a[0] == b[0] {
        lemma_bytes_order(a.drop_first(), b.drop_first());
        if a.drop_first() == b.drop_first() {
            assert(a == seq![a[0]] + a.drop_first());
            assert(b == seq![b[0]] + b.drop_first());
        }
    } else if a.len() == 0 && b.len() == 0 {
        assert(a =~= b);
    }
}

proof fn lemma_bytes_before_after(a: Seq<u8>, b: Seq<u8>, n: int)
    requires
        0 <= n <= a.len(),
        n <= b.len(),
        forall|j: int| 0 <= j < n ==> a[j] == b[j],
    ensures
        bytes_before(a, b) == bytes_before(a.skip(n), b.skip(n)),
    decreases n,
{
    if n == 0 {
        assert(a.skip(0) == a);
        assert(b.skip(0) == b);
    } else {
        assert(a[0] == b[0]);
        assert forall|j: int| 0 <= j < n - 1 implies a.drop_first()[j] == b.drop_first()[j] by {
            assert(a[j + 1] == b[j + 1]);
        }
        lemma_bytes_before_after(a.drop_first(), b.drop_first(), n - 1);
        assert(a.drop_first().skip(n - 1) == a.skip(n));
        assert(b.drop_first().skip(n - 1) == b.skip(n));
    }
}

fn before(a: &[u8], b: &[u8]) -> (r: bool)
    ensures
        r == bytes_before(a@, b@),
{
    let mut i: usize = 0;
    while i < a.len() && i < b.len()
        invariant
            i <= a@.len(),
            i <= b@.len(),
            forall|j: int| 0 <= j < i ==> a@[j] == b@[j],
        decreases a@.len() - i,
    {
        if a[i] != b[i] {
            proof {
                lemma_bytes_before_after(a@, b@, i as int);
            }
            return a[i] < b[i];
        }
        i = i + 1;
    }
    proof {
        lemma_bytes_before_after(a@, b@, i as int);
    }
    i < b.len()
}

// ---- the pairing code ----

/// What the pairing code is computed from: a label and the two certificate
/// digests, the lesser one first.
pub open spec fn sas_input(ha: Seq<u8>, hb: Seq<u8>) -> Seq<u8> {
    if bytes_before(hb, ha) {
        encode_utf8("pastebridge-sas-v1"@) + hb + ha
    } else {
        encode_utf8("pastebridge-sas-v1"@) + ha + hb
    }
}

/// The number that the first four bytes of a digest denote, high byte first.
pub open spec fn be_u32(d: Seq<u8>) -> int {
    d[0] as int * 0x100_0000 + d[1] as int * 0x1_0000 + d[2] as int * 0x100 + d[3] as int
}

/// Four decimal digits.
pub open spec fn four_digits(n: int) -> Seq<char> {
    seq![text::digit(n / 1000), text::digit(n / 100 % 10), text::digit(n / 10 % 10), text::digit(n % 10)]
}

/// The code shown for a digest: eight decimal digits in two groups.
pub open spec fn sas_digits(d: Seq<u8>) -> Seq<char> {
    let n = be_u32(d) % 100_000_000;
    four_digits(n / 10_000).push(' ') + four_digits(n % 10_000)
}

/// The code that two certificates give.
pub open spec fn sas_text(cert_a: Seq<u8>, cert_b: Seq<u8>) -> Seq<char> {
    sas_digits(sha256_digest(sas_input(sha256_digest(cert_a), sha256_digest(cert_b))))
}

fn push_four_digits(out: &mut String, n: u32)
    requires
        n < 10_000,
    ensures
        final(out)@ == old(out)@ + four_digits(n as int),
{
    let ghost start = out@;
    out.push(digit_char((n / 1000) as u8));
    out.push(digit_char((n / 100 % 10) as u8));
    out.push(digit_char((n / 10 % 10) as u8));
    out.push(digit_char((n % 10) as u8));
    assert(out@ == start + four_digits(n as int));
}

/// Writes the code of a digest.
pub fn sas_code_of(digest: &[u8]) -> (r: String)
    requires
        digest@.len() >= 4,
    ensures
        r@ == sas_digits(digest@),
{
    let n: u32 = (digest[0] as u32) * 0x100_0000 + (digest[1] as u32) * 0x1_0000 + (digest[2] as u32)
        * 0x100 + (digest[3] as u32);
    let code: u32 = n % 100_000_000;
    let mut out = String::new();
    push_four_digits(&mut out, code / 10_000);
    out.push(' ');
    push_four_digits(&mut out, code % 10_000);
    assert(out@ == sas_digits(digest@));
    out
}

/// The eight-digit comparison code bound to both TLS certificates. Someone in
/// the middle ends TLS with other certificates; comparing the codes is how the
/// two users notice.
pub fn sas_code(cert_a: &[u8], cert_b: &[u8]) -> (r: String)
    ensures
        r@ == sas_text(cert_a@, cert_b@),
{
    let ha = cert_sha256(cert_a);
    let hb = cert_sha256(cert_b);
    let mut input: Vec<u8> = Vec::new();
    push_bytes(&mut input, "pastebridge-sas-v1".as_bytes());
    if before(hb.as_slice(), ha.as_slice()) {
        push_bytes(&mut input, hb.as_slice());
        push_bytes(&mut input, ha.as_slice());
    } else {
        push_bytes(&mut input, ha.as_slice());
        push_bytes(&mut input, hb.as_slice());
    }
    assert(input@ == sas_input(ha@, hb@));
    let out = sha256(input.as_slice());
    sas_code_of(out.as_slice())
}

/// Both computers show the same code, whichever certificate each takes first.
pub proof fn sas_is_symmetric(cert_a: Seq<u8>, cert_b: Seq<u8>)
    ensures
        sas_text(cert_a, cert_b) == sas_text(cert_b, cert_a),
{
    lemma_bytes_order(sha256_digest(cert_a), sha256_digest(cert_b));
}

/// A code is four digits, a space and four digits.
pub proof fn sas_has_eight_digits(d: Seq<u8>)
    requires
        d.len() >= 4,
    ensures
        sas_digits(d).len() == 9,
        sas_digits(d)[4] == ' ',
        forall|i: int| 0 <= i < 9 && i != 4 ==> text::is_digit(#[trigger] sas_digits(d)[i]),
{
}

// ---- clipboard digests ----

/// What a clipboard digest is computed from: the type, a zero byte, the
/// content.
pub open spec fn clip_hash_input(mime: Seq<char>, bytes: Seq<u8>) -> Seq<u8> {
    encode_utf8(mime).push(0) + bytes
}

pub open spec fn clip_hash_text(mime: Seq<char>, bytes: Seq<u8>) -> Seq<char> {
    codec::hex_text(sha256_digest(clip_hash_input(mime, bytes)))
}

/// The digest of a clipboard item's type and content, in hexadecimal.
pub fn clip_hash(mime: &str, bytes: &[u8]) -> (r: String)
    ensures
        r@ == clip_hash_text(mime@, bytes@),
{
    let mut input: Vec<u8> = Vec::new();
    push_bytes(&mut input, mime.as_bytes());
    input.push(0);
    push_bytes(&mut input, bytes);
    assert(input@ == clip_hash_input(mime@, bytes@));
    let out = sha256(input.as_slice());
    hex_encode(out.as_slice())
}

/// Clips of different type or content are hashed from different bytes, where
/// the bytes of their types hold no zero.
pub proof fn clip_hash_input_is_injective(
    m1: Seq<char>,
    b1: Seq<u8>,
    m2: Seq<char>,
    b2: Seq<u8>,
)
    requires
        forall|i: int| 0 <= i < encode_utf8(m1).len() ==> encode_utf8(m1)[i] != 0,
        forall|i: int| 0 <= i < encode_utf8(m2).len() ==> encode_utf8(m2)[i] != 0,
        clip_hash_input(m1, b1) == clip_hash_input(m2, b2),
    ensures
        m1 == m2,
        b1 == b2,
{
    let e1 = encode_utf8(m1);
    let e2 = encode_utf8(m2);
    let input = clip_hash_input(m1, b1);
    assert(input[e1.len() as int] == 0);
    assert(input[e2.len() as int] == 0) by {
        assert(clip_hash_input(m2, b2)[e2.len() as int] == 0);
    }
    if e1.len() < e2.len() {
        assert(clip_hash_input(m2, b2)[e1.len() as int] == e2[e1.len() as int]);
    }
    if e2.len() < e1.len() {
        assert(input[e2.len() as int] == e1[e2.len() as int]);
    }
    assert(input.take(e1.len() as int) =~= e1);
    assert(clip_hash_input(m2, b2).take(e2.len() as int) =~= e2);
    assert(input.skip(e1.len() as int + 1) =~= b1);
    assert(clip_hash_input(m2, b2).skip(e2.len() as int + 1) =~= b2);
    encode_utf8_decode_utf8(m1);
    encode_utf8_decode_utf8(m2);
}

/// The digest of a clip covers its type, a zero byte and all of its content, and
/// the fingerprint of a certificate all of the certificate.
pub proof fn digests_cover_everything(mime: Seq<char>, bytes: Seq<u8>, der: Seq<u8>)
    ensures
        clip_hash_text(mime, bytes) == codec::hex_text(
            sha256_digest(encode_utf8(mime) + seq![0u8] + bytes),
        ),
        fingerprint_text(der) == codec::hex_text(sha256_digest(der)),
{
    assert(clip_hash_input(mime, bytes) =~= encode_utf8(mime) + seq![0u8] + bytes);
}

/// The id of a device is the beginning of the fingerprint of its certificate, a
/// quarter of it.
pub proof fn device_id_begins_the_fingerprint(der: Seq<u8>)
    requires
        sha256_digest(der).len() == 32,
    ensures
        fingerprint_text(der).len() == 64,
        device_id_text(der).len() == 16,
        device_id_text(der) == fingerprint_text(der).take(16),
{
    let digest = sha256_digest(der);
    assert forall|i: int| 0 <= i < 16 implies device_id_text(der)[i] == fingerprint_text(
        der,
    )[i] by {
        assert(digest.take(8)[i / 2] == digest[i / 2]);
    }
    assert(device_id_text(der) =~= fingerprint_text(der).take(16));
}

/// Of two byte strings that differ after a common beginning, the one with the
/// smaller byte comes first. A byte string comes before its continuations.
pub proof fn first_byte_that_differs_decides(
    common: Seq<u8>,
    x: u8,
    a: Seq<u8>,
    y: u8,
    b: Seq<u8>,
)
    requires
        x != y,
    ensures
        bytes_before(common + seq![x] + a, common + seq![y] + b) == (x < y),
        bytes_before(common, common + seq![x] + a),
        !bytes_before(common, common),
{
    let left = common + seq![x] + a;
    let right = common + seq![y] + b;
    let n = common.len() as int;
    lemma_bytes_before_after(left, right, n);
    assert(left.skip(n)[0] == x && right.skip(n)[0] == y);
    lemma_bytes_before_after(common, left, n);
    assert(common.skip(n) =~= Seq::<u8>::empty());
    lemma_bytes_order(common, common);
}

/// The pairing code is computed from the label and both digests, the lesser one
/// first. Other digests, on either side, give another input.
pub proof fn pairing_code_is_bound_to_both(a: Seq<u8>, b: Seq<u8>, c: Seq<u8>, d: Seq<u8>)
    requires
        a.len() == 32,
        b.len() == 32,
        c.len() == 32,
        d.len() == 32,
    ensures
        bytes_before(a, b) ==> sas_input(a, b) == encode_utf8("pastebridge-sas-v1"@) + a + b,
        bytes_before(b, a) ==> sas_input(a, b) == encode_utf8("pastebridge-sas-v1"@) + b + a,
        sas_input(a, b) == sas_input(c, d) ==> (a == c && b == d) || (a == d && b == c),
{
    let label = encode_utf8("pastebridge-sas-v1"@);
    let n = label.len() as int;
    lemma_bytes_order(a, b);
    let x = sas_input(a, b);
    let y = sas_input(c, d);
    let (a1, a2) = if bytes_before(b, a) {
        (b, a)
    } else {
        (a, b)
    };
    let (c1, c2) = if bytes_before(d, c) {
        (d, c)
    } else {
        (c, d)
    };
    assert(x.subrange(n, n + 32) =~= a1);
    assert(x.subrange(n + 32, n + 64) =~= a2);
    assert(y.subrange(n, n + 32) =~= c1);
    assert(y.subrange(n + 32, n + 64) =~= c2);
}

/// The digits of the pairing code are the last eight decimal digits of the
/// number that the first four bytes of the digest write, the high byte first.
/// Later bytes do not matter.
pub proof fn pairing_code_shows_the_first_bytes(w: u8, x: u8, y: u8, z: u8, rest: Seq<u8>)
    ensures
        ({
            let shown = sas_digits(seq![w, x, y, z] + rest);
            let n = ((w * 256 + x) * 256 + y) * 256 + z;
            text::value(shown.take(4) + shown.skip(5)) == n % 100_000_000
        }),
{
    let d = seq![w, x, y, z] + rest;
    let shown = sas_digits(d);
    assert(d[0] == w && d[1] == x && d[2] == y && d[3] == z);
    let all = be_u32(d);
    assert(all == ((w * 256 + x) * 256 + y) * 256 + z);
    let n = all % 100_000_000;
    let high = n / 10_000;
    let low = n % 10_000;
    let digits = shown.take(4) + shown.skip(5);
    assert(digits =~= four_digits(high) + four_digits(low));
    assert(0 <= high < 10_000 && 0 <= low < 10_000);
    lemma_value_of_four(Seq::<char>::empty(), high);
    lemma_value_of_four(four_digits(high), low);
    assert(Seq::<char>::empty() + four_digits(high) =~= four_digits(high));
    assert(text::value(Seq::<char>::empty()) == 0);
}

proof fn lemma_value_of_four(before: Seq<char>, n: int)
    requires
        0 <= n < 10_000,
    ensures
        text::value(before + four_digits(n)) == 10_000 * text::value(before) + n,
{
    lemma_digits_of(n);
    lemma_value_of_digits(before, n / 1000, n / 100 % 10, n / 10 % 10, n % 10);
}

proof fn lemma_digits_of(n: int)
    requires
        0 <= n < 10_000,
    ensures
        0 <= n / 1000 < 10,
        n == 1000 * (n / 1000) + 100 * (n / 100 % 10) + 10 * (n / 10 % 10) + n % 10,
{
    let q = n / 10;
    let r = q / 10;
    assert(n == 10 * q + n % 10);
    assert(q == 10 * r + q % 10);
    assert(n / 100 == r);
    assert(r == 10 * (r / 10) + r % 10);
    assert(n / 1000 == r / 10);
}

proof fn lemma_value_of_digits(before: Seq<char>, a: int, b: int, c: int, d: int)
    requires
        0 <= a < 10,
        0 <= b < 10,
        0 <= c < 10,
        0 <= d < 10,
    ensures
        text::value(
            before + seq![text::digit(a), text::digit(b), text::digit(c), text::digit(d)],
        ) == 10_000 * text::value(before) + 1000 * a + 100 * b + 10 * c + d,
{
    let s1 = before.push(text::digit(a));
    let s2 = s1.push(text::digit(b));
    let s3 = s2.push(text::digit(c));
    let s4 = s3.push(text::digit(d));
    lemma_value_after_digit(before, a);
    lemma_value_after_digit(s1, b);
    lemma_value_after_digit(s2, c);
    lemma_value_after_digit(s3, d);
    assert(before + seq![text::digit(a), text::digit(b), text::digit(c), text::digit(d)] =~= s4);
}

proof fn lemma_value_after_digit(before: Seq<char>, d: int)
    requires
        0 <= d < 10,
    ensures
        text::value(before.push(text::digit(d))) == 10 * text::value(before) + d,
{
    let s = before.push(text::digit(d));
    assert(s.drop_last() =~= before);
    assert(s.last() as u32 - '0' as u32 == d);
}

} // verus!
