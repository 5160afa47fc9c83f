//! Public URLs for stored objects: percent-encoding of the key, static
//! tokens, and HMAC-signed tokens with an expiry.

use vstd::prelude::*;
use vstd::utf8::{char_is_scalar, encode_scalar, encode_utf8, encode_utf8_decode_utf8};

use crate::error::{outcome, Failure, PipelineError};
use crate::text::{
    decimal, decimal_string, digit, is_digit, lemma_decimal_digits, lemma_decimal_injective,
    push_char,
};

verus! {

/// Bytes that a URL path carries unescaped: ASCII letters and digits and
/// `-`, `.`, `_`, `~`.
pub open spec fn is_unreserved(b: u8) -> bool {
    ||| 0x30 <= b <= 0x39
    ||| 0x41 <= b <= 0x5a
    ||| 0x61 <= b <= 0x7a
    ||| b == 0x2d
    ||| b == 0x2e
    ||| b == 0x5f
    ||| b == 0x7e
}

/// The upper-case hexadecimal digit of `n`, for `n < 16`.
pub open spec fn hex_upper(n: nat) -> char {
    if n < 10 {
        digit(n)
    } else {
        ((0x37 + n) as u8) as char
    }
}

/// The escape of one byte: `%` and two upper-case hexadecimal digits.
pub open spec fn escaped(b: u8) -> Seq<char> {
    seq!['%', hex_upper((b / 16) as nat), hex_upper((b % 16) as nat)]
}

/// What one byte of an object key becomes in a URL path.
pub open spec fn encoded_byte(b: u8) -> Seq<char> {
    if is_unreserved(b) || b == 0x2f {
        seq![b as char]
    } else {
        escaped(b)
    }
}

/// The URL form of a run of key bytes, byte by byte.
pub open spec fn encoded_bytes(bytes: Seq<u8>) -> Seq<char>
    decreases bytes.len(),
{
    if bytes.len() == 0 {
        Seq::empty()
    } else {
        encoded_bytes(bytes.drop_last()) + encoded_byte(bytes.last())
    }
}

/// The URL form of an object key. Each `/`-delimited segment is escaped on
/// its own and the separators stay: every byte of the key's UTF-8 encoding
/// is escaped but `/` and the unreserved bytes.
pub open spec fn encoded_key(key: Seq<char>) -> Seq<char> {
    encoded_bytes(encode_utf8(key))
}

/// `percent_encoding::percent_encode_byte`: the three-character escape of
/// any byte, from the crate's table of `%00` to `%FF`.
pub assume_specification[ percent_encoding::percent_encode_byte ](byte: u8) -> (text: &'static str)
    ensures
        text@ == escaped(byte),
;

fn unreserved(b: u8) -> (r: bool)
    ensures
        r == is_unreserved(b),
{
    (0x30 <= b && b <= 0x39) || (0x41 <= b && b <= 0x5a) || (0x61 <= b && b <= 0x7a) || b == 0x2d
        || b == 0x2e || b == 0x5f || b == 0x7e
}

/// Percent-encodes an object key for a URL path, keeping `/` as the
/// separator. The key used for storage is never encoded; only this form is.
pub fn encode_object_key(object_key: &str) -> (encoded: String)
    ensures
        encoded@ == encoded_key(object_key@),
{
    let bytes = object_key.as_bytes();
    let mut encoded = String::new();
    let mut i: usize = 0;
    while i < bytes.len()
        invariant
            i <= bytes.len(),
            encoded@ == encoded_bytes(bytes@.take(i as int)),
        decreases bytes.len() - i,
    {
        let b = bytes[i];
        if b == 0x2f || unreserved(b) {
            push_char(&mut encoded, b as char);
        } else {
            encoded.append(percent_encoding::percent_encode_byte(b));
        }
        proof {
            let next = bytes@.take(i + 1);
            assert(next.drop_last() =~= bytes@.take(i as int));
        }
        i = i + 1;
    }
    assert(bytes@.take(i as int) =~= bytes@);
    encoded
}

/// What one byte of a single path segment becomes: as in a key, but that
/// a `/` inside a segment would be escaped.
pub open spec fn encoded_segment_byte(b: u8) -> Seq<char> {
    if is_unreserved(b) {
        seq![b as char]
    } else {
        escaped(b)
    }
}

/// The URL form of a run of bytes of one segment.
pub open spec fn encoded_segment_bytes(bytes: Seq<u8>) -> Seq<char>
    decreases bytes.len(),
{
    if bytes.len() == 0 {
        Seq::empty()
    } else {
        encoded_segment_bytes(bytes.drop_last()) + encoded_segment_byte(bytes.last())
    }
}

/// The URL form of one path segment: its UTF-8 bytes, each escaped unless
/// unreserved.
pub open spec fn encoded_segment(segment: Seq<char>) -> Seq<char> {
    encoded_segment_bytes(encode_utf8(segment))
}

proof fn lemma_encoded_bytes_concat(x: Seq<u8>, y: Seq<u8>)
    ensures
        encoded_bytes(x + y) == encoded_bytes(x) + encoded_bytes(y),
    decreases y.len(),
{
    if y.len() > 0 {
        assert((x + y).drop_last() =~= x + y.drop_last());
        lemma_encoded_bytes_concat(x, y.drop_last());
    }
}

proof fn lemma_encode_utf8_concat(a: Seq<char>, b: Seq<char>)
    ensures
        encode_utf8(a + b) == encode_utf8(a) + encode_utf8(b),
    decreases a.len(),
{
    if a.len() > 0 {
        assert((a + b).drop_first() =~= a.drop_first() + b);
        lemma_encode_utf8_concat(a.drop_first(), b);
    }
}

/// Of the bytes that UTF-8 makes of a scalar, the one of a one-byte
/// encoding is the scalar itself and all others are 0x80 or above.
proof fn lemma_utf8_byte_ranges(v: u32)
    by (bit_vector)
    ensures
        v <= 0x7f ==> (v & 0x7F) as u8 as u32 == v,
        (0xC0u8 | ((v >> 6) & 0x1F) as u8) >= 0x80u8,
        (0xE0u8 | ((v >> 12) & 0x0F) as u8) >= 0x80u8,
        (0xF0u8 | ((v >> 18) & 0x7) as u8) >= 0x80u8,
        (0x80u8 | (v & 0x3F) as u8) >= 0x80u8,
        (0x80u8 | ((v >> 6) & 0x3F) as u8) >= 0x80u8,
        (0x80u8 | ((v >> 12) & 0x3F) as u8) >= 0x80u8,
{
}

/// Only the character `/` has the byte of `/` in its encoding.
proof fn lemma_slash_byte(c: char, j: int)
    requires
        0 <= j < encode_scalar(c as u32).len(),
        encode_scalar(c as u32)[j] == 0x2f,
    ensures
        c == '/',
{
    char_is_scalar(c);
    lemma_utf8_byte_ranges(c as u32);
}

proof fn lemma_no_slash_byte(segment: Seq<char>)
    requires
        !segment.contains('/'),
    ensures
        !encode_utf8(segment).contains(0x2f),
    decreases segment.len(),
{
    if segment.len() > 0 {
        let head = encode_scalar(segment[0] as u32);
        let tail = encode_utf8(segment.drop_first());
        assert(!segment.drop_first().contains('/')) by {
            assert forall|i: int| 0 <= i < segment.drop_first().len() implies segment.drop_first()[i]
                == segment[i + 1] by {}
        }
        lemma_no_slash_byte(segment.drop_first());
        assert forall|i: int| 0 <= i < (head + tail).len() implies (head + tail)[i] != 0x2f by {
            if i < head.len() && head[i] == 0x2f {
                lemma_slash_byte(segment[0], i);
            }
        }
    }
}

proof fn lemma_segment_bytes(bytes: Seq<u8>)
    requires
        !bytes.contains(0x2f),
    ensures
        encoded_bytes(bytes) == encoded_segment_bytes(bytes),
    decreases bytes.len(),
{
    if bytes.len() > 0 {
        assert(!bytes.drop_last().contains(0x2f)) by {
            assert forall|i: int| 0 <= i < bytes.drop_last().len() implies bytes.drop_last()[i]
                == bytes[i] by {}
        }
        lemma_segment_bytes(bytes.drop_last());
    }
}

/// A key without `/` is one segment, and is encoded as one.
pub proof fn lemma_single_segment(key: Seq<char>)
    requires
        !key.contains('/'),
    ensures
        encoded_key(key) == encoded_segment(key),
{
    lemma_no_slash_byte(key);
    lemma_segment_bytes(encode_utf8(key));
}

/// A key is encoded segment by segment: what stands before its first `/`
/// is encoded as a segment, the `/` stays, and the rest is encoded as a
/// key in turn.
pub proof fn lemma_encoded_by_segments(head: Seq<char>, rest: Seq<char>)
    requires
        !head.contains('/'),
    ensures
        encoded_key(head + seq!['/'] + rest) == encoded_segment(head) + seq!['/'] + encoded_key(
            rest,
        ),
{
    let slash = seq!['/'];
    lemma_encode_utf8_concat(head + slash, rest);
    lemma_encode_utf8_concat(head, slash);
    assert(encode_utf8(slash) =~= seq![0x2fu8]) by {
        assert(encode_utf8(slash.drop_first()) =~= Seq::<u8>::empty());
        lemma_utf8_byte_ranges('/' as u32);
    }
    lemma_encoded_bytes_concat(encode_utf8(head) + seq![0x2fu8], encode_utf8(rest));
    lemma_encoded_bytes_concat(encode_utf8(head), seq![0x2fu8]);
    assert(encoded_bytes(seq![0x2fu8]) =~= slash) by {
        assert(encoded_bytes(seq![0x2fu8].drop_last()) =~= Seq::<char>::empty());
    }
    lemma_single_segment(head);
}

/// Whether `c` may stand in the path of a URL as it is: an unreserved
/// character, the separator, or the `%` that begins an escape.
pub open spec fn is_path_char(c: char) -> bool {
    c == '/' || c == '%' || (c as u32 <= 0x7f && is_unreserved(c as u8))
}

proof fn lemma_hex_is_unreserved(n: nat)
    requires
        n < 16,
    ensures
        hex_upper(n) as u32 <= 0x7f,
        is_unreserved(hex_upper(n) as u8),
{
}

proof fn lemma_encoded_bytes_are_path_safe(bytes: Seq<u8>)
    ensures
        forall|i: int|
            0 <= i < encoded_bytes(bytes).len() ==> is_path_char(#[trigger] encoded_bytes(bytes)[i]),
    decreases bytes.len(),
{
    if bytes.len() > 0 {
        let b = bytes.last();
        let head = encoded_bytes(bytes.drop_last());
        let tail = encoded_byte(b);
        lemma_encoded_bytes_are_path_safe(bytes.drop_last());
        assert forall|j: int| 0 <= j < tail.len() implies is_path_char(#[trigger] tail[j]) by {
            lemma_hex_is_unreserved((b / 16) as nat);
            lemma_hex_is_unreserved((b % 16) as nat);
        }
        assert forall|i: int| 0 <= i < (head + tail).len() implies is_path_char(
            #[trigger] (head + tail)[i],
        ) by {
            if i >= head.len() {
                assert((head + tail)[i] == tail[i - head.len()]);
            }
        }
    }
}

/// An encoded key holds nothing but unreserved characters, separators and
/// escapes, whatever the key.
pub proof fn lemma_encoded_key_is_path_safe(key: Seq<char>)
    ensures
        forall|i: int| 0 <= i < encoded_key(key).len() ==> is_path_char(#[trigger] encoded_key(key)[i]),
{
    lemma_encoded_bytes_are_path_safe(encode_utf8(key));
}

/// The encoding of a run of bytes begins with the encoding of its first
/// byte.
proof fn lemma_encoded_bytes_first(bytes: Seq<u8>)
    requires
        bytes.len() > 0,
    ensures
        encoded_bytes(bytes) == encoded_byte(bytes[0]) + encoded_bytes(bytes.skip(1)),
{
    assert(bytes =~= seq![bytes[0]] + bytes.skip(1));
    lemma_encoded_bytes_concat(seq![bytes[0]], bytes.skip(1));
    assert(encoded_bytes(seq![bytes[0]].drop_last()) =~= Seq::<char>::empty());
    assert(encoded_bytes(seq![bytes[0]]) =~= encoded_byte(bytes[0]));
}

/// Different values below sixteen have different hexadecimal digits.
proof fn lemma_hex_injective(m: nat, n: nat)
    requires
        m < 16,
        n < 16,
        hex_upper(m) == hex_upper(n),
    ensures
        m == n,
{
    assert(hex_upper(m) as u32 == hex_upper(n) as u32);
}

proof fn lemma_encoded_bytes_injective(a: Seq<u8>, b: Seq<u8>)
    requires
        encoded_bytes(a) == encoded_bytes(b),
    ensures
        a == b,
    decreases a.len(),
{
    if a.len() == 0 || b.len() == 0 {
        // An encoding is empty only for no bytes at all.
        if a.len() > 0 {
            lemma_encoded_bytes_first(a);
            assert(encoded_bytes(a).len() >= encoded_byte(a[0]).len() >= 1);
        }
        if b.len() > 0 {
            lemma_encoded_bytes_first(b);
            assert(encoded_bytes(b).len() >= encoded_byte(b[0]).len() >= 1);
        }
        assert(a =~= b);
    } else {
        lemma_encoded_bytes_first(a);
        lemma_encoded_bytes_first(b);
        let x = encoded_byte(a[0]);
        let y = encoded_byte(b[0]);
        let rest_a = encoded_bytes(a.skip(1));
        let rest_b = encoded_bytes(b.skip(1));
        // Only an escape begins with `%`, so both first bytes are escaped or neither is.
        assert((x + rest_a)[0] == x[0]);
        assert((y + rest_b)[0] == y[0]);
        let plain_a = is_unreserved(a[0]) || a[0] == 0x2f;
        let plain_b = is_unreserved(b[0]) || b[0] == 0x2f;
        assert(plain_a ==> x[0] != '%') by {
            assert((a[0] as char) as u32 == a[0] as u32);
        }
        assert(plain_b ==> y[0] != '%') by {
            assert((b[0] as char) as u32 == b[0] as u32);
        }
        assert(plain_a == plain_b);
        if plain_a {
            assert((a[0] as char) as u32 == a[0] as u32);
            assert((b[0] as char) as u32 == b[0] as u32);
            assert(a[0] == b[0]);
        } else {
            assert((x + rest_a)[1] == x[1] && (x + rest_a)[2] == x[2]);
            assert((y + rest_b)[1] == y[1] && (y + rest_b)[2] == y[2]);
            lemma_hex_injective((a[0] / 16) as nat, (b[0] / 16) as nat);
            lemma_hex_injective((a[0] % 16) as nat, (b[0] % 16) as nat);
            assert(a[0] == b[0]);
        }
        assert(rest_a =~= (x + rest_a).skip(x.len() as int));
        assert(rest_b =~= (y + rest_b).skip(y.len() as int));
        lemma_encoded_bytes_injective(a.skip(1), b.skip(1));
        assert(a =~= seq![a[0]] + a.skip(1));
        assert(b =~= seq![b[0]] + b.skip(1));
    }
}

/// Different keys have different encodings, so a URL names one object.
pub proof fn lemma_encoded_key_injective(key_a: Seq<char>, key_b: Seq<char>)
    requires
        encoded_key(key_a) == encoded_key(key_b),
    ensures
        key_a == key_b,
{
    lemma_encoded_bytes_injective(encode_utf8(key_a), encode_utf8(key_b));
    encode_utf8_decode_utf8(key_a);
    encode_utf8_decode_utf8(key_b);
}

/// The HMAC-SHA256 tag of `message` under `key`, as RFC 2104 and FIPS 180-4
/// define it.
pub uninterp spec fn hmac_sha256(key: Seq<u8>, message: Seq<u8>) -> Seq<u8>;

/// `Hmac<Sha256>` of the `hmac` and `sha2` crates, keyed with
/// `new_from_slice`, fed with `update` and closed with `finalize`: the tag
/// is the function of key and message named above, and 32 bytes long. A
/// key of any length is accepted.
#[verifier::external_body]
fn hmac_sha256_tag(key: &[u8], message: &[u8]) -> (tag: Vec<u8>)
    ensures
        tag@ == hmac_sha256(key@, message@),
        tag@.len() == 32,
{
    let mut mac = <hmac::Hmac<sha2::Sha256> as hmac::Mac>::new_from_slice(key)
        .expect("HMAC can take key of any size");
    hmac::Mac::update(&mut mac, message);
    hmac::Mac::finalize(mac).into_bytes().to_vec()
}

/// The character for the six-bit value `v` in the URL-safe base64
/// alphabet, for `v < 64`.
pub open spec fn base64url_char(v: nat) -> char {
    if v < 26 {
        ((0x41 + v) as u8) as char
    } else if v < 52 {
        ((0x47 + v) as u8) as char
    } else if v < 62 {
        ((v - 4) as u8) as char
    } else if v == 62 {
        '-'
    } else {
        '_'
    }
}

/// Base64 in the URL-safe alphabet without padding (RFC 4648, section 5):
/// three bytes give four characters, a last single byte two, a last pair
/// three.
pub open spec fn base64url(bytes: Seq<u8>) -> Seq<char>
    decreases bytes.len(),
{
    if bytes.len() == 0 {
        Seq::empty()
    } else if bytes.len() == 1 {
        seq![
            base64url_char((bytes[0] / 4) as nat),
            base64url_char(((bytes[0] % 4) * 16) as nat),
        ]
    } else if bytes.len() == 2 {
        seq![
            base64url_char((bytes[0] / 4) as nat),
            base64url_char(((bytes[0] % 4) * 16 + bytes[1] / 16) as nat),
            base64url_char(((bytes[1] % 16) * 4) as nat),
        ]
    } else {
        seq![
            base64url_char((bytes[0] / 4) as nat),
            base64url_char(((bytes[0] % 4) * 16 + bytes[1] / 16) as nat),
            base64url_char(((bytes[1] % 16) * 4 + bytes[2] / 64) as nat),
            base64url_char((bytes[2] % 64) as nat),
        ] + base64url(bytes.skip(3))
    }
}

/// `URL_SAFE_NO_PAD.encode` of the `base64` crate: the unpadded URL-safe
/// encoding stated above. The crate fails where the encoded length does
/// not fit in `usize`; such inputs are left out.
#[verifier::external_body]
fn base64url_encode(bytes: &[u8]) -> (text: String)
    requires
        bytes@.len() / 3 * 4 + 3 <= usize::MAX,
    ensures
        text@ == base64url(bytes@),
{
    base64::Engine::encode(&base64::engine::general_purpose::URL_SAFE_NO_PAD, bytes)
}

/// The text that is signed for `path` and an expiry: the path, a colon and
/// the expiry in decimal Unix seconds.
pub open spec fn signing_message(path: Seq<char>, expires: u64) -> Seq<char> {
    path + seq![':'] + decimal(expires as nat)
}

/// The token for `path` and `expires` under `secret`: the HMAC-SHA256 tag
/// of the signing message, keyed by the secret's bytes, in unpadded
/// URL-safe base64.
pub open spec fn hmac_token(path: Seq<char>, expires: u64, secret: Seq<char>) -> Seq<char> {
    base64url(hmac_sha256(encode_utf8(secret), encode_utf8(signing_message(path, expires))))
}

/// Signs `path` with an expiry. The token is a function of the three
/// arguments alone, so equal arguments always give the same token; it is
/// the 43 characters that a tag of 32 bytes makes.
pub fn generate_hmac_token(path: &str, expires: u64, secret: &str) -> (token: String)
    ensures
        token@ == hmac_token(path@, expires, secret@),
        token@.len() == 43,
{
    let mut message = path.to_owned();
    push_char(&mut message, ':');
    let seconds = decimal_string(expires);
    message.append(seconds.as_str());
    assert(message@ =~= signing_message(path@, expires));
    let tag = hmac_sha256_tag(secret.as_bytes(), message.as_str().as_bytes());
    proof {
        lemma_base64url_len(tag@);
    }
    base64url_encode(tag.as_slice())
}

/// Different six-bit values have different characters.
proof fn lemma_base64url_char_injective(u: nat, v: nat)
    requires
        u < 64,
        v < 64,
        base64url_char(u) == base64url_char(v),
    ensures
        u == v,
{
    assert(base64url_char(u) as u32 == base64url_char(v) as u32);
}

/// The length of an encoding: four characters for every three bytes, two
/// for a last single byte, three for a last pair.
proof fn lemma_base64url_len(bytes: Seq<u8>)
    ensures
        base64url(bytes).len() == 4 * (bytes.len() / 3) + if bytes.len() % 3 == 0 {
            0nat
        } else {
            bytes.len() % 3 + 1
        },
    decreases bytes.len(),
{
    if bytes.len() >= 3 {
        lemma_base64url_len(bytes.skip(3));
    }
}

/// The encoding loses nothing: different byte strings have different
/// encodings.
pub proof fn lemma_base64url_injective(a: Seq<u8>, b: Seq<u8>)
    requires
        base64url(a) == base64url(b),
    ensures
        a == b,
    decreases a.len(),
{
    lemma_base64url_len(a);
    lemma_base64url_len(b);
    assert(a.len() == b.len());
    let x = base64url(a);
    let y = base64url(b);
    if a.len() == 0 {
        assert(a =~= b);
    } else {
        assert(x[0] == y[0] && x[1] == y[1]);
        if a.len() == 1 {
            lemma_base64url_char_injective((a[0] / 4) as nat, (b[0] / 4) as nat);
            lemma_base64url_char_injective(((a[0] % 4) * 16) as nat, ((b[0] % 4) * 16) as nat);
            assert(a =~= b);
        } else {
            assert(x[2] == y[2]);
            lemma_base64url_char_injective((a[0] / 4) as nat, (b[0] / 4) as nat);
            lemma_base64url_char_injective(
                ((a[0] % 4) * 16 + a[1] / 16) as nat,
                ((b[0] % 4) * 16 + b[1] / 16) as nat,
            );
            if a.len() == 2 {
                lemma_base64url_char_injective(
                    ((a[1] % 16) * 4) as nat,
                    ((b[1] % 16) * 4) as nat,
                );
                assert(a =~= b);
            } else {
                assert(x[3] == y[3]);
                lemma_base64url_char_injective(
                    ((a[1] % 16) * 4 + a[2] / 64) as nat,
                    ((b[1] % 16) * 4 + b[2] / 64) as nat,
                );
                lemma_base64url_char_injective((a[2] % 64) as nat, (b[2] % 64) as nat);
                assert(x.skip(4) =~= base64url(a.skip(3)));
                assert(y.skip(4) =~= base64url(b.skip(3)));
                lemma_base64url_injective(a.skip(3), b.skip(3));
                assert(a =~= b) by {
                    assert forall|i: int| 0 <= i < a.len() implies a[i] == b[i] by {
                        if i >= 3 {
                            assert(a.skip(3)[i - 3] == b.skip(3)[i - 3]);
                        }
                    }
                }
            }
        }
    }
}

/// A signing message names one path and one expiry: two requests are
/// signed over the same text only where both agree.
pub proof fn lemma_signing_message_injective(
    path_a: Seq<char>,
    expires_a: u64,
    path_b: Seq<char>,
    expires_b: u64,
)
    requires
        signing_message(path_a, expires_a) == signing_message(path_b, expires_b),
    ensures
        path_a == path_b,
        expires_a == expires_b,
{
    let a = signing_message(path_a, expires_a);
    let b = signing_message(path_b, expires_b);
    let da = decimal(expires_a as nat);
    let db = decimal(expires_b as nat);
    lemma_decimal_digits(expires_a as nat);
    lemma_decimal_digits(expires_b as nat);
    assert(a.len() == path_a.len() + 1 + da.len());
    assert(b.len() == path_b.len() + 1 + db.len());
    // The colon of one message cannot fall among the digits of the other.
    if path_a.len() < path_b.len() {
        let k = path_b.len() as int;
        assert(b[k] == ':');
        assert(a[k] == da[k - path_a.len() - 1]);
        assert(is_digit(da[k - path_a.len() - 1]));
    } else if path_b.len() < path_a.len() {
        let k = path_a.len() as int;
        assert(a[k] == ':');
        assert(b[k] == db[k - path_b.len() - 1]);
        assert(is_digit(db[k - path_b.len() - 1]));
    }
    assert(path_a.len() == path_b.len());
    assert(path_a =~= path_b) by {
        assert forall|i: int| 0 <= i < path_a.len() implies path_a[i] == path_b[i] by {
            assert(a[i] == path_a[i]);
            assert(b[i] == path_b[i]);
        }
    }
    assert(da =~= db) by {
        assert forall|i: int| 0 <= i < da.len() implies da[i] == db[i] by {
            assert(a[path_a.len() + 1 + i] == da[i]);
            assert(b[path_b.len() + 1 + i] == db[i]);
        }
    }
    lemma_decimal_injective(expires_a as nat, expires_b as nat);
}

/// Whether HMAC-SHA256 gives one tag for two different pairs of key and
/// message.
pub open spec fn tags_collide(
    key_a: Seq<u8>,
    message_a: Seq<u8>,
    key_b: Seq<u8>,
    message_b: Seq<u8>,
) -> bool {
    (key_a != key_b || message_a != message_b) && hmac_sha256(key_a, message_a) == hmac_sha256(
        key_b,
        message_b,
    )
}

/// A token changes with each of its three inputs: for a different path,
/// a different expiry or a different secret the token differs, unless
/// HMAC-SHA256 gives one tag for the two pairs of key and message that
/// are signed. So a signature cannot be carried over to another path or
/// a later expiry, nor made under another secret, short of such a
/// collision. That the MAC has none within reach is what it is trusted
/// for; it is not proved here, and cannot be.
pub proof fn lemma_tokens_differ_unless_tags_collide(
    path_a: Seq<char>,
    expires_a: u64,
    secret_a: Seq<char>,
    path_b: Seq<char>,
    expires_b: u64,
    secret_b: Seq<char>,
)
    requires
        path_a != path_b || expires_a != expires_b || secret_a != secret_b,
    ensures
        hmac_token(path_a, expires_a, secret_a) != hmac_token(path_b, expires_b, secret_b)
            || tags_collide(
            encode_utf8(secret_a),
            encode_utf8(signing_message(path_a, expires_a)),
            encode_utf8(secret_b),
            encode_utf8(signing_message(path_b, expires_b)),
        ),
{
    encode_utf8_decode_utf8(secret_a);
    encode_utf8_decode_utf8(secret_b);
    encode_utf8_decode_utf8(signing_message(path_a, expires_a));
    encode_utf8_decode_utf8(signing_message(path_b, expires_b));
    if signing_message(path_a, expires_a) == signing_message(path_b, expires_b) {
        lemma_signing_message_injective(path_a, expires_a, path_b, expires_b);
    }
    if hmac_token(path_a, expires_a, secret_a) == hmac_token(path_b, expires_b, secret_b) {
        lemma_base64url_injective(
            hmac_sha256(encode_utf8(secret_a), encode_utf8(signing_message(path_a, expires_a))),
            hmac_sha256(encode_utf8(secret_b), encode_utf8(signing_message(path_b, expires_b))),
        );
    }
}

/// How a URL is authorised.
#[derive(Debug, Clone, Copy, PartialEq, Eq)]
pub enum TokenMode {
    /// A fixed per-folder token, appended as it is.
    Static,
    /// A signature over path and expiry, where an expiry is asked for.
    Dynamic,
}

/// `https://<domain>/<encoded key>`.
pub open spec fn plain_url(domain: Seq<char>, object_key: Seq<char>) -> Seq<char> {
    "https://"@ + domain + seq!['/'] + encoded_key(object_key)
}

/// The plain URL with `?token=<token>`.
pub open spec fn static_url(domain: Seq<char>, object_key: Seq<char>, token: Seq<char>) -> Seq<
    char,
> {
    plain_url(domain, object_key) + "?token="@ + token
}

/// The plain URL with `?token=<signature>&expires=<expires>`, where the
/// signature is over the request path `/<object key>`, unencoded.
pub open spec fn signed_url(
    domain: Seq<char>,
    object_key: Seq<char>,
    secret: Seq<char>,
    expires: u64,
) -> Seq<char> {
    plain_url(domain, object_key) + "?token="@ + hmac_token(
        seq!['/'] + object_key,
        expires,
        secret,
    ) + "&expires="@ + decimal(expires as nat)
}

/// The URL that is handed out for an object, or why there is none.
pub open spec fn url_for(
    domain: Seq<char>,
    object_key: Seq<char>,
    mode: TokenMode,
    static_token: Seq<char>,
    ttl: Option<u64>,
    token_secret: Seq<char>,
    now: u64,
) -> Result<Seq<char>, Failure> {
    match mode {
        TokenMode::Dynamic => match ttl {
            Some(ttl) => if token_secret.len() == 0 {
                Err(Failure::MissingSigningSecret)
            } else {
                Ok(signed_url(domain, object_key, token_secret, (now + ttl) as u64))
            },
            None => Ok(plain_url(domain, object_key)),
        },
        TokenMode::Static => if static_token.len() == 0 {
            Ok(plain_url(domain, object_key))
        } else {
            Ok(static_url(domain, object_key, static_token))
        },
    }
}

fn plain_url_string(domain: &str, object_key: &str) -> (url: String)
    ensures
        url@ == plain_url(domain@, object_key@),
{
    let mut url = "https://".to_owned();
    url.append(domain);
    push_char(&mut url, '/');
    let encoded = encode_object_key(object_key);
    url.append(encoded.as_str());
    url
}

/// Builds the URL for an object. In dynamic mode with a time-to-live the
/// URL is signed and expires `ttl` seconds after `now`, and a signing
/// secret must be stored; without a time-to-live it carries no token. In
/// static mode a non-empty token is appended as it is. The signing secret
/// itself never enters the URL, only the signature made with it.
pub fn build_url(
    domain: &str,
    object_key: &str,
    mode: TokenMode,
    static_token: &str,
    ttl: Option<u64>,
    token_secret: &str,
    now: u64,
) -> (url: Result<String, PipelineError>)
    requires
        mode == TokenMode::Dynamic && token_secret@.len() > 0 ==> match ttl {
            Some(ttl) => now + ttl <= u64::MAX,
            None => true,
        },
    ensures
        outcome(url) == url_for(domain@, object_key@, mode, static_token@, ttl, token_secret@, now),
{
    let mut url = plain_url_string(domain, object_key);
    match mode {
        TokenMode::Dynamic => {
            match ttl {
                Some(ttl) => {
                    if token_secret.is_empty() {
                        return Err(PipelineError::MissingSigningSecret);
                    }
                    let expires = now + ttl;
                    let mut path = String::new();
                    push_char(&mut path, '/');
                    path.append(object_key);
                    let signature = generate_hmac_token(path.as_str(), expires, token_secret);
                    url.append("?token=");
                    url.append(signature.as_str());
                    url.append("&expires=");
                    let seconds = decimal_string(expires);
                    url.append(seconds.as_str());
                    Ok(url)
                },
                None => Ok(url),
            }
        },
        TokenMode::Static => {
            if static_token.is_empty() {
                Ok(url)
            } else {
                url.append("?token=");
                url.append(static_token);
                Ok(url)
            }
        },
    }
}

/// The signing secret bears on signed URLs only: a static or unsigned URL
/// is the same whatever secret is stored.
pub proof fn lemma_unsigned_url_ignores_secret(
    domain: Seq<char>,
    object_key: Seq<char>,
    mode: TokenMode,
    static_token: Seq<char>,
    ttl: Option<u64>,
    secret_a: Seq<char>,
    secret_b: Seq<char>,
    now: u64,
)
    requires
        mode == TokenMode::Static || ttl is None,
    ensures
        url_for(domain, object_key, mode, static_token, ttl, secret_a, now) == url_for(
            domain,
            object_key,
            mode,
            static_token,
            ttl,
            secret_b,
            now,
        ),
{
}

} // verus!
