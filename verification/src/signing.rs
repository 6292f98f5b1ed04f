//! HMAC-SHA256 request signatures in lowercase hex, as Binance's
//! authenticated endpoints expect them.

use hmac::{Hmac, Mac};
use sha2::Sha256;
use vstd::prelude::*;
use vstd::utf8::encode_utf8;

verus! {

/// The HMAC-SHA256 tag (RFC 2104 over SHA-256) of `msg` under `key`.
pub uninterp spec fn hmac_sha256_tag(key: Seq<u8>, msg: Seq<u8>) -> Seq<u8>;

/// The lowercase hexadecimal digit of a value below 16.
pub open spec fn hex_digit(v: nat) -> char {
    if v < 10 {
        crate::decimal::digit_char(v)
    } else if v == 10 {
        'a'
    } else if v == 11 {
        'b'
    } else if v == 12 {
        'c'
    } else if v == 13 {
        'd'
    } else if v == 14 {
        'e'
    } else {
        'f'
    }
}

/// Whether `c` is one of `0`..=`9`, `a`..=`f`.
pub open spec fn is_hex_lower(c: char) -> bool {
    exists|v: nat| v < 16 && hex_digit(v) == c
}

/// Lowercase hex of a byte string: each byte becomes its high nibble's digit
/// followed by its low nibble's digit.
pub open spec fn hex_lower(bytes: Seq<u8>) -> Seq<char>
    decreases bytes.len(),
{
    if bytes.len() == 0 {
        Seq::empty()
    } else {
        seq![hex_digit((bytes[0] / 16) as nat), hex_digit((bytes[0] % 16) as nat)] + hex_lower(
            bytes.drop_first(),
        )
    }
}

/// The signature of `query` under `secret`: lowercase hex of the HMAC-SHA256
/// tag of the query's UTF-8 bytes keyed by the secret's UTF-8 bytes.
pub open spec fn signature_of(secret: Seq<char>, query: Seq<char>) -> Seq<char> {
    hex_lower(hmac_sha256_tag(encode_utf8(secret), encode_utf8(query)))
}

/// Calls `hmac::Hmac::<sha2::Sha256>` (`new_from_slice`, `update`,
/// `finalize`). Claimed: the result is the HMAC-SHA256 tag of `msg` under
/// `key`, 32 bytes long (SHA-256's output size). `new_from_slice` accepts a
/// key of any length (the key is padded or hashed to the block size), so it
/// does not fail.
#[verifier::external_body]
fn hmac_sha256(key: &[u8], msg: &[u8]) -> (tag: Vec<u8>)
    ensures
        tag@ == hmac_sha256_tag(key@, msg@),
        tag@.len() == 32,
{
    let mut mac = <Hmac<Sha256> as Mac>::new_from_slice(key).expect("HMAC takes any key length");
    mac.update(msg);
    mac.finalize().into_bytes().to_vec()
}

/// Calls `hex::encode`. Claimed: each byte becomes two characters from
/// `0123456789abcdef`, high nibble first, in the order of the bytes.
#[verifier::external_body]
fn hex_encode(data: &[u8]) -> (s: String)
    ensures
        s@ == hex_lower(data@),
{
    hex::encode(data)
}

/// Calls `chrono::Utc::now().timestamp_millis()`: milliseconds since the Unix
/// epoch on this machine's clock. It depends on the time of the call, so
/// nothing is claimed of the value.
#[verifier::external_body]
pub(crate) fn timestamp_ms() -> i64 {
    chrono::Utc::now().timestamp_millis()
}

proof fn lemma_hex_lower_shape(bytes: Seq<u8>)
    ensures
        hex_lower(bytes).len() == 2 * bytes.len(),
        forall|i: int| 0 <= i < hex_lower(bytes).len() ==> is_hex_lower(#[trigger] hex_lower(bytes)[i]),
    decreases bytes.len(),
{
    if bytes.len() > 0 {
        lemma_hex_lower_shape(bytes.drop_first());
        let h = hex_lower(bytes);
        let t = hex_lower(bytes.drop_first());
        let hi = (bytes[0] / 16) as nat;
        let lo = (bytes[0] % 16) as nat;
        assert(is_hex_lower(hex_digit(hi)));
        assert(is_hex_lower(hex_digit(lo)));
        assert forall|i: int| 0 <= i < h.len() implies is_hex_lower(#[trigger] h[i]) by {
            if i >= 2 {
                assert(h[i] == t[i - 2]);
            }
        }
    }
}

/// The character code of a nibble's lowercase hex digit: `0`..`9` are
/// codes 48..57, `a`..`f` are codes 97..102.
pub open spec fn nibble_code(v: int) -> int {
    if v < 10 {
        48 + v
    } else {
        87 + v
    }
}

proof fn lemma_hex_digit_code(v: nat)
    requires
        v < 16,
    ensures
        hex_digit(v) as u32 == nibble_code(v as int),
{
}

/// Byte `i` becomes characters `2i` and `2i + 1`: the lowercase hex digits of
/// its high and low nibble.
pub proof fn lemma_hex_lower_digits(bytes: Seq<u8>, i: int)
    requires
        0 <= i < bytes.len(),
    ensures
        hex_lower(bytes).len() == 2 * bytes.len(),
        hex_lower(bytes)[2 * i] as u32 == nibble_code((bytes[i] / 16) as int),
        hex_lower(bytes)[2 * i + 1] as u32 == nibble_code((bytes[i] % 16) as int),
    decreases bytes.len(),
{
    lemma_hex_lower_shape(bytes);
    if i == 0 {
        lemma_hex_digit_code((bytes[0] / 16) as nat);
        lemma_hex_digit_code((bytes[0] % 16) as nat);
    } else {
        lemma_hex_lower_digits(bytes.drop_first(), i - 1);
        assert(bytes.drop_first()[i - 1] == bytes[i]);
        assert(hex_lower(bytes)[2 * i] == hex_lower(bytes.drop_first())[2 * (i - 1)]);
        assert(hex_lower(bytes)[2 * i + 1] == hex_lower(bytes.drop_first())[2 * (i - 1) + 1]);
    }
}

/// The lowercase hex text of an HMAC tag, as it goes into a request.
pub fn signature_text(tag: &[u8]) -> (sig: String)
    ensures
        sig@ == hex_lower(tag@),
        sig@.len() == 2 * tag@.len(),
        forall|i: int| 0 <= i < sig@.len() ==> is_hex_lower(#[trigger] sig@[i]),
        forall|i: int|
            0 <= i < tag@.len() ==> sig@[2 * i] as u32 == nibble_code(((#[trigger] tag@[i]) / 16) as int)
                && sig@[2 * i + 1] as u32 == nibble_code((tag@[i] % 16) as int),
{
    proof {
        lemma_hex_lower_shape(tag@);
        assert forall|i: int| 0 <= i < tag@.len() implies hex_lower(tag@)[2 * i] as u32
            == nibble_code(((#[trigger] tag@[i]) / 16) as int) && hex_lower(tag@)[2 * i + 1] as u32
            == nibble_code((tag@[i] % 16) as int) by {
            lemma_hex_lower_digits(tag@, i);
        }
    }
    hex_encode(tag)
}

/// Signs `query` with `secret` as the exchange's authenticated endpoints
/// require: 64 lowercase hex characters.
pub fn sign(secret: &str, query: &str) -> (sig: String)
    ensures
        sig@ == signature_of(secret@, query@),
        sig@.len() == 64,
        forall|i: int| 0 <= i < sig@.len() ==> is_hex_lower(#[trigger] sig@[i]),
{
    let tag = hmac_sha256(secret.as_bytes(), query.as_bytes());
    signature_text(tag.as_slice())
}

} // verus!
