use vstd::prelude::*;

verus! {

#[verifier::external_type_specification]
#[verifier::external_body]
pub struct ExSecretKey(secp256k1::SecretKey);

/// The character of a 6-bit value in the standard base64 alphabet:
/// `A`-`Z`, `a`-`z`, `0`-`9`, `+`, `/`.
pub open spec fn base64_char(v: nat) -> char {
    if v < 26 {
        (65 + v) as char
    } else if v < 52 {
        (97 + (v - 26)) as char
    } else if v < 62 {
        (48 + (v - 52)) as char
    } else if v == 62 {
        '+'
    } else {
        '/'
    }
}

/// Standard base64 with padding: each group of three bytes gives four
/// characters; a last group of one or two bytes gives two or three
/// characters and is padded with `=` to four.
pub open spec fn base64_standard(bytes: Seq<u8>) -> Seq<char>
    decreases bytes.len(),
{
    if bytes.len() == 0 {
        Seq::empty()
    } else if bytes.len() == 1 {
        seq![base64_char(bytes[0] as nat / 4), base64_char((bytes[0] as nat % 4) * 16), '=', '=']
    } else if bytes.len() == 2 {
        seq![
            base64_char(bytes[0] as nat / 4),
            base64_char((bytes[0] as nat % 4) * 16 + bytes[1] as nat / 16),
            base64_char((bytes[1] as nat % 16) * 4),
            '=',
        ]
    } else {
        seq![
            base64_char(bytes[0] as nat / 4),
            base64_char((bytes[0] as nat % 4) * 16 + bytes[1] as nat / 16),
            base64_char((bytes[1] as nat % 16) * 4 + bytes[2] as nat / 64),
            base64_char(bytes[2] as nat % 64),
        ] + base64_standard(bytes.subrange(3, bytes.len() as int))
    }
}

/// `base64::encode`: the text of `bytes` in the standard alphabet, padded
/// (the crate's `STANDARD` configuration).
#[verifier::external_body]
pub(crate) fn encode_base64(bytes: &[u8]) -> (text: String)
    ensures
        text@ == base64_standard(bytes@),
{
    base64::encode(bytes)
}

/// The value of `bytes` read as an unsigned integer, most significant byte first.
pub open spec fn big_endian_value(bytes: Seq<u8>) -> nat
    decreases bytes.len(),
{
    if bytes.len() == 0 {
        0
    } else {
        big_endian_value(bytes.drop_last()) * 256 + bytes.last() as nat
    }
}

/// The order of the secp256k1 group.
pub open spec fn secp256k1_order() -> nat {
    0xFFFFFFFFFFFFFFFFFFFFFFFFFFFFFFFEBAAEDCE6AF48A03BBFD25E8CD0364141nat
}

/// A secp256k1 secret key: 32 bytes whose value is neither 0 nor at least the group order.
pub open spec fn valid_secret_key(bytes: Seq<u8>) -> bool {
    &&& bytes.len() == 32
    &&& 0 < big_endian_value(bytes) < secp256k1_order()
}

/// The 32 bytes that a secp256k1 secret key holds, as `secret_bytes` gives them.
pub uninterp spec fn secret_key_bytes(key: secp256k1::SecretKey) -> Seq<u8>;

/// `secp256k1::SecretKey::from_slice`: succeeds exactly on 32 bytes that
/// `secp256k1_ec_seckey_verify` accepts, a value neither zero nor at least
/// the group order, and the key it gives holds those bytes.
#[verifier::external_body]
pub(crate) fn secret_key_from_bytes(bytes: &[u8]) -> (key: Option<secp256k1::SecretKey>)
    ensures
        key is Some <==> valid_secret_key(bytes@),
        key matches Some(k) ==> secret_key_bytes(k) == bytes@,
{
    secp256k1::SecretKey::from_slice(bytes).ok()
}

} // verus!
