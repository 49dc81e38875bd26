//! The outside functions that the bootstrap protocol computes with: base64,
//! Ed25519, random identifiers and letter case. Their contracts are believed,
//! not proved; each states no more than the crate's source or documentation
//! shows. A result too long to write out has a name instead: a function of the
//! arguments that the contracts speak of.

use base64::Engine;
use ed25519_dalek::pkcs8::DecodePrivateKey;
use ed25519_dalek::Signer;
use ed25519_dalek::SigningKey;
use vstd::prelude::*;

verus! {

/// The error of `base64`'s decoders, carried through unread.
#[verifier::external_type_specification]
#[verifier::external_body]
pub struct ExDecodeError(base64::DecodeError);

/// The error of the PKCS#8 parser, carried through unread.
#[verifier::external_type_specification]
#[verifier::external_body]
pub struct ExPkcs8Error(ed25519_dalek::pkcs8::Error);

/// The bytes that `base64`'s `STANDARD` engine decodes `text` to, `None` where it
/// refuses the text.
pub uninterp spec fn base64_standard_decoded(text: Seq<char>) -> Option<Seq<u8>>;

/// The bytes that `base64`'s `URL_SAFE_NO_PAD` engine decodes `text` to, `None`
/// where it refuses the text.
pub uninterp spec fn base64_url_decoded(text: Seq<char>) -> Option<Seq<u8>>;

/// The text that `base64`'s `STANDARD` engine encodes `bytes` to.
pub uninterp spec fn base64_standard_encoded(bytes: Seq<u8>) -> Seq<char>;

/// The seed of the Ed25519 key that `ed25519_dalek` reads from a PKCS#8 document in
/// DER, `None` where it refuses the document.
pub uninterp spec fn pkcs8_seed(der: Seq<u8>) -> Option<Seq<u8>>;

/// The public key that `ed25519_dalek` derives from a 32-byte seed.
pub uninterp spec fn ed25519_public_key(seed: Seq<u8>) -> Seq<u8>;

/// The signature that `ed25519_dalek` makes of `message` with the key of a 32-byte seed.
pub uninterp spec fn ed25519_signature(seed: Seq<u8>, message: Seq<u8>) -> Seq<u8>;

/// The upper case of a text, as `str::to_uppercase` gives it.
pub uninterp spec fn uppercased(text: Seq<char>) -> Seq<char>;

/// `base64`'s `STANDARD.decode`: the decoded bytes, or an error exactly where the
/// engine refuses the text. Which error it is stays unsaid.
#[verifier::external_body]
pub(crate) fn decode_standard(text: &str) -> (res: Result<Vec<u8>, base64::DecodeError>)
    ensures
        match res {
            Ok(bytes) => base64_standard_decoded(text@) == Some(bytes@),
            Err(_) => base64_standard_decoded(text@) is None,
        },
{
    base64::engine::general_purpose::STANDARD.decode(text)
}

/// `base64`'s `URL_SAFE_NO_PAD.decode`: the decoded bytes, or an error exactly where
/// the engine refuses the text. Which error it is stays unsaid.
#[verifier::external_body]
pub(crate) fn decode_url_safe(text: &str) -> (res: Result<Vec<u8>, base64::DecodeError>)
    ensures
        match res {
            Ok(bytes) => base64_url_decoded(text@) == Some(bytes@),
            Err(_) => base64_url_decoded(text@) is None,
        },
{
    base64::engine::general_purpose::URL_SAFE_NO_PAD.decode(text)
}

/// `base64`'s `STANDARD.encode`: the encoded text, which the same engine decodes
/// to the bytes it was made of. `encode` panics where the length of the text
/// overflows; the bound keeps far from that.
#[verifier::external_body]
pub(crate) fn encode_standard(bytes: &[u8]) -> (text: String)
    requires
        bytes@.len() <= 0x1000_0000,
    ensures
        text@ == base64_standard_encoded(bytes@),
        base64_standard_decoded(text@) == Some(bytes@),
{
    base64::engine::general_purpose::STANDARD.encode(bytes)
}

/// `SigningKey::from_pkcs8_der`: the seed of the key that the document holds, or an
/// error exactly where it is refused. Which error it is stays unsaid.
#[verifier::external_body]
pub(crate) fn decode_pkcs8(der: &[u8]) -> (res: Result<[u8; 32], ed25519_dalek::pkcs8::Error>)
    ensures
        match res {
            Ok(seed) => pkcs8_seed(der@) == Some(seed@),
            Err(_) => pkcs8_seed(der@) is None,
        },
{
    SigningKey::from_pkcs8_der(der).map(|key| key.to_bytes())
}

/// `SigningKey::verifying_key` of the key that `SigningKey::from_bytes` makes of `seed`.
#[verifier::external_body]
pub(crate) fn public_key(seed: &[u8; 32]) -> (key: [u8; 32])
    ensures
        key@ == ed25519_public_key(seed@),
{
    SigningKey::from_bytes(seed).verifying_key().to_bytes()
}

/// `Signer::sign` with the key that `SigningKey::from_bytes` makes of `seed`. The
/// scheme is deterministic: the seed and the message decide the signature.
#[verifier::external_body]
pub(crate) fn sign(seed: &[u8; 32], message: &[u8]) -> (signature: [u8; 64])
    ensures
        signature@ == ed25519_signature(seed@, message@),
{
    SigningKey::from_bytes(seed).sign(message).to_bytes()
}

/// A lower-case hexadecimal digit.
pub open spec fn hex_digit(c: char) -> bool {
    '0' <= c <= '9' || 'a' <= c <= 'f'
}

/// The hyphenated text of a random (version 4) UUID.
pub open spec fn uuid_v4_text(s: Seq<char>) -> bool {
    &&& s.len() == 36
    &&& forall|i: int|
        0 <= i < 36 ==> if i == 8 || i == 13 || i == 18 || i == 23 {
            #[trigger] s[i] == '-'
        } else {
            hex_digit(s[i])
        }
    &&& s[14] == '4'
    &&& s[19] == '8' || s[19] == '9' || s[19] == 'a' || s[19] == 'b'
}

/// `Uuid::new_v4`, as text: some random UUID in its hyphenated form. Nothing is said
/// of which one, nor that two calls differ. It returns wherever the machine has a source
/// of randomness; without one `new_v4` panics.
#[verifier::external_body]
pub(crate) fn random_uuid() -> (text: String)
    ensures
        uuid_v4_text(text@),
{
    uuid::Uuid::new_v4().to_string()
}

/// The upper case of an ASCII character.
pub open spec fn ascii_upper(c: char) -> char {
    if 'a' <= c <= 'z' {
        (c as u32 - 32) as char
    } else {
        c
    }
}

/// `str::to_uppercase`: Unicode's upper case of the text, which for ASCII texts turns
/// each small letter into its capital and keeps the rest.
pub assume_specification[ str::to_uppercase ](s: &str) -> (res: String)
    ensures
        res@ == uppercased(s@),
        vstd::utf8::is_ascii_chars(s@) ==> res@ == s@.map_values(|c: char| ascii_upper(c)),
;

/// Upper case moves the 26 small letters by 32 code points and leaves all else alone.
pub proof fn ascii_upper_moves_small_letters(c: char)
    ensures
        97 <= c as u32 <= 122 ==> ascii_upper(c) as u32 == c as u32 - 32,
        !(97 <= c as u32 <= 122) ==> ascii_upper(c) == c,
{
}

} // verus!
