//! Bootstrap against the agent gateway: the agent's keys, the signed request for
//! MQTT credentials, and the retries around it.
//!
//! A request is signed over the text `METHOD|PATH|timestamp|nonce`. The signature,
//! the public key, the timestamp and the nonce go out as the headers
//! `X-Agent-Public-Key`, `X-Agent-Signature`, `X-Agent-Timestamp`, `X-Agent-Nonce`.

use crate::crypto;
use crate::signaling::IceServerConfig;
use crate::text;
use vstd::prelude::*;
use vstd::string::*;

verus! {

/// The path of the bootstrap endpoint.
pub const BOOTSTRAP_PATH: &'static str = "/api/v1/device/bootstrap";

/// The agent's keys: the Ed25519 seed that requests are signed with, and the public
/// key they are sent under.
#[derive(Clone)]
pub struct AgentKeyPair {
    pub signing_key: [u8; 32],
    pub public_key_bytes: [u8; 32],
}

/// What a JSON key file holds.
pub struct KeyFile {
    pub public_key: String,
    pub private_key: String,
}

/// Why a key file was refused, with the cause where another crate gave one.
#[derive(Debug)]
pub enum KeyError {
    ParseJson,
    DecodePrivateKey(base64::DecodeError),
    Pkcs8(ed25519_dalek::pkcs8::Error),
    DecodePublicKey(base64::DecodeError),
    PublicKeyLength(usize),
    DecodeRawKey(base64::DecodeError),
}

/// A refusal without the cause that another crate gave.
pub enum KeyFault {
    ParseJson,
    DecodePrivateKey,
    Pkcs8,
    DecodePublicKey,
    PublicKeyLength(nat),
    DecodeRawKey,
}

impl KeyError {
    /// The refusal that this error reports.
    pub open spec fn fault(self) -> KeyFault {
        match self {
            KeyError::ParseJson => KeyFault::ParseJson,
            KeyError::DecodePrivateKey(_) => KeyFault::DecodePrivateKey,
            KeyError::Pkcs8(_) => KeyFault::Pkcs8,
            KeyError::DecodePublicKey(_) => KeyFault::DecodePublicKey,
            KeyError::PublicKeyLength(n) => KeyFault::PublicKeyLength(n as nat),
            KeyError::DecodeRawKey(_) => KeyFault::DecodeRawKey,
        }
    }
}

/// The bytes of a key in base64: padded with the standard alphabet or, failing that,
/// unpadded with the URL-safe one.
pub open spec fn key_bytes(text: Seq<char>) -> Option<Seq<u8>> {
    match crypto::base64_standard_decoded(text) {
        Some(bytes) => Some(bytes),
        None => crypto::base64_url_decoded(text),
    }
}

/// The Ed25519 seed in private key bytes: all of 32 bytes, the last 32 of 48, and of
/// any other length what the PKCS#8 parser finds.
pub open spec fn key_seed(bytes: Seq<u8>) -> Option<Seq<u8>> {
    if bytes.len() == 32 {
        Some(bytes)
    } else if bytes.len() == 48 {
        Some(bytes.subrange(16, 48))
    } else {
        crypto::pkcs8_seed(bytes)
    }
}

/// The text of a key file that is a JSON document: one that begins with a brace, white
/// space aside.
pub open spec fn json_text(raw: Seq<char>) -> Option<Seq<char>> {
    if text::trimmed(raw).len() > 0 && text::trimmed(raw)[0] == '{' {
        Some(text::trimmed(raw))
    } else {
        None
    }
}

/// The seed and the public key in the bytes of a private and a public key, each `None`
/// where it could not be decoded.
pub open spec fn keys_of_pair(private: Option<Seq<u8>>, public: Option<Seq<u8>>) -> Result<
    (Seq<u8>, Seq<u8>),
    KeyFault,
> {
    match private {
        None => Err(KeyFault::DecodePrivateKey),
        Some(private) => match key_seed(private) {
            None => Err(KeyFault::Pkcs8),
            Some(seed) => match public {
                None => Err(KeyFault::DecodePublicKey),
                Some(public) => if public.len() == 32 {
                    Ok((seed, public))
                } else {
                    Err(KeyFault::PublicKeyLength(public.len()))
                },
            },
        },
    }
}

/// The seed and the public key in the bytes of a private key, `None` where it could not
/// be decoded.
pub open spec fn keys_of_private(private: Option<Seq<u8>>) -> Result<
    (Seq<u8>, Seq<u8>),
    KeyFault,
> {
    match private {
        None => Err(KeyFault::DecodeRawKey),
        Some(private) => match key_seed(private) {
            None => Err(KeyFault::Pkcs8),
            Some(seed) => Ok((seed, crypto::ed25519_public_key(seed))),
        },
    }
}

/// The seed and the public key in the key file text `raw`, where `parsed` holds the
/// public and the private key text of a JSON document that could be parsed.
pub open spec fn loaded_keys(raw: Seq<char>, parsed: Option<(Seq<char>, Seq<char>)>) -> Result<
    (Seq<u8>, Seq<u8>),
    KeyFault,
> {
    if json_text(raw) is Some {
        match parsed {
            None => Err(KeyFault::ParseJson),
            Some((public_key, private_key)) => keys_of_pair(
                key_bytes(private_key),
                key_bytes(public_key),
            ),
        }
    } else {
        keys_of_private(key_bytes(text::trimmed(raw)))
    }
}

/// The texts of a parsed key file.
pub open spec fn key_file_texts(parsed: Option<KeyFile>) -> Option<(Seq<char>, Seq<char>)> {
    match parsed {
        Some(file) => Some((file.public_key@, file.private_key@)),
        None => None,
    }
}

/// The bytes that decoding gave, if it gave any.
pub open spec fn decoded(res: Result<Vec<u8>, base64::DecodeError>) -> Option<Seq<u8>> {
    match res {
        Ok(bytes) => Some(bytes@),
        Err(_) => None,
    }
}

/// Whether loading gave `expected`: those keys, or that refusal.
pub open spec fn gives_keys(
    res: Result<AgentKeyPair, KeyError>,
    expected: Result<(Seq<u8>, Seq<u8>), KeyFault>,
) -> bool {
    match res {
        Ok(keys) => expected == Ok::<_, KeyFault>((keys.signing_key@, keys.public_key_bytes@)),
        Err(e) => expected == Err::<(Seq<u8>, Seq<u8>), _>(e.fault()),
    }
}

/// Copies 32 bytes from `start` on.
fn copy_32(bytes: &[u8], start: usize) -> (res: [u8; 32])
    requires
        start + 32 <= bytes@.len(),
    ensures
        res@ == bytes@.subrange(start as int, start + 32),
{
    let len: usize = bytes.len();
    let mut res: [u8; 32] = [0u8; 32];
    let mut i: usize = 0;
    while i < 32
        invariant
            i <= 32,
            start + 32 <= len,
            len == bytes@.len(),
            res@.len() == 32,
            forall|j: int| 0 <= j < i ==> res@[j] == bytes@[start + j],
        decreases 32 - i,
    {
        res[i] = bytes[start + i];
        i = i + 1;
    }
    assert(res@ =~= bytes@.subrange(start as int, start + 32));
    res
}

/// What counts of a key decoded with the standard alphabet and with the URL-safe one: the
/// first where it gave bytes, else the second, with its error where it gave none either.
pub fn either_decoded(
    standard: Result<Vec<u8>, base64::DecodeError>,
    url_safe: Result<Vec<u8>, base64::DecodeError>,
) -> (res: Result<Vec<u8>, base64::DecodeError>)
    ensures
        res == (match standard {
            Ok(bytes) => Ok(bytes),
            Err(_) => url_safe,
        }),
{
    match standard {
        Ok(bytes) => Ok(bytes),
        Err(_) => url_safe,
    }
}

/// Decodes a key in base64, trying the standard alphabet first.
fn decode_key(text: &str) -> (res: Result<Vec<u8>, base64::DecodeError>)
    ensures
        decoded(res) == key_bytes(text@),
{
    either_decoded(crypto::decode_standard(text), crypto::decode_url_safe(text))
}

/// The seed that the PKCS#8 parser found, or its error as the cause of the refusal.
pub fn parsed_seed(parsed: Result<[u8; 32], ed25519_dalek::pkcs8::Error>) -> (res: Result<
    [u8; 32],
    KeyError,
>)
    ensures
        res == (match parsed {
            Ok(seed) => Ok(seed),
            Err(e) => Err(KeyError::Pkcs8(e)),
        }),
{
    match parsed {
        Ok(seed) => Ok(seed),
        Err(e) => Err(KeyError::Pkcs8(e)),
    }
}

/// Extracts the 32-byte Ed25519 seed from raw bytes or from PKCS#8 DER.
pub fn extract_ed25519_seed(bytes: &[u8]) -> (res: Result<[u8; 32], KeyError>)
    ensures
        match res {
            Ok(seed) => key_seed(bytes@) == Some(seed@),
            Err(e) => key_seed(bytes@) is None && e.fault() == KeyFault::Pkcs8,
        },
        bytes@.len() == 32 ==> res is Ok && res->Ok_0@ == bytes@,
        bytes@.len() == 48 ==> res is Ok && forall|i: int|
            0 <= i < 32 ==> #[trigger] res->Ok_0@[i] == bytes@[16 + i],
        bytes@.len() != 32 && bytes@.len() != 48 ==> match crypto::pkcs8_seed(bytes@) {
            Some(seed) => res is Ok && res->Ok_0@ == seed,
            None => res matches Err(KeyError::Pkcs8(_)),
        },
{
    if bytes.len() == 32 {
        assert(bytes@.subrange(0, 32) =~= bytes@);
        return Ok(copy_32(bytes, 0));
    }
    if bytes.len() == 48 {
        return Ok(copy_32(bytes, 16));
    }
    parsed_seed(crypto::decode_pkcs8(bytes))
}

/// The JSON document in the text of a key file, to be parsed into a [`KeyFile`]; `None`
/// where the text is a bare private key.
pub fn key_document<'a>(raw: &'a str) -> (res: Option<&'a str>)
    ensures
        match res {
            Some(text) => json_text(raw@) == Some(text@),
            None => json_text(raw@) is None,
        },
        res is Some <==> text::trimmed(raw@).len() > 0 && text::trimmed(raw@)[0] == '{',
        res matches Some(document) ==> document@ == text::trimmed(raw@),
{
    let document = text::trim(raw);
    if text::starts_with_char(document, '{') {
        Some(document)
    } else {
        None
    }
}

/// Makes the keys of a private and a public key, as they were decoded.
pub fn keys_from_pair(
    private: Result<Vec<u8>, base64::DecodeError>,
    public: Result<Vec<u8>, base64::DecodeError>,
) -> (res: Result<AgentKeyPair, KeyError>)
    ensures
        gives_keys(res, keys_of_pair(decoded(private), decoded(public))),
        res matches Err(KeyError::DecodePrivateKey(e)) ==> private == Err::<Vec<u8>, _>(e),
        res matches Err(KeyError::DecodePublicKey(e)) ==> public == Err::<Vec<u8>, _>(e),
        match (private, public) {
            (Ok(private), Ok(public)) => match key_seed(private@) {
                Some(seed) => if public@.len() == 32 {
                    res is Ok && res->Ok_0.signing_key@ == seed && res->Ok_0.public_key_bytes@
                        == public@
                } else {
                    res matches Err(KeyError::PublicKeyLength(len)) && len == public@.len()
                },
                None => res matches Err(KeyError::Pkcs8(_)),
            },
            (Ok(private), Err(_)) => if key_seed(private@) is Some {
                res matches Err(KeyError::DecodePublicKey(_))
            } else {
                res matches Err(KeyError::Pkcs8(_))
            },
            (Err(_), _) => res matches Err(KeyError::DecodePrivateKey(_)),
        },
{
    let private_bytes = match private {
        Ok(bytes) => bytes,
        Err(e) => return Err(KeyError::DecodePrivateKey(e)),
    };
    let seed = match extract_ed25519_seed(private_bytes.as_slice()) {
        Ok(seed) => seed,
        Err(e) => return Err(e),
    };
    let public_bytes = match public {
        Ok(bytes) => bytes,
        Err(e) => return Err(KeyError::DecodePublicKey(e)),
    };
    if public_bytes.len() != 32 {
        return Err(KeyError::PublicKeyLength(public_bytes.len()));
    }
    assert(public_bytes@.subrange(0, 32) =~= public_bytes@);
    Ok(
        AgentKeyPair {
            signing_key: seed,
            public_key_bytes: copy_32(public_bytes.as_slice(), 0),
        },
    )
}

/// Makes the keys of a private key alone, as it was decoded.
pub fn keys_from_private(private: Result<Vec<u8>, base64::DecodeError>) -> (res: Result<
    AgentKeyPair,
    KeyError,
>)
    ensures
        gives_keys(res, keys_of_private(decoded(private))),
        res matches Err(KeyError::DecodeRawKey(e)) ==> private == Err::<Vec<u8>, _>(e),
        match private {
            Ok(private) => match key_seed(private@) {
                Some(seed) => res is Ok && res->Ok_0.signing_key@ == seed
                    && res->Ok_0.public_key_bytes@ == crypto::ed25519_public_key(seed),
                None => res matches Err(KeyError::Pkcs8(_)),
            },
            Err(_) => res matches Err(KeyError::DecodeRawKey(_)),
        },
{
    let private_bytes = match private {
        Ok(bytes) => bytes,
        Err(e) => return Err(KeyError::DecodeRawKey(e)),
    };
    let seed = match extract_ed25519_seed(private_bytes.as_slice()) {
        Ok(seed) => seed,
        Err(e) => return Err(e),
    };
    Ok(AgentKeyPair { signing_key: seed, public_key_bytes: crypto::public_key(&seed) })
}

/// Loads the keys from the text of a key file, in one of two formats:
///   1. JSON with `publicKey` (32 bytes in base64 or base64url) and `privateKey`
///      (base64 of PKCS#8 DER or of a 32-byte seed);
///   2. a private key in base64 alone.
///
/// `parsed` is what the JSON parser made of [`key_document`]; it is read for the first
/// format only.
pub fn load_agent_keys(raw: &str, parsed: Option<KeyFile>) -> (res: Result<AgentKeyPair, KeyError>)
    ensures
        gives_keys(res, loaded_keys(raw@, key_file_texts(parsed))),
        text::trimmed(raw@).len() > 0 && text::trimmed(raw@)[0] == '{' ==> match parsed {
            Some(file) => match res {
                Ok(keys) => key_bytes(file.private_key@) is Some && key_seed(
                    key_bytes(file.private_key@)->0,
                ) == Some(keys.signing_key@) && key_bytes(file.public_key@) == Some(
                    keys.public_key_bytes@,
                ),
                Err(KeyError::DecodePrivateKey(_)) => key_bytes(file.private_key@) is None,
                Err(KeyError::Pkcs8(_)) => key_bytes(file.private_key@) is Some && key_seed(
                    key_bytes(file.private_key@)->0,
                ) is None,
                Err(KeyError::DecodePublicKey(_)) => key_bytes(file.private_key@) is Some
                    && key_seed(key_bytes(file.private_key@)->0) is Some && key_bytes(
                    file.public_key@,
                ) is None,
                Err(KeyError::PublicKeyLength(len)) => key_bytes(file.private_key@) is Some
                    && key_seed(key_bytes(file.private_key@)->0) is Some && key_bytes(
                    file.public_key@,
                ) is Some && key_bytes(file.public_key@)->0.len() == len && len != 32,
                Err(_) => false,
            },
            None => res matches Err(KeyError::ParseJson),
        },
        !(text::trimmed(raw@).len() > 0 && text::trimmed(raw@)[0] == '{') ==> match res {
            Ok(keys) => key_bytes(text::trimmed(raw@)) is Some && key_seed(
                key_bytes(text::trimmed(raw@))->0,
            ) == Some(keys.signing_key@) && keys.public_key_bytes@ == crypto::ed25519_public_key(
                keys.signing_key@,
            ),
            Err(KeyError::DecodeRawKey(_)) => key_bytes(text::trimmed(raw@)) is None,
            Err(KeyError::Pkcs8(_)) => key_bytes(text::trimmed(raw@)) is Some && key_seed(
                key_bytes(text::trimmed(raw@))->0,
            ) is None,
            Err(_) => false,
        },
{
    if key_document(raw).is_some() {
        match parsed {
            Some(file) => keys_from_pair(
                decode_key(file.private_key.as_str()),
                decode_key(file.public_key.as_str()),
            ),
            None => Err(KeyError::ParseJson),
        }
    } else {
        keys_from_private(decode_key(text::trim(raw)))
    }
}

/// What stands in front of the cause in the report of a refused key file.
pub open spec fn fault_text(fault: KeyFault) -> Seq<char> {
    match fault {
        KeyFault::ParseJson => "parse key JSON"@,
        KeyFault::DecodePrivateKey => "decode privateKey"@,
        KeyFault::Pkcs8 => "parse PKCS#8 DER"@,
        KeyFault::DecodePublicKey => "decode publicKey"@,
        KeyFault::PublicKeyLength(len) => "publicKey is "@ + text::decimal(len)
            + " bytes, expected 32"@,
        KeyFault::DecodeRawKey => "decode raw key"@,
    }
}

impl KeyError {
    /// What went wrong, without the cause that another crate gave.
    pub fn context(&self) -> (res: String)
        ensures
            res@ == fault_text(self.fault()),
            match *self {
                KeyError::ParseJson => res@ == "parse key JSON"@,
                KeyError::DecodePrivateKey(_) => res@ == "decode privateKey"@,
                KeyError::Pkcs8(_) => res@ == "parse PKCS#8 DER"@,
                KeyError::DecodePublicKey(_) => res@ == "decode publicKey"@,
                KeyError::PublicKeyLength(len) => res@ == "publicKey is "@ + text::decimal(
                    len as nat,
                ) + " bytes, expected 32"@,
                KeyError::DecodeRawKey(_) => res@ == "decode raw key"@,
            },
    {
        match self {
            KeyError::ParseJson => "parse key JSON".to_owned(),
            KeyError::DecodePrivateKey(_) => "decode privateKey".to_owned(),
            KeyError::Pkcs8(_) => "parse PKCS#8 DER".to_owned(),
            KeyError::DecodePublicKey(_) => "decode publicKey".to_owned(),
            KeyError::PublicKeyLength(len) => {
                let mut res = "publicKey is ".to_owned();
                res.append(text::decimal_text(*len as u64).as_str());
                res.append(" bytes, expected 32");
                res
            },
            KeyError::DecodeRawKey(_) => "decode raw key".to_owned(),
        }
    }
}

/// The text that a request's signature covers.
pub open spec fn signed_text(
    verb: Seq<char>,
    path: Seq<char>,
    timestamp: u64,
    nonce: Seq<char>,
) -> Seq<char> {
    verb + seq!['|'] + path + seq!['|'] + text::decimal(timestamp as nat) + seq!['|'] + nonce
}

/// The signature of a request.
pub open spec fn request_signature(
    verb: Seq<char>,
    path: Seq<char>,
    seed: Seq<u8>,
    timestamp: u64,
    nonce: Seq<char>,
) -> Seq<u8> {
    crypto::ed25519_signature(
        seed,
        vstd::utf8::encode_utf8(signed_text(verb, path, timestamp, nonce)),
    )
}

/// The four headers that authenticate a request, as names and values.
pub open spec fn request_headers(
    verb: Seq<char>,
    path: Seq<char>,
    seed: Seq<u8>,
    public_key: Seq<u8>,
    timestamp: u64,
    nonce: Seq<char>,
) -> Seq<(Seq<char>, Seq<char>)> {
    let signature = request_signature(verb, path, seed, timestamp, nonce);
    seq![
        ("X-Agent-Public-Key"@, crypto::base64_standard_encoded(public_key)),
        ("X-Agent-Signature"@, crypto::base64_standard_encoded(signature)),
        ("X-Agent-Timestamp"@, text::decimal(timestamp as nat)),
        ("X-Agent-Nonce"@, nonce),
    ]
}

/// The names and values of headers.
pub open spec fn header_texts(headers: Seq<(String, String)>) -> Seq<(Seq<char>, Seq<char>)> {
    headers.map_values(|h: (String, String)| (h.0@, h.1@))
}

/// The text that a request's signature covers: `METHOD|PATH|timestamp|nonce`.
pub fn signing_text(verb: &str, path: &str, timestamp: u64, nonce: &str) -> (res: String)
    ensures
        res@ == signed_text(verb@, path@, timestamp, nonce@),
        res@ == verb@ + seq!['|'] + path@ + seq!['|'] + text::decimal(timestamp as nat) + seq!['|']
            + nonce@,
{
    proof {
        reveal_strlit("|");
    }
    let mut res = verb.to_owned();
    res.append("|");
    res.append(path);
    res.append("|");
    res.append(text::decimal_text(timestamp).as_str());
    res.append("|");
    res.append(nonce);
    assert("|"@ =~= seq!['|']);
    res
}

/// The headers of a request, given their values.
pub fn headers_from_values(
    public_key: String,
    signature: String,
    timestamp: u64,
    nonce: &str,
) -> (headers: Vec<(String, String)>)
    ensures
        header_texts(headers@) == seq![
            ("X-Agent-Public-Key"@, public_key@),
            ("X-Agent-Signature"@, signature@),
            ("X-Agent-Timestamp"@, text::decimal(timestamp as nat)),
            ("X-Agent-Nonce"@, nonce@),
        ],
        headers@.len() == 4,
        headers@[0].0@ == "X-Agent-Public-Key"@ && headers@[0].1@ == public_key@,
        headers@[1].0@ == "X-Agent-Signature"@ && headers@[1].1@ == signature@,
        headers@[2].0@ == "X-Agent-Timestamp"@ && headers@[2].1@ == text::decimal(
            timestamp as nat,
        ),
        headers@[3].0@ == "X-Agent-Nonce"@ && headers@[3].1@ == nonce@,
{
    let mut headers: Vec<(String, String)> = Vec::new();
    headers.push(("X-Agent-Public-Key".to_owned(), public_key));
    headers.push(("X-Agent-Signature".to_owned(), signature));
    headers.push(("X-Agent-Timestamp".to_owned(), text::decimal_text(timestamp)));
    headers.push(("X-Agent-Nonce".to_owned(), nonce.to_owned()));
    assert(header_texts(headers@) =~= seq![
        ("X-Agent-Public-Key"@, public_key@),
        ("X-Agent-Signature"@, signature@),
        ("X-Agent-Timestamp"@, text::decimal(timestamp as nat)),
        ("X-Agent-Nonce"@, nonce@),
    ]);
    headers
}

/// Whether `headers` authenticate a request with this verb, path, time and nonce under
/// `keys`, such that the receiver can read the public key and the signature of 64 bytes
/// out of them.
pub open spec fn authenticate(
    headers: Seq<(String, String)>,
    verb: Seq<char>,
    path: Seq<char>,
    keys: AgentKeyPair,
    timestamp: u64,
    nonce: Seq<char>,
) -> bool {
    &&& header_texts(headers) == request_headers(
        verb,
        path,
        keys.signing_key@,
        keys.public_key_bytes@,
        timestamp,
        nonce,
    )
    &&& crypto::base64_standard_decoded(headers[0].1@) == Some(keys.public_key_bytes@)
    &&& crypto::base64_standard_decoded(headers[1].1@) == Some(
        request_signature(verb, path, keys.signing_key@, timestamp, nonce),
    )
    &&& request_signature(verb, path, keys.signing_key@, timestamp, nonce).len() == 64
}

/// Signs a request at `timestamp`, in seconds since the Unix epoch, with the given nonce.
pub fn sign_with_nonce(
    method: &str,
    path: &str,
    keys: &AgentKeyPair,
    timestamp: u64,
    nonce: &str,
) -> (headers: Vec<(String, String)>)
    ensures
        authenticate(headers@, crypto::uppercased(method@), path@, *keys, timestamp, nonce@),
        vstd::utf8::is_ascii_chars(method@) ==> authenticate(
            headers@,
            method@.map_values(|c: char| crypto::ascii_upper(c)),
            path@,
            *keys,
            timestamp,
            nonce@,
        ),
        headers@.len() == 4,
        headers@[0].0@ == "X-Agent-Public-Key"@,
        headers@[0].1@ == crypto::base64_standard_encoded(keys.public_key_bytes@),
        crypto::base64_standard_decoded(headers@[0].1@) == Some(keys.public_key_bytes@),
        headers@[1].0@ == "X-Agent-Signature"@,
        crypto::base64_standard_decoded(headers@[1].1@) == Some(
            crypto::ed25519_signature(
                keys.signing_key@,
                vstd::utf8::encode_utf8(
                    crypto::uppercased(method@) + seq!['|'] + path@ + seq!['|'] + headers@[2].1@ + seq!['|'] + headers@[3].1@,
                ),
            ),
        ),
        headers@[1].1@ == crypto::base64_standard_encoded(
            crypto::ed25519_signature(
                keys.signing_key@,
                vstd::utf8::encode_utf8(
                    crypto::uppercased(method@) + seq!['|'] + path@ + seq!['|'] + headers@[2].1@ + seq!['|'] + headers@[3].1@,
                ),
            ),
        ),
        headers@[2].0@ == "X-Agent-Timestamp"@,
        headers@[2].1@ == text::decimal(timestamp as nat),
        headers@[3].0@ == "X-Agent-Nonce"@,
        headers@[3].1@ == nonce@,
        vstd::utf8::is_ascii_chars(method@) ==> crypto::uppercased(method@) == method@.map_values(
            |c: char| crypto::ascii_upper(c),
        ),
{
    let verb = method.to_uppercase();
    let message = signing_text(verb.as_str(), path, timestamp, nonce);
    let signature = crypto::sign(&keys.signing_key, message.as_str().as_bytes());
    let headers = headers_from_values(
        crypto::encode_standard(keys.public_key_bytes.as_slice()),
        crypto::encode_standard(signature.as_slice()),
        timestamp,
        nonce,
    );
    proof {
        let expected = request_headers(
            verb@,
            path@,
            keys.signing_key@,
            keys.public_key_bytes@,
            timestamp,
            nonce@,
        );
        assert(header_texts(headers@) =~= expected);
        assert(header_texts(headers@)[0].1 == headers@[0].1@);
        assert(header_texts(headers@)[1].1 == headers@[1].1@);
    }
    headers
}

/// Signs a request at `timestamp`, in seconds since the Unix epoch, with a random nonce.
pub fn sign_request(method: &str, path: &str, keys: &AgentKeyPair, timestamp: u64) -> (headers: Vec<
    (String, String),
>)
    ensures
        exists|nonce: Seq<char>| #[trigger]
            crypto::uuid_v4_text(nonce) && authenticate(
                headers@,
                crypto::uppercased(method@),
                path@,
                *keys,
                timestamp,
                nonce,
            ) && (vstd::utf8::is_ascii_chars(method@) ==> authenticate(
                headers@,
                method@.map_values(|c: char| crypto::ascii_upper(c)),
                path@,
                *keys,
                timestamp,
                nonce,
            )),
        headers@.len() == 4,
        headers@[0].0@ == "X-Agent-Public-Key"@,
        headers@[0].1@ == crypto::base64_standard_encoded(keys.public_key_bytes@),
        crypto::base64_standard_decoded(headers@[0].1@) == Some(keys.public_key_bytes@),
        headers@[1].0@ == "X-Agent-Signature"@,
        crypto::base64_standard_decoded(headers@[1].1@) == Some(
            crypto::ed25519_signature(
                keys.signing_key@,
                vstd::utf8::encode_utf8(
                    crypto::uppercased(method@) + seq!['|'] + path@ + seq!['|'] + headers@[2].1@ + seq!['|'] + headers@[3].1@,
                ),
            ),
        ),
        headers@[1].1@ == crypto::base64_standard_encoded(
            crypto::ed25519_signature(
                keys.signing_key@,
                vstd::utf8::encode_utf8(
                    crypto::uppercased(method@) + seq!['|'] + path@ + seq!['|'] + headers@[2].1@ + seq!['|'] + headers@[3].1@,
                ),
            ),
        ),
        headers@[2].0@ == "X-Agent-Timestamp"@,
        headers@[2].1@ == text::decimal(timestamp as nat),
        headers@[3].0@ == "X-Agent-Nonce"@,
        crypto::uuid_v4_text(headers@[3].1@),
        vstd::utf8::is_ascii_chars(method@) ==> crypto::uppercased(method@) == method@.map_values(
            |c: char| crypto::ascii_upper(c),
        ),
{
    let nonce = crypto::random_uuid();
    sign_with_nonce(method, path, keys, timestamp, nonce.as_str())
}

/// The URL of the bootstrap endpoint of a gateway, whose own URL may end in slashes.
pub open spec fn endpoint_url(gateway_url: Seq<char>) -> Seq<char> {
    text::without_trailing(gateway_url, '/') + BOOTSTRAP_PATH@
}

/// A request for credentials, to be sent as a `GET`.
pub struct BootstrapRequest {
    pub url: String,
    pub headers: Vec<(String, String)>,
    pub timeout_secs: u64,
}

/// The request that fetches MQTT and ICE credentials from the gateway, signed at
/// `timestamp`, in seconds since the Unix epoch.
pub fn fetch_bootstrap(gateway_url: &str, keys: &AgentKeyPair, timestamp: u64) -> (res:
    BootstrapRequest)
    ensures
        res.url@ == endpoint_url(gateway_url@),
        res.timeout_secs == 10,
        exists|nonce: Seq<char>| #[trigger]
            crypto::uuid_v4_text(nonce) && authenticate(
                res.headers@,
                "GET"@,
                BOOTSTRAP_PATH@,
                *keys,
                timestamp,
                nonce,
            ),
        res.url@ == text::without_trailing(gateway_url@, '/') + "/api/v1/device/bootstrap"@,
        res.headers@.len() == 4,
        res.headers@[0].0@ == "X-Agent-Public-Key"@,
        res.headers@[0].1@ == crypto::base64_standard_encoded(keys.public_key_bytes@),
        crypto::base64_standard_decoded(res.headers@[0].1@) == Some(keys.public_key_bytes@),
        res.headers@[1].0@ == "X-Agent-Signature"@,
        crypto::base64_standard_decoded(res.headers@[1].1@) == Some(
            crypto::ed25519_signature(
                keys.signing_key@,
                vstd::utf8::encode_utf8(
                    "GET"@ + seq!['|'] + "/api/v1/device/bootstrap"@ + seq!['|'] + res.headers@[2].1@ + seq!['|'] + res.headers@[3].1@,
                ),
            ),
        ),
        res.headers@[1].1@ == crypto::base64_standard_encoded(
            crypto::ed25519_signature(
                keys.signing_key@,
                vstd::utf8::encode_utf8(
                    "GET"@ + seq!['|'] + "/api/v1/device/bootstrap"@ + seq!['|'] + res.headers@[2].1@ + seq!['|'] + res.headers@[3].1@,
                ),
            ),
        ),
        res.headers@[2].0@ == "X-Agent-Timestamp"@,
        res.headers@[2].1@ == text::decimal(timestamp as nat),
        res.headers@[3].0@ == "X-Agent-Nonce"@,
        crypto::uuid_v4_text(res.headers@[3].1@),
{
    let mut url = text::trim_trailing(gateway_url, '/').to_owned();
    url.append(BOOTSTRAP_PATH);
    proof {
        reveal_strlit("GET");
        assert("GET"@.map_values(|c: char| crypto::ascii_upper(c)) =~= "GET"@);
    }
    let headers = sign_request("GET", BOOTSTRAP_PATH, keys, timestamp);
    BootstrapRequest { url, headers, timeout_secs: 10 }
}

/// Whether an HTTP status stands for success.
pub fn is_success(status: u16) -> (res: bool)
    ensures
        res == (200 <= status < 300),
{
    200 <= status && status < 300
}

/// How many bytes of the body of a failed reply are reported.
pub open spec fn excerpt_len(body: Seq<char>) -> nat {
    let len = vstd::utf8::encode_utf8(body).len();
    if len < 200 {
        len
    } else {
        200
    }
}

/// The part of the body of a failed reply that is reported.
pub open spec fn excerpt(body: Seq<char>) -> Seq<char> {
    vstd::utf8::decode_utf8(
        vstd::utf8::encode_utf8(body).subrange(0, excerpt_len(body) as int),
    )
}

/// The body of a reply, empty where it could not be read.
pub open spec fn body_text(body: Option<&str>) -> Seq<char> {
    match body {
        Some(text) => text@,
        None => Seq::empty(),
    }
}

/// The message for a reply that was no success: the status and the first 200 bytes of
/// the body, which must not end inside a character. A body that could not be read
/// (`None`) counts as empty.
pub fn failure_message(status: &str, body: Option<&str>) -> (res: String)
    requires
        vstd::utf8::is_char_boundary(
            vstd::utf8::encode_utf8(body_text(body)),
            excerpt_len(body_text(body)) as int,
        ),
    ensures
        res@ == "bootstrap failed (HTTP "@ + status@ + "): "@ + excerpt(body_text(body)),
        body is None ==> res@ == "bootstrap failed (HTTP "@ + status@ + "): "@,
        body matches Some(text) ==> {
            let bytes = vstd::utf8::encode_utf8(text@);
            if bytes.len() <= 200 {
                res@ == "bootstrap failed (HTTP "@ + status@ + "): "@ + text@
            } else {
                res@ == "bootstrap failed (HTTP "@ + status@ + "): "@ + vstd::utf8::decode_utf8(
                    bytes.subrange(0, 200),
                )
            }
        },
{
    proof {
        reveal_strlit("");
        assert(""@ =~= Seq::empty());
    }
    let body = match body {
        Some(text) => text,
        None => "",
    };
    let len: usize = body.as_bytes().len();
    let end: usize = if len < 200 {
        len
    } else {
        200
    };
    let (head, _) = body.split_at(end);
    proof {
        vstd::utf8::encode_utf8_decode_utf8(head@);
        excerpt_is_the_first_200_bytes(body@);
    }
    let mut res = "bootstrap failed (HTTP ".to_owned();
    res.append(status);
    res.append("): ");
    res.append(head);
    res
}

/// The credentials that the gateway hands out.
#[derive(Debug, Clone)]
pub struct BootstrapResponse {
    pub mqtt_url: String,
    pub mqtt_token: String,
    pub device_topic: String,
    pub ice_servers: Vec<IceServerConfig>,
    pub expires_at: i64,
}

impl BootstrapResponse {
    /// Whether the credentials are enough to connect with.
    pub open spec fn usable(self) -> bool {
        self.mqtt_token@.len() > 0 && self.device_topic@.len() > 0
    }

    /// Whether the credentials are enough to connect with: neither the token nor the
    /// topic is empty.
    pub fn is_usable(&self) -> (res: bool)
        ensures
            res == self.usable(),
            res <==> self.mqtt_token@.len() > 0 && self.device_topic@.len() > 0,
    {
        !self.mqtt_token.as_str().is_empty() && !self.device_topic.as_str().is_empty()
    }
}

/// The message for a bootstrap that ends without credentials.
pub fn exhausted_message(attempts: usize) -> (res: String)
    ensures
        res@ == "bootstrap retries exhausted after "@ + text::decimal(attempts as nat)
            + " attempts"@,
{
    let mut res = "bootstrap retries exhausted after ".to_owned();
    res.append(text::decimal_text(attempts as u64).as_str());
    res.append(" attempts");
    res
}

/// What happened to a bootstrap with retries.
pub enum RetryEvent {
    /// It was begun.
    Started,
    /// The gateway answered a fetch.
    Fetched(BootstrapResponse),
    /// A fetch failed.
    FetchFailed,
    /// A pause is over.
    Slept,
}

/// What a bootstrap with retries does next.
pub enum RetryAction {
    /// Fetch the credentials.
    Fetch,
    /// Pause for so many seconds.
    Sleep(u64),
    /// End with these credentials.
    Done(BootstrapResponse),
    /// End without credentials after so many attempts.
    Exhausted(usize),
}

/// The seconds of pause after the failed attempt with this index: five, doubled with each
/// attempt, a minute at most.
pub open spec fn retry_delay(attempt: nat) -> nat {
    if 5 * vstd::arithmetic::power2::pow2(attempt) < 60 {
        5 * vstd::arithmetic::power2::pow2(attempt)
    } else {
        60
    }
}

/// How far a bootstrap with retries has come.
pub struct BootstrapRetry {
    pub attempt: usize,
    pub max_attempts: usize,
}

impl BootstrapRetry {
    /// The state after one more failed attempt.
    pub open spec fn after_failure(self) -> BootstrapRetry {
        BootstrapRetry {
            attempt: if self.attempt < self.max_attempts {
                (self.attempt + 1) as usize
            } else {
                self.attempt
            },
            max_attempts: self.max_attempts,
        }
    }

    /// What follows the start or a pause.
    pub open spec fn resume(self) -> RetryAction {
        if self.attempt < self.max_attempts {
            RetryAction::Fetch
        } else {
            RetryAction::Exhausted(self.max_attempts)
        }
    }

    /// The state and the action that an event leads to.
    pub open spec fn step(self, event: RetryEvent) -> (BootstrapRetry, RetryAction) {
        match event {
            RetryEvent::Started => (self, self.resume()),
            RetryEvent::Slept => (self, self.resume()),
            RetryEvent::Fetched(response) => if response.usable() {
                (self, RetryAction::Done(response))
            } else {
                (self.after_failure(), RetryAction::Sleep(retry_delay(self.attempt as nat) as u64))
            },
            RetryEvent::FetchFailed => (
                self.after_failure(),
                RetryAction::Sleep(retry_delay(self.attempt as nat) as u64),
            ),
        }
    }

    /// The pause after the attempt under way.
    fn delay(&self) -> (secs: u64)
        ensures
            secs == retry_delay(self.attempt as nat),
    {
        let mut secs: u64 = 5;
        let mut i: usize = 0;
        proof {
            vstd::arithmetic::power2::lemma2_to64();
        }
        while i < self.attempt && secs < 60
            invariant
                i <= self.attempt,
                secs == retry_delay(i as nat),
            decreases self.attempt - i,
        {
            proof {
                delay_doubles(i as nat);
            }
            secs = if secs < 30 {
                secs * 2
            } else {
                60
            };
            i = i + 1;
        }
        proof {
            delays_back_off(i as nat, self.attempt as nat);
        }
        secs
    }

    /// Counts the attempt under way as failed.
    fn fail(&mut self) -> (action: RetryAction)
        ensures
            *final(self) == old(self).after_failure(),
            action == RetryAction::Sleep(retry_delay(old(self).attempt as nat) as u64),
    {
        let secs: u64 = self.delay();
        if self.attempt < self.max_attempts {
            self.attempt = self.attempt + 1;
        }
        RetryAction::Sleep(secs)
    }

    /// Takes in an event and says what to do next: fetch until credentials come that
    /// can be used, with exponential backoff, `max_attempts` times at most.
    pub fn on_event(&mut self, event: RetryEvent) -> (action: RetryAction)
        ensures
            (*final(self), action) == old(self).step(event),
            final(self).max_attempts == old(self).max_attempts,
            event is Started || event is Slept ==> final(self).attempt == old(self).attempt
                && action == if old(self).attempt < old(self).max_attempts {
                RetryAction::Fetch
            } else {
                RetryAction::Exhausted(old(self).max_attempts)
            },
            event matches RetryEvent::Fetched(response) ==> (response.mqtt_token@.len() > 0
                && response.device_topic@.len() > 0 ==> action == RetryAction::Done(response)
                && final(self).attempt == old(self).attempt),
            event is FetchFailed || (event matches RetryEvent::Fetched(response) && (
            response.mqtt_token@.len() == 0 || response.device_topic@.len() == 0)) ==> {
                &&& action matches RetryAction::Sleep(secs)
                &&& secs == retry_delay(old(self).attempt as nat)
                &&& old(self).attempt < old(self).max_attempts ==> final(self).attempt == old(
                    self,
                ).attempt + 1
                &&& old(self).attempt >= old(self).max_attempts ==> final(self).attempt == old(
                    self,
                ).attempt
            },
    {
        match event {
            RetryEvent::Started | RetryEvent::Slept => {
                if self.attempt < self.max_attempts {
                    RetryAction::Fetch
                } else {
                    RetryAction::Exhausted(self.max_attempts)
                }
            },
            RetryEvent::Fetched(response) => {
                if response.is_usable() {
                    RetryAction::Done(response)
                } else {
                    self.fail()
                }
            },
            RetryEvent::FetchFailed => self.fail(),
        }
    }
}

/// A bootstrap that fetches credentials up to `max_attempts` times, with exponential
/// backoff.
pub fn bootstrap_with_retry(max_attempts: usize) -> (res: BootstrapRetry)
    ensures
        res.attempt == 0,
        res.max_attempts == max_attempts,
{
    BootstrapRetry { attempt: 0, max_attempts }
}

/// What a fetch reports, given the credentials that it brought if it brought any.
pub open spec fn fetch_event(outcome: Option<BootstrapResponse>) -> RetryEvent {
    match outcome {
        Some(response) => RetryEvent::Fetched(response),
        None => RetryEvent::FetchFailed,
    }
}

/// Whether a fetch brought credentials that can be used.
pub open spec fn fetch_usable(outcome: Option<BootstrapResponse>) -> bool {
    match outcome {
        Some(response) => response.usable(),
        None => false,
    }
}

/// Carries out `action` and all that follows, where the fetch with index `i` brings
/// `outcomes[i]`: the action that ends it, and the seconds paused until then.
pub open spec fn carried_out(
    retry: BootstrapRetry,
    action: RetryAction,
    outcomes: Seq<Option<BootstrapResponse>>,
) -> (RetryAction, nat)
    decreases
            retry.max_attempts - retry.attempt,
            (match action {
                RetryAction::Sleep(_) => 2int,
                RetryAction::Fetch => 1int,
                _ => 0int,
            }),
{
    match action {
        RetryAction::Fetch => if retry.attempt < retry.max_attempts {
            let (next, next_action) = retry.step(fetch_event(outcomes[retry.attempt as int]));
            carried_out(next, next_action, outcomes)
        } else {
            (action, 0)
        },
        RetryAction::Sleep(secs) => {
            let (next, next_action) = retry.step(RetryEvent::Slept);
            let (end, waited) = carried_out(next, next_action, outcomes);
            (end, waited + secs as nat)
        },
        _ => (action, 0),
    }
}

/// The seconds of pause after the failed attempts `from..to`.
pub open spec fn delay_sum(from: nat, to: nat) -> nat
    decreases to - from,
{
    if from < to {
        retry_delay(from) + delay_sum(from + 1, to)
    } else {
        0
    }
}

proof fn carried_out_ends(
    retry: BootstrapRetry,
    outcomes: Seq<Option<BootstrapResponse>>,
    last: nat,
)
    requires
        retry.attempt <= last <= retry.max_attempts <= outcomes.len(),
        forall|i: int| retry.attempt <= i < last ==> !fetch_usable(#[trigger] outcomes[i]),
        last < retry.max_attempts ==> fetch_usable(outcomes[last as int]),
    ensures
        carried_out(retry, retry.resume(), outcomes) == (
            if last < retry.max_attempts {
                RetryAction::Done(outcomes[last as int]->0)
            } else {
                RetryAction::Exhausted(retry.max_attempts)
            },
            delay_sum(retry.attempt as nat, last),
        ),
    decreases last - retry.attempt,
{
    reveal_with_fuel(carried_out, 3);
    if retry.attempt < last {
        assert(!fetch_usable(outcomes[retry.attempt as int]));
        carried_out_ends(retry.after_failure(), outcomes, last);
    }
}

/// A bootstrap with retries ends with the first credentials fetched that can be used,
/// provided they come within the allowed attempts, and after the pauses of the failed
/// attempts before them.
pub proof fn first_usable_credentials_win(
    max_attempts: usize,
    outcomes: Seq<Option<BootstrapResponse>>,
    first: nat,
)
    requires
        first < max_attempts <= outcomes.len(),
        fetch_usable(outcomes[first as int]),
        forall|i: int| 0 <= i < first ==> !fetch_usable(#[trigger] outcomes[i]),
    ensures
        ({
            let begun = BootstrapRetry { attempt: 0, max_attempts };
            let (retry, action) = begun.step(RetryEvent::Started);
            carried_out(retry, action, outcomes) == (
                RetryAction::Done(outcomes[first as int]->0),
                delay_sum(0, first),
            )
        }),
{
    carried_out_ends(BootstrapRetry { attempt: 0, max_attempts }, outcomes, first);
}

/// A bootstrap with retries none of whose fetches brings credentials that can be used
/// ends without any after exactly the allowed attempts, each followed by its pause.
pub proof fn useless_fetches_exhaust(
    max_attempts: usize,
    outcomes: Seq<Option<BootstrapResponse>>,
)
    requires
        max_attempts <= outcomes.len(),
        forall|i: int| 0 <= i < max_attempts ==> !fetch_usable(#[trigger] outcomes[i]),
    ensures
        ({
            let begun = BootstrapRetry { attempt: 0, max_attempts };
            let (retry, action) = begun.step(RetryEvent::Started);
            carried_out(retry, action, outcomes) == (
                RetryAction::Exhausted(max_attempts),
                delay_sum(0, max_attempts as nat),
            )
        }),
{
    carried_out_ends(
        BootstrapRetry { attempt: 0, max_attempts },
        outcomes,
        max_attempts as nat,
    );
}

/// Backoff is exponential: the first pause is five seconds, and each further one is twice
/// the one before, up to a minute.
pub proof fn delay_doubles(attempt: nat)
    ensures
        retry_delay(0) == 5,
        retry_delay(attempt + 1) == if 2 * retry_delay(attempt) < 60 {
            2 * retry_delay(attempt)
        } else {
            60
        },
{
    vstd::arithmetic::power2::lemma_pow2_unfold(attempt + 1);
    vstd::arithmetic::power2::lemma2_to64();
}

/// Pauses never shrink from one attempt to a later one, and last between five seconds
/// and a minute.
pub proof fn delays_back_off(earlier: nat, later: nat)
    requires
        earlier <= later,
    ensures
        5 <= retry_delay(earlier) <= retry_delay(later) <= 60,
    decreases later,
{
    if earlier < later {
        delays_back_off(earlier, (later - 1) as nat);
        delay_doubles((later - 1) as nat);
    } else {
        vstd::arithmetic::power2::lemma_pow2_pos(earlier);
    }
}

proof fn split_at_last_bar(a: Seq<char>, b: Seq<char>, c: Seq<char>, d: Seq<char>)
    requires
        a + seq!['|'] + b == c + seq!['|'] + d,
        !b.contains('|'),
        !d.contains('|'),
    ensures
        a == c,
        b == d,
{
    let s = a + seq!['|'] + b;
    let t = c + seq!['|'] + d;
    assert(s.len() == a.len() + 1 + b.len());
    assert(t.len() == c.len() + 1 + d.len());
    assert(s[a.len() as int] == '|');
    assert(t[c.len() as int] == '|');
    if a.len() < c.len() {
        assert(s[c.len() as int] == b[c.len() - a.len() - 1]);
    }
    if c.len() < a.len() {
        assert(t[a.len() as int] == d[a.len() - c.len() - 1]);
    }
    assert(a =~= s.subrange(0, a.len() as int));
    assert(c =~= t.subrange(0, c.len() as int));
    assert(b =~= s.subrange(a.len() as int + 1, s.len() as int));
    assert(d =~= t.subrange(c.len() as int + 1, t.len() as int));
}

proof fn split_at_first_bar(a: Seq<char>, b: Seq<char>, c: Seq<char>, d: Seq<char>)
    requires
        a + seq!['|'] + b == c + seq!['|'] + d,
        !a.contains('|'),
        !c.contains('|'),
    ensures
        a == c,
        b == d,
{
    let s = a + seq!['|'] + b;
    let t = c + seq!['|'] + d;
    assert(s.len() == a.len() + 1 + b.len());
    assert(t.len() == c.len() + 1 + d.len());
    assert(s[a.len() as int] == '|');
    assert(t[c.len() as int] == '|');
    if a.len() < c.len() {
        assert(t[a.len() as int] == c[a.len() as int]);
    }
    if c.len() < a.len() {
        assert(s[c.len() as int] == a[c.len() as int]);
    }
    assert(a =~= s.subrange(0, a.len() as int));
    assert(c =~= t.subrange(0, c.len() as int));
    assert(b =~= s.subrange(a.len() as int + 1, s.len() as int));
    assert(d =~= t.subrange(c.len() as int + 1, t.len() as int));
}

/// The text that is signed tells its four parts apart, as long as verbs and nonces hold
/// no bar: no signature serves for a second verb, path, timestamp or nonce.
pub proof fn signed_text_fixes_the_request(
    verb1: Seq<char>,
    path1: Seq<char>,
    timestamp1: u64,
    nonce1: Seq<char>,
    verb2: Seq<char>,
    path2: Seq<char>,
    timestamp2: u64,
    nonce2: Seq<char>,
)
    requires
        signed_text(verb1, path1, timestamp1, nonce1) == signed_text(
            verb2,
            path2,
            timestamp2,
            nonce2,
        ),
        !verb1.contains('|'),
        !verb2.contains('|'),
        !nonce1.contains('|'),
        !nonce2.contains('|'),
    ensures
        verb1 == verb2,
        path1 == path2,
        timestamp1 == timestamp2,
        nonce1 == nonce2,
{
    let target1 = verb1 + seq!['|'] + path1;
    let target2 = verb2 + seq!['|'] + path2;
    let time1 = text::decimal(timestamp1 as nat);
    let time2 = text::decimal(timestamp2 as nat);
    text::decimal_reads_back(timestamp1 as nat);
    text::decimal_reads_back(timestamp2 as nat);
    split_at_last_bar(
        target1 + seq!['|'] + time1,
        nonce1,
        target2 + seq!['|'] + time2,
        nonce2,
    );
    split_at_last_bar(target1, time1, target2, time2);
    split_at_first_bar(verb1, path1, verb2, path2);
}

/// A random nonce holds no bar.
pub proof fn uuid_holds_no_bar(nonce: Seq<char>)
    requires
        crypto::uuid_v4_text(nonce),
    ensures
        !nonce.contains('|'),
{
}

/// White space around the text of a key file changes nothing.
pub proof fn key_file_white_space_is_ignored(
    raw: Seq<char>,
    parsed: Option<(Seq<char>, Seq<char>)>,
)
    ensures
        loaded_keys(text::trimmed(raw), parsed) == loaded_keys(raw, parsed),
{
    text::trimmed_twice(raw);
}

/// The public key of a bare private key is the one that belongs to its seed.
pub proof fn bare_key_matches_its_public_key(
    raw: Seq<char>,
    parsed: Option<(Seq<char>, Seq<char>)>,
)
    requires
        json_text(raw) is None,
        loaded_keys(raw, parsed) is Ok,
    ensures
        loaded_keys(raw, parsed)->Ok_0.1 == crypto::ed25519_public_key(
            loaded_keys(raw, parsed)->Ok_0.0,
        ),
{
}

/// A key in base64 is what the standard alphabet gives, if it gives anything, whatever the
/// URL-safe one would give; where the standard one refuses it, it is what the other gives.
pub proof fn standard_alphabet_comes_first(text: Seq<char>)
    ensures
        crypto::base64_standard_decoded(text) is Some ==> key_bytes(text)
            == crypto::base64_standard_decoded(text),
        crypto::base64_standard_decoded(text) is None ==> key_bytes(text)
            == crypto::base64_url_decoded(text),
{
}

/// A private key of 32 bytes is its own seed; any 32 bytes behind any 16 are the seed of
/// the 48; bytes of any other length are up to the PKCS#8 parser.
pub proof fn seed_goes_by_the_length(seed: Seq<u8>, prefix: Seq<u8>, other: Seq<u8>)
    requires
        seed.len() == 32,
        prefix.len() == 16,
        other.len() != 32,
        other.len() != 48,
    ensures
        key_seed(seed) == Some(seed),
        key_seed(prefix + seed) == Some(seed),
        key_seed(other) == crypto::pkcs8_seed(other),
{
    assert((prefix + seed).subrange(16, 48) =~= seed);
}

/// A key file that begins with a brace, white space around it aside, is a JSON document,
/// and is that text without the white space; any other is none. Without a document that
/// could be parsed, the file is refused; with one, its two keys are what counts.
pub proof fn key_file_goes_by_its_first_character(
    before: Seq<char>,
    core: Seq<char>,
    after: Seq<char>,
    public_key: Seq<char>,
    private_key: Seq<char>,
)
    requires
        forall|i: int| 0 <= i < before.len() ==> text::white_space(#[trigger] before[i]),
        forall|i: int| 0 <= i < after.len() ==> text::white_space(#[trigger] after[i]),
        core.len() > 0 ==> !text::white_space(core.first()) && !text::white_space(core.last()),
    ensures
        ({
            let raw = before + core + after;
            let document = core.len() > 0 && core[0] == '{';
            let parsed = Some((public_key, private_key));
            &&& document ==> json_text(raw) == Some(core)
            &&& !document ==> json_text(raw) is None
            &&& document ==> loaded_keys(raw, None) == Err::<(Seq<u8>, Seq<u8>), _>(
                KeyFault::ParseJson,
            )
            &&& document ==> loaded_keys(raw, parsed) == keys_of_pair(
                key_bytes(private_key),
                key_bytes(public_key),
            )
            &&& !document ==> loaded_keys(raw, parsed) == keys_of_private(key_bytes(core))
            &&& !document ==> loaded_keys(raw, None) == keys_of_private(key_bytes(core))
        }),
{
    text::white_space_around_a_text_goes(before, core, after);
}

/// The two keys of a file are kept apart and as they are: the seed is that of the private
/// key and the public key is the one in the file, provided it has 32 bytes. The private
/// key is looked at first, and each refusal names the key that is at fault.
pub proof fn keys_of_a_file_are_kept_apart(private: Seq<u8>, public: Seq<u8>)
    ensures
        key_seed(private) is Some && public.len() == 32 ==> keys_of_pair(
            Some(private),
            Some(public),
        ) == Ok::<_, KeyFault>((key_seed(private)->0, public)),
        key_seed(private) is Some && public.len() != 32 ==> keys_of_pair(
            Some(private),
            Some(public),
        ) == Err::<(Seq<u8>, Seq<u8>), _>(KeyFault::PublicKeyLength(public.len())),
        key_seed(private) is Some ==> keys_of_pair(Some(private), None) == Err::<
            (Seq<u8>, Seq<u8>),
            _,
        >(KeyFault::DecodePublicKey),
        key_seed(private) is None ==> keys_of_pair(Some(private), Some(public)) == Err::<
            (Seq<u8>, Seq<u8>),
            _,
        >(KeyFault::Pkcs8),
        key_seed(private) is None ==> keys_of_pair(Some(private), None) == Err::<
            (Seq<u8>, Seq<u8>),
            _,
        >(KeyFault::Pkcs8),
        keys_of_pair(None, Some(public)) == Err::<(Seq<u8>, Seq<u8>), _>(
            KeyFault::DecodePrivateKey,
        ),
        keys_of_pair(None, None) == Err::<(Seq<u8>, Seq<u8>), _>(KeyFault::DecodePrivateKey),
        keys_of_private(None) == Err::<(Seq<u8>, Seq<u8>), _>(KeyFault::DecodeRawKey),
        key_seed(private) is None ==> keys_of_private(Some(private)) == Err::<
            (Seq<u8>, Seq<u8>),
            _,
        >(KeyFault::Pkcs8),
        key_seed(private) is Some ==> keys_of_private(Some(private)) == Ok::<_, KeyFault>(
            (key_seed(private)->0, crypto::ed25519_public_key(key_seed(private)->0)),
        ),
{
}

/// The four headers carry the public key, the signature, the time and the nonce, in this
/// order, and the signature is one of just the verb, the path, and the time and nonce that
/// the headers carry.
pub proof fn headers_carry_what_was_signed(
    verb: Seq<char>,
    path: Seq<char>,
    seed: Seq<u8>,
    public_key: Seq<u8>,
    timestamp: u64,
    nonce: Seq<char>,
)
    ensures
        ({
            let headers = request_headers(verb, path, seed, public_key, timestamp, nonce);
            let bar = seq!['|'];
            &&& headers.len() == 4
            &&& headers[0] == ("X-Agent-Public-Key"@, crypto::base64_standard_encoded(public_key))
            &&& headers[1] == (
                "X-Agent-Signature"@,
                crypto::base64_standard_encoded(
                    crypto::ed25519_signature(
                        seed,
                        vstd::utf8::encode_utf8(
                            verb + bar + path + bar + headers[2].1 + bar + headers[3].1,
                        ),
                    ),
                ),
            )
            &&& headers[2] == ("X-Agent-Timestamp"@, text::decimal(timestamp as nat))
            &&& headers[3] == ("X-Agent-Nonce"@, nonce)
        }),
{
}

/// The endpoint is reached under the gateway's URL, whether that ends in slashes or not.
pub proof fn slashes_behind_the_gateway_go(gateway: Seq<char>, slashes: Seq<char>)
    requires
        forall|i: int| 0 <= i < slashes.len() ==> #[trigger] slashes[i] == '/',
        gateway.len() > 0 ==> gateway.last() != '/',
    ensures
        endpoint_url(gateway + slashes) == gateway + "/api/v1/device/bootstrap"@,
{
    text::trailing_run_goes(gateway, slashes, '/');
}

/// What is reported of a body is the body as far as 200 bytes go: all of it where it is no
/// longer, and else the text of its first 200 bytes.
pub proof fn excerpt_is_the_first_200_bytes(body: Seq<char>)
    ensures
        vstd::utf8::encode_utf8(body).len() <= 200 ==> excerpt(body) == body && excerpt_len(body)
            == vstd::utf8::encode_utf8(body).len(),
        vstd::utf8::encode_utf8(body).len() > 200 ==> excerpt_len(body) == 200 && excerpt(body)
            == vstd::utf8::decode_utf8(vstd::utf8::encode_utf8(body).subrange(0, 200)),
{
    let bytes = vstd::utf8::encode_utf8(body);
    if bytes.len() <= 200 {
        vstd::utf8::encode_utf8_decode_utf8(body);
        assert(bytes.subrange(0, bytes.len() as int) =~= bytes);
    }
}

/// Credentials can be used exactly if neither the token nor the topic is empty, whatever
/// else they hold.
pub proof fn usable_credentials(response: BootstrapResponse)
    ensures
        response.usable() <==> response.mqtt_token@.len() > 0 && response.device_topic@.len() > 0,
        fetch_usable(Some(response)) <==> response.usable(),
        !fetch_usable(None),
{
}

} // verus!
