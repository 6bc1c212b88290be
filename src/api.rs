//! The envelope of the surrounding API: JSON text encrypted under a 16-byte
//! token with AES-128-CTR, a random 16-byte IV in front, framed as base64.
//! The JSON itself is read and written by the embedding program.
use vstd::prelude::*;
use crate::bytes::push_all;
use crate::prim::{aes_ctr, aes_ctr_of, base64_decode, base64_encode, base64_of, random_iv};

verus! {

/// The length of the IV in front of an envelope's ciphertext.
pub const IV_LEN: usize = 16;

/// `{`, which a decrypted request must start with.
pub const LEFT_BRACKET: u8 = 123;

/// `}`, which a decrypted request must end with.
pub const RIGHT_BRACKET: u8 = 125;

/// Replies of the network part of the API.
#[derive(Clone, Debug, PartialEq, Eq)]
pub enum NetworkResponse {
    VersionInfo { version: String },
    SubscribedUnicast,
    SubscribedBroadcast,
    UnsubscribedUnicast,
    UnsubscribedBroadcast,
    SentUnicast,
    PublishedBroadcast,
    Error { error: String },
}

pub open spec fn response_type(r: NetworkResponse) -> Seq<char> {
    match r {
        NetworkResponse::VersionInfo { .. } => "version_info"@,
        NetworkResponse::SubscribedUnicast => "subscribed_unicast"@,
        NetworkResponse::SubscribedBroadcast => "subscribed_broadcast"@,
        NetworkResponse::UnsubscribedUnicast => "unsubscribed_unicast"@,
        NetworkResponse::UnsubscribedBroadcast => "unsubscribed_broadcast"@,
        NetworkResponse::SentUnicast => "sent_unicast"@,
        NetworkResponse::PublishedBroadcast => "published_broadcast"@,
        NetworkResponse::Error { .. } => "error"@,
    }
}

impl NetworkResponse {
    /// The value of the `type` field that tags this reply on the wire.
    pub fn kind(&self) -> (r: &'static str)
        ensures
            r@ == response_type(*self),
    {
        match self {
            NetworkResponse::VersionInfo { .. } => "version_info",
            NetworkResponse::SubscribedUnicast => "subscribed_unicast",
            NetworkResponse::SubscribedBroadcast => "subscribed_broadcast",
            NetworkResponse::UnsubscribedUnicast => "unsubscribed_unicast",
            NetworkResponse::UnsubscribedBroadcast => "unsubscribed_broadcast",
            NetworkResponse::SentUnicast => "sent_unicast",
            NetworkResponse::PublishedBroadcast => "published_broadcast",
            NetworkResponse::Error { .. } => "error",
        }
    }
}

/// Why an envelope was refused.
#[derive(Clone, Copy, Debug, PartialEq, Eq)]
pub enum EnvelopeError {
    /// The text is not base64.
    Base64,
    /// The bytes are too short to hold an IV.
    TooShort,
    /// The plaintext is not bracketed as a JSON object: wrong token or
    /// damaged data.
    NotJson,
}

/// The cipher key for a token and an IV.
fn envelope_key(token: &[u8; 16], iv: &[u8; 16]) -> (r: [u8; 32])
    ensures
        r@ == token@ + iv@,
{
    let mut k = [0u8; 32];
    let mut i: usize = 0;
    while i < 16
        invariant
            0 <= i <= 16,
            k@.len() == 32,
            token@.len() == 16,
            iv@.len() == 16,
            forall|j: int| 0 <= j < i ==> k@[j] == token@[j] && k@[16 + j] == iv@[j],
        decreases 16 - i,
    {
        k[i] = token[i];
        k[16 + i] = iv[i];
        i = i + 1;
    }
    assert(k@ =~= token@ + iv@);
    k
}

/// The envelope of `plaintext` under `token` with IV `iv`: the IV, then the
/// ciphertext.
pub fn encrypt_with(token: &[u8; 16], iv: &[u8; 16], plaintext: &Vec<u8>) -> (r: Vec<u8>)
    ensures
        r@ == iv@ + aes_ctr_of(token@ + iv@, plaintext@),
        aes_ctr_of(token@ + iv@, plaintext@).len() == plaintext@.len(),
        aes_ctr_of(token@ + iv@, aes_ctr_of(token@ + iv@, plaintext@)) == plaintext@,
{
    let key = envelope_key(token, iv);
    let body = aes_ctr(&key, plaintext);
    let mut out: Vec<u8> = Vec::new();
    let mut i: usize = 0;
    while i < 16
        invariant
            0 <= i <= 16,
            iv@.len() == 16,
            out@ == iv@.subrange(0, i as int),
        decreases 16 - i,
    {
        out.push(iv[i]);
        assert(out@ =~= iv@.subrange(0, i + 1));
        i = i + 1;
    }
    assert(iv@.subrange(0, 16) =~= iv@);
    push_all(&mut out, &body);
    out
}

/// The envelope of `plaintext` under `token`, with a fresh IV.
pub fn encrypt(token: &[u8; 16], plaintext: &Vec<u8>) -> (r: Vec<u8>)
    ensures
        r@.len() == 16 + plaintext@.len(),
        aes_ctr_of(token@ + r@.subrange(0, 16), r@.subrange(16, r@.len() as int)) == plaintext@,
{
    let iv = random_iv();
    let r = encrypt_with(token, &iv, plaintext);
    assert(r@.subrange(0, 16) =~= iv@);
    assert(r@.subrange(16, r@.len() as int) =~= aes_ctr_of(token@ + iv@, plaintext@));
    r
}

/// Opens an envelope: `None` where it is too short to hold an IV.
pub fn decrypt(token: &[u8; 16], ciphertext: &Vec<u8>) -> (r: Option<Vec<u8>>)
    ensures
        r is None <==> ciphertext@.len() < 16,
        r matches Some(p) ==> p@ == aes_ctr_of(
            token@ + ciphertext@.subrange(0, 16),
            ciphertext@.subrange(16, ciphertext@.len() as int),
        ),
{
    let n = ciphertext.len();
    if n < IV_LEN {
        return None;
    }
    let mut iv = [0u8; 16];
    let mut i: usize = 0;
    while i < 16
        invariant
            0 <= i <= 16,
            iv@.len() == 16,
            n == ciphertext@.len(),
            n >= 16,
            forall|j: int| 0 <= j < i ==> iv@[j] == ciphertext@[j],
        decreases 16 - i,
    {
        iv[i] = ciphertext[i];
        i = i + 1;
    }
    assert(iv@ =~= ciphertext@.subrange(0, 16));
    let mut body: Vec<u8> = Vec::new();
    let mut j: usize = 16;
    while j < n
        invariant
            16 <= j <= n,
            n == ciphertext@.len(),
            body@ == ciphertext@.subrange(16, j as int),
        decreases n - j,
    {
        body.push(ciphertext[j]);
        assert(body@ =~= ciphertext@.subrange(16, j + 1));
        j = j + 1;
    }
    let key = envelope_key(token, &iv);
    Some(aes_ctr(&key, &body))
}

/// Whether a plaintext is bracketed as a JSON object.
pub open spec fn bracketed(p: Seq<u8>) -> bool {
    p.len() >= 2 && p[0] == LEFT_BRACKET && p[p.len() - 1] == RIGHT_BRACKET
}

/// The envelope of JSON text `json`, as base64.
pub fn encode(token: &[u8; 16], json: &Vec<u8>) -> (r: String)
    ensures
        exists|c: Seq<u8>| r@ == base64_of(c) && c.len() == 16 + json@.len() && aes_ctr_of(
            token@ + c.subrange(0, 16),
            c.subrange(16, c.len() as int),
        ) == json@,
{
    let c = encrypt(token, json);
    base64_encode(&c)
}

/// Opens a base64 envelope and checks that it holds a JSON object.
pub fn decode(token: &[u8; 16], msg: &str) -> (r: Result<Vec<u8>, EnvelopeError>)
    ensures
        forall|c: Seq<u8>|
            #[trigger] base64_of(c) == msg@ ==> match r {
                Ok(p) => c.len() >= 16 && p@ == aes_ctr_of(
                    token@ + c.subrange(0, 16),
                    c.subrange(16, c.len() as int),
                ) && bracketed(p@),
                Err(EnvelopeError::Base64) => false,
                Err(EnvelopeError::TooShort) => c.len() < 16,
                Err(EnvelopeError::NotJson) => c.len() >= 16 && !bracketed(
                    aes_ctr_of(token@ + c.subrange(0, 16), c.subrange(16, c.len() as int)),
                ),
            },
        r == Err::<Vec<u8>, EnvelopeError>(EnvelopeError::Base64) ==> forall|c: Seq<u8>|
            #[trigger] base64_of(c) != msg@,
{
    let data = match base64_decode(msg) {
        Some(d) => d,
        None => {
            return Err(EnvelopeError::Base64);
        },
    };
    let plain = match decrypt(token, &data) {
        Some(p) => p,
        None => {
            return Err(EnvelopeError::TooShort);
        },
    };
    let n = plain.len();
    if n < 2 || plain[0] != LEFT_BRACKET || plain[n - 1] != RIGHT_BRACKET {
        return Err(EnvelopeError::NotJson);
    }
    Ok(plain)
}

} // verus!
