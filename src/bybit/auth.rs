//! Request signing for the exchange's REST and WebSocket APIs.
use vstd::prelude::*;
use vstd::string::StringExecFns;
use hmac::{Hmac, Mac};
use sha2::Sha256;
use crate::clock::now_millis;

verus! {

/// How long a WebSocket authentication stays valid, in milliseconds.
pub const WS_AUTH_VALIDITY_MS: u64 = 10000;

/// HMAC-SHA256 of `message` under `key`, both taken as the UTF-8 bytes of the text.
pub uninterp spec fn hmac_sha256_of(key: Seq<char>, message: Seq<char>) -> Seq<u8>;

/// Lower-case hexadecimal digit of a value below 16.
pub open spec fn hex_digit(n: int) -> char {
    if n < 10 {
        (48 + n) as char
    } else {
        (87 + n) as char
    }
}

/// Two lower-case hexadecimal digits per byte, most significant first.
pub open spec fn hex_of(b: Seq<u8>) -> Seq<char>
    decreases b.len(),
{
    if b.len() == 0 {
        Seq::empty()
    } else {
        hex_of(b.drop_last()) + seq![hex_digit(b.last() as int / 16), hex_digit(b.last() as int % 16)]
    }
}

/// Decimal digits of `n`, without leading zeros.
pub open spec fn decimal_of(n: nat) -> Seq<char>
    decreases n,
{
    if n < 10 {
        seq![(48 + n) as char]
    } else {
        decimal_of(n / 10).push((48 + n % 10) as char)
    }
}

/// The text signed for a REST request: timestamp, API key, then the parameters.
pub open spec fn rest_sign_text(timestamp: u64, api_key: Seq<char>, params: Seq<char>) -> Seq<char> {
    decimal_of(timestamp as nat) + api_key + params
}

/// The text signed for WebSocket authentication.
pub open spec fn ws_sign_text(expires: u64) -> Seq<char> {
    seq!['G', 'E', 'T', '/', 'r', 'e', 'a', 'l', 't', 'i', 'm', 'e'] + decimal_of(expires as nat)
}

/// Relies on `hmac::Hmac::<Sha256>`: `new_from_slice` takes a key of any length, and the
/// finalized code is the 32-byte HMAC-SHA256 of the message.
#[verifier::external_body]
fn hmac_sha256(key: &str, message: &str) -> (r: Vec<u8>)
    ensures
        r@ == hmac_sha256_of(key@, message@),
        r@.len() == 32,
{
    let mut mac = Hmac::<Sha256>::new_from_slice(key.as_bytes()).expect("any key length");
    mac.update(message.as_bytes());
    mac.finalize().into_bytes().to_vec()
}

/// Relies on `hex::encode`: two lower-case hexadecimal digits per byte.
#[verifier::external_body]
fn hex_encode(bytes: &Vec<u8>) -> (r: String)
    ensures
        r@ == hex_of(bytes@),
{
    hex::encode(bytes)
}

/// Relies on `u64::to_string`: the decimal digits of the number.
#[verifier::external_body]
fn decimal_string(n: u64) -> (r: String)
    ensures
        r@ == decimal_of(n as nat),
{
    n.to_string()
}

proof fn lemma_hex_len(b: Seq<u8>)
    ensures
        hex_of(b).len() == 2 * b.len(),
    decreases b.len(),
{
    if b.len() > 0 {
        lemma_hex_len(b.drop_last());
    }
}

pub struct BybitAuth {
    api_key: String,
    api_secret: String,
}

impl BybitAuth {
    pub closed spec fn key(&self) -> Seq<char> {
        self.api_key@
    }

    pub closed spec fn secret(&self) -> Seq<char> {
        self.api_secret@
    }

    pub fn new(api_key: String, api_secret: String) -> (r: Self)
        ensures
            r.key() == api_key@,
            r.secret() == api_secret@,
    {
        BybitAuth { api_key, api_secret }
    }

    pub fn get_api_key(&self) -> (r: &str)
        ensures
            r@ == self.key(),
    {
        self.api_key.as_str()
    }

    /// Signature of a REST request: the hexadecimal HMAC-SHA256, under the API secret, of
    /// the timestamp, the API key and the parameters.
    pub fn generate_signature(&self, timestamp: u64, params: &str) -> (r: String)
        ensures
            r@ == hex_of(hmac_sha256_of(self.secret(), rest_sign_text(timestamp, self.key(), params@))),
            r@.len() == 64,
    {
        let mut text = decimal_string(timestamp);
        text.append(self.api_key.as_str());
        text.append(params);
        let code = hmac_sha256(self.api_secret.as_str(), text.as_str());
        proof {
            lemma_hex_len(code@);
        }
        hex_encode(&code)
    }

    /// Current time in milliseconds since the Unix epoch.
    pub fn get_timestamp() -> (r: u64) {
        now_millis()
    }

    /// WebSocket authentication valid until `now` plus ten seconds: the API key, the
    /// expiry in decimal, and the hexadecimal HMAC-SHA256 of `GET/realtime` and the expiry.
    pub fn generate_ws_auth_at(&self, now: u64) -> (r: (String, String, String))
        ensures
            ({
                let expires: u64 = if now <= u64::MAX - WS_AUTH_VALIDITY_MS { (now + WS_AUTH_VALIDITY_MS) as u64 } else { u64::MAX };
                &&& r.0@ == self.key()
                &&& r.1@ == decimal_of(expires as nat)
                &&& r.2@ == hex_of(hmac_sha256_of(self.secret(), ws_sign_text(expires)))
                &&& r.2@.len() == 64
            }),
    {
        let expires: u64 = if now <= u64::MAX - WS_AUTH_VALIDITY_MS {
            now + WS_AUTH_VALIDITY_MS
        } else {
            u64::MAX
        };
        let mut text = String::from_str("GET/realtime");
        proof {
            reveal_strlit("GET/realtime");
        }
        let digits = decimal_string(expires);
        text.append(digits.as_str());
        assert(text@ =~= ws_sign_text(expires));
        let code = hmac_sha256(self.api_secret.as_str(), text.as_str());
        proof {
            lemma_hex_len(code@);
        }
        (self.api_key.clone(), digits, hex_encode(&code))
    }

    /// WebSocket authentication valid for ten seconds from now.
    pub fn generate_ws_auth(&self) -> (r: (String, String, String))
        ensures
            r.0@ == self.key(),
            r.2@.len() == 64,
    {
        let now = Self::get_timestamp();
        self.generate_ws_auth_at(now)
    }
}

} // verus!
