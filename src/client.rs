//! Exchange credentials, request signing and request addresses.

use vstd::prelude::*;
use vstd::string::*;
use vstd::utf8::encode_utf8;
use hmac::{Hmac, Mac};
use sha2::Sha256;

verus! {

broadcast use vstd::string::group_string_axioms;

/// The HMAC-SHA256 tag of `msg` under `key`.
pub uninterp spec fn hmac_sha256_of(key: Seq<u8>, msg: Seq<u8>) -> Seq<u8>;

/// Relies on the hmac crate's `Hmac::<Sha256>` (`new_from_slice`, `update`,
/// `finalize`): the tag depends on the key and message alone and is 32 bytes
/// long. `new_from_slice` accepts keys of every length for HMAC.
#[verifier::external_body]
fn hmac_sha256(key: &[u8], msg: &[u8]) -> (r: Vec<u8>)
    ensures
        r@ == hmac_sha256_of(key@, msg@),
        r@.len() == 32,
{
    let mut mac = Hmac::<Sha256>::new_from_slice(key).expect("HMAC takes keys of any length");
    mac.update(msg);
    mac.finalize().into_bytes().to_vec()
}

/// Lower-case hexadecimal digit of `d < 16`.
pub open spec fn hex_digit(d: nat) -> char {
    seq!['0', '1', '2', '3', '4', '5', '6', '7', '8', '9', 'a', 'b', 'c', 'd', 'e', 'f'][d as int]
}

/// Two lower-case hexadecimal digits per byte, high nibble first.
pub open spec fn hex_text(b: Seq<u8>) -> Seq<char>
    decreases b.len(),
{
    if b.len() == 0 {
        Seq::empty()
    } else {
        hex_text(b.drop_last()) + seq![hex_digit(b.last() as nat / 16), hex_digit(b.last() as nat % 16)]
    }
}

proof fn lemma_hex_text_len(b: Seq<u8>)
    ensures
        hex_text(b).len() == 2 * b.len(),
    decreases b.len(),
{
    if b.len() > 0 {
        lemma_hex_text_len(b.drop_last());
    }
}

/// Relies on `hex::encode`: two lower-case digits per byte, high nibble
/// first.
#[verifier::external_body]
fn to_hex(b: &[u8]) -> (r: String)
    ensures
        r@ == hex_text(b@),
{
    hex::encode(b)
}

/// The signature of a query string: the hex HMAC-SHA256 of its UTF-8 bytes
/// under the secret key's UTF-8 bytes.
pub open spec fn signature_of(secret: Seq<char>, body: Seq<char>) -> Seq<char> {
    hex_text(hmac_sha256_of(encode_utf8(secret), encode_utf8(body)))
}

/// The address of a signed request.
pub open spec fn signed_url(host: Seq<char>, endpoint: Seq<char>, body: Seq<char>, secret: Seq<char>) -> Seq<char> {
    host + endpoint + "?"@ + body + "&signature="@ + signature_of(secret, body)
}

/// The address of an unsigned request: the query is left off when empty.
pub open spec fn unsigned_url(host: Seq<char>, endpoint: Seq<char>, body: Seq<char>) -> Seq<char> {
    if body.len() == 0 {
        host + endpoint
    } else {
        host + endpoint + "?"@ + body
    }
}

/// The headers of a request, as name and value.
pub open spec fn headers_of(api_key: Seq<char>, content_type: bool) -> Seq<(Seq<char>, Seq<char>)> {
    if content_type {
        seq![
            ("user-agent"@, "ott"@),
            ("content-type"@, "application/x-www-form-urlencoded"@),
            ("x-mbx-apikey"@, api_key),
        ]
    } else {
        seq![("user-agent"@, "ott"@), ("x-mbx-apikey"@, api_key)]
    }
}

/// The credentials of one exchange account and the exchange's base address.
pub struct Client {
    api_key: String,
    secret_key: String,
    host: String,
}

impl Client {
    pub closed spec fn spec_api_key(&self) -> Seq<char> {
        self.api_key@
    }

    pub closed spec fn spec_secret_key(&self) -> Seq<char> {
        self.secret_key@
    }

    pub closed spec fn spec_host(&self) -> Seq<char> {
        self.host@
    }

    pub fn new(api_key: String, secret_key: String, host: String) -> (r: Self)
        ensures
            r.spec_api_key() == api_key@,
            r.spec_secret_key() == secret_key@,
            r.spec_host() == host@,
    {
        Client { api_key, secret_key, host }
    }

    /// Signs the query string `request` and returns the full address:
    /// host, endpoint, `?`, the query, and `&signature=` with its signature.
    pub fn sign_request(&self, endpoint: &str, request: &str) -> (r: String)
        ensures
            r@ == signed_url(self.spec_host(), endpoint@, request@, self.spec_secret_key()),
            signature_of(self.spec_secret_key(), request@).len() == 64,
    {
        let tag = hmac_sha256(self.secret_key.as_str().as_bytes(), request.as_bytes());
        let signature = to_hex(tag.as_slice());
        proof {
            lemma_hex_text_len(tag@);
        }
        let mut url = self.host.clone();
        url.append(endpoint);
        url.append("?");
        url.append(request);
        url.append("&signature=");
        url.append(signature.as_str());
        assert(url@ =~= signed_url(self.spec_host(), endpoint@, request@, self.spec_secret_key()));
        url
    }

    /// The address of an unsigned request.
    pub fn unsigned_url(&self, endpoint: &str, request: &str) -> (r: String)
        ensures
            r@ == unsigned_url(self.spec_host(), endpoint@, request@),
    {
        let mut url = self.host.clone();
        url.append(endpoint);
        if request.unicode_len() > 0 {
            url.append("?");
            url.append(request);
        }
        assert(url@ =~= unsigned_url(self.spec_host(), endpoint@, request@));
        url
    }

    /// The headers of a request: the user agent, the form content type when
    /// asked for, and the API key.
    pub fn build_headers(&self, content_type: bool) -> (r: Vec<(String, String)>)
        ensures
            r@.map_values(|h: (String, String)| (h.0@, h.1@)) == headers_of(self.spec_api_key(), content_type),
    {
        let mut r: Vec<(String, String)> = Vec::new();
        r.push((String::from_str("user-agent"), String::from_str("ott")));
        if content_type {
            r.push((String::from_str("content-type"), String::from_str("application/x-www-form-urlencoded")));
        }
        r.push((String::from_str("x-mbx-apikey"), self.api_key.clone()));
        assert(r@.map_values(|h: (String, String)| (h.0@, h.1@)) =~= headers_of(self.spec_api_key(), content_type));
        r
    }
}

/// Signing is deterministic: clients with the same host and secret key sign
/// the same query string for the same endpoint into the same address.
pub proof fn lemma_signing_deterministic(a: Client, b: Client, endpoint: Seq<char>, body: Seq<char>)
    requires
        a.spec_host() == b.spec_host(),
        a.spec_secret_key() == b.spec_secret_key(),
    ensures
        signed_url(a.spec_host(), endpoint, body, a.spec_secret_key()) == signed_url(
            b.spec_host(),
            endpoint,
            body,
            b.spec_secret_key(),
        ),
        signature_of(a.spec_secret_key(), body) == signature_of(b.spec_secret_key(), body),
{
}

} // verus!
