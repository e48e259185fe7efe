//! Signing and checking text with HMAC-SHA256.

use hmac::Hmac;
use hmac::Mac;
use sha2::Sha256;
use vstd::prelude::*;
use vstd::string::*;
use vstd::utf8::*;

use crate::text::lemma_bytes_determine_text;

verus! {

/// The HMAC-SHA256 code of `data` under `key`.
pub uninterp spec fn hmac_code(key: Seq<u8>, data: Seq<u8>) -> Seq<u8>;

/// `hmac::Hmac::<sha2::Sha256>`, fed with `key` and then `data`: the code that they determine,
/// which has 32 bytes. A key of any length is taken.
#[verifier::external_body]
fn hmac_sha256(key: &[u8], data: &[u8]) -> (r: Vec<u8>)
    ensures
        r@ == hmac_code(key@, data@),
        r@.len() == 32,
{
    let mut mac = Hmac::<Sha256>::new_from_slice(key).expect("HMAC can take key of any size");
    mac.update(data);
    mac.finalize().into_bytes().to_vec()
}

/// The lower case hexadecimal digit with value `n`.
pub open spec fn hex_digit(n: int) -> char {
    if n == 0 { '0' } else if n == 1 { '1' } else if n == 2 { '2' } else if n == 3 { '3' }
    else if n == 4 { '4' } else if n == 5 { '5' } else if n == 6 { '6' } else if n == 7 { '7' }
    else if n == 8 { '8' } else if n == 9 { '9' } else if n == 10 { 'a' } else if n == 11 { 'b' }
    else if n == 12 { 'c' } else if n == 13 { 'd' } else if n == 14 { 'e' } else { 'f' }
}

/// Two digits for each byte, the high half first.
pub open spec fn hex_text(bytes: Seq<u8>) -> Seq<char> {
    Seq::new(
        2 * bytes.len(),
        |i: int| hex_digit(if i % 2 == 0 { bytes[i / 2] / 16 } else { bytes[i / 2] % 16 } as int),
    )
}

/// `hex::encode`: two lower case hexadecimal digits for each byte.
#[verifier::external_body]
fn hex_encode(bytes: &Vec<u8>) -> (r: String)
    ensures
        r@ == hex_text(bytes@),
{
    hex::encode(bytes)
}

/// The signature of `input` under `secret`: its HMAC-SHA256 code, in hexadecimal.
pub open spec fn signature(secret: Seq<char>, input: Seq<char>) -> Seq<char> {
    hex_text(hmac_code(encode_utf8(secret), encode_utf8(input)))
}

/// Whether `given` is the signature of `input` under `secret`.
pub open spec fn verifies(secret: Seq<char>, input: Seq<char>, given: Seq<char>) -> bool {
    given == signature(secret, input)
}

/// The signature of a text verifies, and no other text does.
pub proof fn signed_text_verifies(secret: Seq<char>, input: Seq<char>, given: Seq<char>)
    ensures
        verifies(secret, input, signature(secret, input)),
        verifies(secret, input, given) ==> given == signature(secret, input),
{
}

/// Signs `input` with `secret`.
pub fn sign_text(secret: &str, input: &str) -> (r: String)
    ensures
        r@ == signature(secret@, input@),
        r@.len() == 64,
{
    let code = hmac_sha256(secret.as_bytes(), input.as_bytes());
    hex_encode(&code)
}

/// Whether two texts are equal. The time it takes depends on their lengths alone, not on where
/// they differ.
pub fn secure_compare(a: &str, b: &str) -> (r: bool)
    ensures
        r == (a@ == b@),
{
    let x = a.as_bytes();
    let y = b.as_bytes();
    proof {
        lemma_bytes_determine_text(a@, b@);
    }
    if x.len() != y.len() {
        return false;
    }
    let mut result: u8 = 0;
    let mut i: usize = 0;
    while i < x.len()
        invariant
            i <= x@.len(),
            x@.len() == y@.len(),
            result == 0 <==> (forall|j: int| 0 <= j < i ==> x@[j] == y@[j]),
        decreases x@.len() - i,
    {
        let before: u8 = result;
        let p: u8 = x[i];
        let q: u8 = y[i];
        result = before | (p ^ q);
        assert(before | (p ^ q) == 0 <==> before == 0 && p == q) by (bit_vector);
        i = i + 1;
    }
    proof {
        if result == 0 {
            assert(x@ =~= y@);
        }
    }
    result == 0
}

/// Signs and verifies text for one application.
pub struct Token {
    key: String,
    secret: String,
}

impl Token {
    /// The key that the token was made with.
    pub closed spec fn key_text(&self) -> Seq<char> {
        self.key@
    }

    /// The secret that the token signs with.
    pub closed spec fn secret_text(&self) -> Seq<char> {
        self.secret@
    }

    /// A token for an application with this key and secret.
    pub fn new(key: String, secret: String) -> (t: Self)
        ensures
            t.key_text() == key@,
            t.secret_text() == secret@,
    {
        Token { key, secret }
    }

    /// The hexadecimal HMAC-SHA256 signature of `input`.
    pub fn sign(&self, input: String) -> (r: String)
        ensures
            r@ == signature(self.secret_text(), input@),
            r@.len() == 64,
    {
        sign_text(self.secret.as_str(), input.as_str())
    }

    /// Whether `signature` is the signature of `input`.
    pub fn verify(&self, input: String, signature: &str) -> (r: bool)
        ensures
            r == verifies(self.secret_text(), input@, signature@),
    {
        let expected = self.sign(input);
        secure_compare(expected.as_str(), signature)
    }
}

} // verus!
