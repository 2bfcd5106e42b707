//! The server certificate in the text form in which it is handed to clients.

use vstd::prelude::*;
use vstd::string::*;

verus! {

/// An error of the Base64 decoder.
#[verifier::external_type_specification]
#[verifier::external_body]
pub struct ExDecodeError(base64::DecodeError);

/// The standard Base64 text of a byte string, with padding.
pub uninterp spec fn base64_text(data: Seq<u8>) -> Seq<char>;

/// What a standard Base64 text stands for, if it is one.
pub uninterp spec fn base64_data(text: Seq<char>) -> Option<Seq<u8>>;

/// The length of the Base64 text of `len` bytes.
pub open spec fn base64_len(len: nat) -> nat {
    (len + 2) / 3 * 4
}

/// `base64::Engine::encode` of the standard engine: the text of the bytes, four characters for each
/// three bytes begun, which decodes to the bytes.
#[verifier::external_body]
fn base64_encode(data: &[u8]) -> (r: String)
    requires
        base64_len(data@.len()) <= isize::MAX,
    ensures
        r@ == base64_text(data@),
        r@.len() == base64_len(data@.len()),
        base64_data(r@) == Some(data@),
{
    base64::Engine::encode(&base64::engine::general_purpose::STANDARD, data)
}

/// `base64::Engine::decode` of the standard engine: the bytes that the text stands for, or an error
/// where it is no canonical Base64 text.
#[verifier::external_body]
fn base64_decode(text: &str) -> (r: Result<Vec<u8>, base64::DecodeError>)
    ensures
        match r {
            Ok(data) => base64_data(text@) == Some(data@),
            Err(_) => base64_data(text@) is None,
        },
{
    base64::Engine::decode(&base64::engine::general_purpose::STANDARD, text)
}

/// The text form of a certificate. It is read back as the certificate.
pub fn encode_certificate(der: &[u8]) -> (r: String)
    requires
        base64_len(der@.len()) <= isize::MAX,
    ensures
        r@ == base64_text(der@),
        r@.len() == base64_len(der@.len()),
        base64_data(r@) == Some(der@),
{
    base64_encode(der)
}

/// The certificate that a text form stands for.
pub fn decode_certificate(der_base64: &str) -> (r: Result<Vec<u8>, String>)
    ensures
        match r {
            Ok(der) => base64_data(der_base64@) == Some(der@),
            Err(message) => {
                &&& base64_data(der_base64@) is None
                &&& message@ == "failed decoding server certificate"@
            },
        },
{
    match base64_decode(der_base64) {
        Ok(der) => Ok(der),
        Err(_) => Err("failed decoding server certificate".to_owned()),
    }
}

} // verus!
