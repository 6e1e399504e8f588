//! The header that signs a request.

use vstd::prelude::*;
use vstd::string::{StringExecFns, StringSliceAdditionalSpecFns};
use crate::config::{text_or_empty, Config};

verus! {

/// The Base64 encoding, with the standard alphabet and padding, of the
/// UTF-8 bytes of a text.
pub uninterp spec fn base64_standard(text: Seq<char>) -> Seq<char>;

/// `base64::Engine::encode` on `base64::engine::general_purpose::STANDARD`:
/// encodes the bytes of its input as Base64 and returns the encoding as a
/// string. The encoding depends on the input alone, so the contract gives
/// it a name and says no more. The call panics where the length of the
/// encoding does not fit a `usize`, which the bound on the input rules out.
#[verifier::external_body]
pub(crate) fn encode_standard(input: &str) -> (r: String)
    requires
        input.spec_bytes().len() <= isize::MAX,
    ensures
        r@ == base64_standard(input@),
{
    base64::Engine::encode(&base64::engine::general_purpose::STANDARD, input)
}

/// The credentials of basic authentication: the address, a colon, the
/// token.
pub fn credentials(email: &str, token: &str) -> (r: String)
    ensures
        r@ == email@ + ":"@ + token@,
{
    let mut out = String::from_str(email);
    out.append(":");
    out.append(token);
    out
}

/// The value of the authorization header for encoded credentials.
pub fn basic_header(encoded: &str) -> (r: String)
    ensures
        r@ == "Basic "@ + encoded@,
{
    let mut out = String::from_str("Basic ");
    out.append(encoded);
    out
}

/// The credentials of `config` as they are encoded.
pub open spec fn plain_credentials(config: &Config) -> Seq<char> {
    text_or_empty(config.email) + ":"@ + text_or_empty(config.token)
}

/// The value of the authorization header for the account of `config`. The
/// credentials must take no more bytes than a string in memory can have.
pub fn auth_header(config: &Config) -> (r: String)
    requires
        vstd::utf8::encode_utf8(plain_credentials(config)).len() <= isize::MAX,
    ensures
        r@ == "Basic "@ + base64_standard(
            text_or_empty(config.email) + ":"@ + text_or_empty(config.token),
        ),
{
    let plain = credentials(config.email(), config.token());
    let encoded = encode_standard(plain.as_str());
    basic_header(encoded.as_str())
}

} // verus!
