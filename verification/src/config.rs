//! The node's configuration, which arrives base64-encoded and must decode
//! to UTF-8 text.
use vstd::prelude::*;
use vstd::utf8::{decode_utf8, valid_utf8};

verus! {

/// Why the encoded configuration could not be read.
#[derive(Clone, Copy, Debug, PartialEq, Eq)]
pub enum ConfigError {
    /// The text is not base64 (standard alphabet, padded).
    Base64,
    /// The decoded bytes are not UTF-8.
    Utf8,
}

/// The bytes that `text` decodes to as standard, padded base64 that may
/// carry trailing bits, or `None` when it is not such base64.
pub uninterp spec fn base64_decoded(text: Seq<char>) -> Option<Seq<u8>>;

/// `base64::decode_config` with the standard alphabet and trailing bits
/// allowed: the bytes are those that `base64_decoded` names.
#[verifier::external_body]
fn decode_base64(text: &str) -> (r: Option<Vec<u8>>)
    ensures
        r is None <==> base64_decoded(text@) is None,
        r matches Some(v) ==> base64_decoded(text@) == Some(v@),
{
    base64::decode_config(text, base64::STANDARD.decode_allow_trailing_bits(true)).ok()
}

/// `String::from_utf8`: the text the bytes encode, when they are valid
/// UTF-8.
#[verifier::external_body]
fn string_from_utf8(bytes: Vec<u8>) -> (r: Option<String>)
    ensures
        r is Some <==> valid_utf8(bytes@),
        r matches Some(s) ==> s@ == decode_utf8(bytes@),
{
    String::from_utf8(bytes).ok()
}

/// Read the bytes that base64 decoding gave (`None` when the text was not
/// base64) as UTF-8 text.
pub fn config_from_decoded(decoded: Option<Vec<u8>>) -> (r: Result<String, ConfigError>)
    ensures
        decoded is None ==> r == Err::<String, ConfigError>(ConfigError::Base64),
        decoded matches Some(b) ==> {
            &&& !valid_utf8(b@) ==> r == Err::<String, ConfigError>(ConfigError::Utf8)
            &&& valid_utf8(b@) ==> (r matches Ok(s) && s@ == decode_utf8(b@))
        },
{
    let bytes = match decoded {
        Some(b) => b,
        None => return Err(ConfigError::Base64),
    };
    match string_from_utf8(bytes) {
        Some(s) => Ok(s),
        None => Err(ConfigError::Utf8),
    }
}

/// Decode the configuration: base64 first, then UTF-8.
pub fn decode_config(config: &str) -> (r: Result<String, ConfigError>)
    ensures
        base64_decoded(config@) is None ==> r == Err::<String, ConfigError>(ConfigError::Base64),
        base64_decoded(config@) matches Some(b) ==> {
            &&& !valid_utf8(b) ==> r == Err::<String, ConfigError>(ConfigError::Utf8)
            &&& valid_utf8(b) ==> (r matches Ok(s) && s@ == decode_utf8(b))
        },
{
    config_from_decoded(decode_base64(config))
}

} // verus!
