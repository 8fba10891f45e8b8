//! The `Authorization` header of a run.

use base64::Engine;
use vstd::prelude::*;
use crate::cli::AuthType;
use crate::config::AuthConfig;
use crate::text::{chars_to_string, optional_text, push_str, str_chars};

verus! {

/// The standard base64 encoding of `bytes`, with padding, as the `base64`
/// crate's `STANDARD` engine writes it.
pub uninterp spec fn base64_standard(bytes: Seq<u8>) -> Seq<char>;

/// Wraps `Engine::encode` of `base64::engine::general_purpose::STANDARD`.
/// The contract only gives the outcome its name. The call fails only where
/// the encoded length does not fit in `usize`, which no slice in memory
/// reaches.
#[verifier::external_body]
pub(crate) fn base64_encode(bytes: &[u8]) -> (r: String)
    ensures
        r@ == base64_standard(bytes@),
{
    base64::engine::general_purpose::STANDARD.encode(bytes)
}

/// The text of an optional field; empty where it is absent.
pub open spec fn text_or_empty(field: Option<String>) -> Seq<char> {
    match field {
        Some(s) => s@,
        None => Seq::empty(),
    }
}

/// The user name and the password as they are encoded for basic
/// authentication: joined by a colon.
pub open spec fn credentials(config: AuthConfig) -> Seq<char> {
    text_or_empty(config.username) + seq![':'] + text_or_empty(config.password)
}

/// The header of basic authentication around encoded credentials.
pub open spec fn basic_header(encoded: Seq<char>) -> Seq<char> {
    "Authorization: Basic "@ + encoded
}

/// The header that carries a bearer token.
pub open spec fn bearer_header(token: Seq<char>) -> Seq<char> {
    "Authorization: Bearer "@ + token
}

/// The header line that `config` asks for, if it asks for one.
pub open spec fn auth_header_spec(config: AuthConfig) -> Option<Seq<char>> {
    match config.auth_type {
        AuthType::NoAuth => None,
        AuthType::Basic => Some(
            basic_header(base64_standard(vstd::utf8::encode_utf8(credentials(config)))),
        ),
        AuthType::Bearer => Some(bearer_header(text_or_empty(config.token))),
        AuthType::Header => match config.custom_header {
            Some(h) => Some(h@),
            None => None,
        },
    }
}

fn push_optional(out: &mut Vec<char>, field: &Option<String>)
    ensures
        final(out)@ == old(out)@ + text_or_empty(*field),
{
    match field {
        Some(s) => push_str(out, s.as_str()),
        None => {
            assert(out@ =~= old(out)@ + Seq::<char>::empty());
        },
    }
}

/// Writes the header of basic authentication around encoded credentials.
pub fn basic_auth_header(encoded: &str) -> (r: String)
    ensures
        r@ == basic_header(encoded@),
{
    let mut out = str_chars("Authorization: Basic ");
    push_str(&mut out, encoded);
    chars_to_string(&out)
}

/// Writes the header that carries a bearer token.
pub fn bearer_auth_header(token: &str) -> (r: String)
    ensures
        r@ == bearer_header(token@),
{
    let mut out = str_chars("Authorization: Bearer ");
    push_str(&mut out, token);
    chars_to_string(&out)
}

/// Generates the `Authorization` header line from the configuration.
pub fn generate_auth_header(config: &AuthConfig) -> (r: Option<String>)
    ensures
        optional_text(r) == auth_header_spec(*config),
{
    match config.auth_type {
        AuthType::NoAuth => None,
        AuthType::Basic => {
            let mut text: Vec<char> = Vec::new();
            push_optional(&mut text, &config.username);
            text.push(':');
            push_optional(&mut text, &config.password);
            assert(text@ =~= credentials(*config));
            let joined = chars_to_string(&text);
            let encoded = base64_encode(joined.as_str().as_bytes());
            Some(basic_auth_header(encoded.as_str()))
        },
        AuthType::Bearer => {
            let mut token: Vec<char> = Vec::new();
            push_optional(&mut token, &config.token);
            assert(token@ =~= text_or_empty(config.token));
            let text = chars_to_string(&token);
            Some(bearer_auth_header(text.as_str()))
        },
        AuthType::Header => match &config.custom_header {
            Some(h) => Some(h.clone()),
            None => None,
        },
    }
}

/// The kinds of authentication, as a menu lists them.
pub fn get_auth_type_names() -> (r: Vec<&'static str>)
    ensures
        r@.len() == 4,
        r@[0]@ == "None"@,
        r@[1]@ == "Basic Auth"@,
        r@[2]@ == "Bearer Token"@,
        r@[3]@ == "API Key Header"@,
{
    vec!["None", "Basic Auth", "Bearer Token", "API Key Header"]
}

/// The kind of authentication at a place of the menu. A place beyond the
/// menu means no authentication.
pub open spec fn auth_type_at(index: usize) -> AuthType {
    if index == 1 {
        AuthType::Basic
    } else if index == 2 {
        AuthType::Bearer
    } else if index == 3 {
        AuthType::Header
    } else {
        AuthType::NoAuth
    }
}

/// Converts a place of the menu to a kind of authentication.
pub fn index_to_auth_type(index: usize) -> (r: AuthType)
    ensures
        r == auth_type_at(index),
{
    if index == 1 {
        AuthType::Basic
    } else if index == 2 {
        AuthType::Bearer
    } else if index == 3 {
        AuthType::Header
    } else {
        AuthType::NoAuth
    }
}

} // verus!
