//! Provider endpoints, defaults, credential resolution and auth headers.

use vstd::prelude::*;
use crate::text::{concat2, concat3, owned, trim_end_char, trim_end_matches_char};
use crate::session::{trim_owned, trim_white};
use super::AiError;

verus! {

/// Default OpenAI chat model.
pub const DEFAULT_OPENAI_MODEL: &'static str = "gpt-4o";
/// Default OpenAI API base URL (`/chat/completions` is appended).
pub const DEFAULT_OPENAI_BASE_URL: &'static str = "https://api.openai.com/v1";
/// Default MiniMax chat model.
pub const DEFAULT_MINIMAX_MODEL: &'static str = "MiniMax-M2";
/// Default MiniMax OpenAI-compatible API base URL.
pub const DEFAULT_MINIMAX_BASE_URL: &'static str = "https://api.minimax.io/v1";
/// Default Gemini model.
pub const DEFAULT_GEMINI_MODEL: &'static str = "gemini-2.0-flash";
/// Default Gemini API base URL.
pub const DEFAULT_GEMINI_BASE_URL: &'static str = "https://generativelanguage.googleapis.com/v1beta";
/// The Anthropic Messages endpoint (used with both auth methods).
pub const ANTHROPIC_API_URL: &'static str = "https://api.anthropic.com/v1/messages";
/// The Anthropic API version header value.
pub const ANTHROPIC_VERSION: &'static str = "2023-06-01";
/// Default response token limit of every provider.
pub const DEFAULT_MAX_TOKENS: u32 = 4096;

/// How the client authenticates with the Anthropic API.
#[derive(Clone, Copy, Debug, PartialEq, Eq, Structural)]
pub enum AuthMethod {
    /// Anthropic API key (`x-api-key` header).
    ApiKey,
    /// OAuth bearer token (`Authorization: Bearer`).
    OAuth,
}

/// `<base_url>/chat/completions`, trailing slashes of the base removed.
pub fn chat_completions_url(base_url: &str) -> (r: String)
    ensures
        r@ == trim_end_char(base_url@, '/') + "/chat/completions"@,
{
    let base = trim_end_matches_char(base_url, '/');
    concat2(base.as_str(), "/chat/completions")
}

/// `<base_url>/models/<model>:<method>`, trailing slashes of the base removed.
pub fn gemini_method_url(base_url: &str, model: &str, method: &str) -> (r: String)
    ensures
        r@ == trim_end_char(base_url@, '/') + "/models/"@ + model@ + ":"@ + method@,
{
    let base = trim_end_matches_char(base_url, '/');
    let mut r = concat3(base.as_str(), "/models/", model);
    r.append(":");
    r.append(method);
    r
}

/// The Gemini endpoint for a streaming or one-shot request.
pub open spec fn gemini_method(stream: bool) -> Seq<char> {
    if stream {
        "streamGenerateContent"@
    } else {
        "generateContent"@
    }
}

/// The Gemini endpoint for a streaming or one-shot request; a streaming
/// request asks for server-sent events (`?alt=sse`).
pub fn gemini_request_url(base_url: &str, model: &str, stream: bool) -> (r: String)
    ensures
        r@ == trim_end_char(base_url@, '/') + "/models/"@ + model@ + ":"@ + gemini_method(stream) + (if stream {
            "?alt=sse"@
        } else {
            ""@
        }),
{
    if stream {
        let u = gemini_method_url(base_url, model, "streamGenerateContent");
        concat2(u.as_str(), "?alt=sse")
    } else {
        let u = gemini_method_url(base_url, model, "generateContent");
        proof {
            reveal_strlit("");
            assert(u@ + ""@ =~= u@);
        }
        u
    }
}

/// The error for an unconfigured Anthropic API.
pub open spec fn anthropic_unconfigured_text() -> Seq<char> {
    "Anthropic API not configured. Set ANTHROPIC_API_KEY or an OAuth token."@
}

/// Where the Anthropic credentials come from, in order: the API key variable
/// (trimmed; API-key auth), the OAuth token variable (trimmed; OAuth), the
/// token stored by the command-line client (OAuth); otherwise an error.
pub fn resolve_anthropic_auth(
    api_key_var: Option<&str>,
    oauth_var: Option<&str>,
    stored_token: Option<&str>,
) -> (r: Result<(String, AuthMethod), AiError>)
    ensures
        match api_key_var {
            Some(k) => r matches Ok(p) && p.0@ == trim_white(k@) && p.1 == AuthMethod::ApiKey,
            None => match oauth_var {
                Some(t) => r matches Ok(p) && p.0@ == trim_white(t@) && p.1 == AuthMethod::OAuth,
                None => match stored_token {
                    Some(t) => r matches Ok(p) && p.0@ == t@ && p.1 == AuthMethod::OAuth,
                    None => r matches Err(e) && (e matches AiError::ApiError(m) && m@
                        == anthropic_unconfigured_text()),
                },
            },
        },
{
    match api_key_var {
        Some(k) => return Ok((trim_owned(k), AuthMethod::ApiKey)),
        None => {},
    }
    match oauth_var {
        Some(t) => return Ok((trim_owned(t), AuthMethod::OAuth)),
        None => {},
    }
    match stored_token {
        Some(t) => Ok((owned(t), AuthMethod::OAuth)),
        None => Err(
            AiError::ApiError(
                owned(
                    "Anthropic API not configured. Set ANTHROPIC_API_KEY or an OAuth token.",
                ),
            ),
        ),
    }
}

/// The OpenAI API key, or the error naming the variable to set.
pub fn openai_key(var: Option<&str>) -> (r: Result<String, AiError>)
    ensures
        match var {
            Some(k) => r matches Ok(s) && s@ == k@,
            None => r matches Err(e) && (e matches AiError::ApiError(m) && m@
                == "OpenAI API not configured. Set OPENAI_API_KEY."@),
        },
{
    match var {
        Some(k) => Ok(owned(k)),
        None => Err(AiError::ApiError(owned("OpenAI API not configured. Set OPENAI_API_KEY."))),
    }
}

/// The MiniMax API key, or the error naming the variable to set.
pub fn minimax_key(var: Option<&str>) -> (r: Result<String, AiError>)
    ensures
        match var {
            Some(k) => r matches Ok(s) && s@ == k@,
            None => r matches Err(e) && (e matches AiError::ApiError(m) && m@
                == "MiniMax API not configured. Set MINIMAX_API_KEY."@),
        },
{
    match var {
        Some(k) => Ok(owned(k)),
        None => Err(AiError::ApiError(owned("MiniMax API not configured. Set MINIMAX_API_KEY."))),
    }
}

/// The Gemini API key (the Gemini variable first, then the Google one), or
/// the error naming them.
pub fn gemini_key(gemini_var: Option<&str>, google_var: Option<&str>) -> (r: Result<String, AiError>)
    ensures
        match gemini_var {
            Some(k) => r matches Ok(s) && s@ == k@,
            None => match google_var {
                Some(k) => r matches Ok(s) && s@ == k@,
                None => r matches Err(e) && (e matches AiError::ApiError(m) && m@
                    == "Gemini API not configured. Set GEMINI_API_KEY (or GOOGLE_API_KEY)."@),
            },
        },
{
    match gemini_var {
        Some(k) => Ok(owned(k)),
        None => match google_var {
            Some(k) => Ok(owned(k)),
            None => Err(
                AiError::ApiError(owned("Gemini API not configured. Set GEMINI_API_KEY (or GOOGLE_API_KEY).")),
            ),
        },
    }
}

/// The Anthropic auth header for a token: `x-api-key: <token>` for an API key,
/// `Authorization: Bearer <token>` for OAuth.
pub fn anthropic_auth_header(method: AuthMethod, token: &str) -> (r: (&'static str, String))
    ensures
        method == AuthMethod::ApiKey ==> r.0@ == "x-api-key"@ && r.1@ == token@,
        method == AuthMethod::OAuth ==> r.0@ == "Authorization"@ && r.1@ == "Bearer "@ + token@,
{
    match method {
        AuthMethod::ApiKey => ("x-api-key", owned(token)),
        AuthMethod::OAuth => ("Authorization", concat2("Bearer ", token)),
    }
}

/// `Bearer <key>`, the OpenAI-compatible authorization value.
pub fn bearer(key: &str) -> (r: String)
    ensures
        r@ == "Bearer "@ + key@,
{
    concat2("Bearer ", key)
}

} // verus!
