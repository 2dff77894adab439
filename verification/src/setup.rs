//! How a session is set up from the configuration and the environment: the
//! provider, the model, the token limit and the API key.
use vstd::prelude::*;
use crate::text::{chars_of, parse_usize, parse_usize_chars, push_str, string_of};

verus! {

/// The language-model services the assistant can use.
#[derive(Debug, PartialEq, Eq, Clone, Copy)]
pub enum Backend {
    Google,
    Ollama,
}

/// Why a session could not be set up.
#[derive(Debug, PartialEq, Eq, Clone)]
pub enum SetupError {
    /// The Google service was chosen without an API key.
    MissingGeminiKey,
    /// The provider is none of the supported ones; holds its name.
    UnsupportedProvider(String),
}

impl SetupError {
    /// The message that describes the error.
    pub fn message(&self) -> (r: String)
        ensures
            *self == SetupError::MissingGeminiKey ==> r@
                == "GEMINI_API_KEY not set in environment or config.toml. Please get a key from Google AI Studio."@,
            self matches SetupError::UnsupportedProvider(p) ==> r@ == "Unsupported LLM provider: "@
                + p@,
    {
        match self {
            SetupError::MissingGeminiKey => string_of(
                &chars_of(
                    "GEMINI_API_KEY not set in environment or config.toml. Please get a key from Google AI Studio.",
                ),
            ),
            SetupError::UnsupportedProvider(p) => {
                let mut v = chars_of("Unsupported LLM provider: ");
                push_str(&mut v, p.as_str());
                string_of(&v)
            },
        }
    }
}

/// A value from the environment when it is set, else the configured one.
pub fn env_or(env_value: Option<&str>, configured: &str) -> (r: String)
    ensures
        r@ == match env_value {
            Some(e) => e@,
            None => configured@,
        },
{
    match env_value {
        Some(e) => string_of(&chars_of(e)),
        None => string_of(&chars_of(configured)),
    }
}

/// The API key for a provider: for "google" the Gemini key, else the Ollama
/// key; each from the environment when it is set, else the configured one.
pub fn api_key_for(
    provider: &str,
    gemini_env: Option<&str>,
    gemini_configured: &str,
    ollama_env: Option<&str>,
    ollama_configured: &str,
) -> (r: String)
    ensures
        r@ == if provider@ == "google"@ {
            match gemini_env {
                Some(e) => e@,
                None => gemini_configured@,
            }
        } else {
            match ollama_env {
                Some(e) => e@,
                None => ollama_configured@,
            }
        },
{
    if crate::text::eq_str(&chars_of(provider), "google") {
        env_or(gemini_env, gemini_configured)
    } else {
        env_or(ollama_env, ollama_configured)
    }
}

/// The model a provider uses when none is named.
pub open spec fn default_model(provider: Seq<char>) -> Seq<char> {
    if provider == "google"@ {
        "gemini-2.5-flash-lite"@
    } else {
        "gemma2"@
    }
}

/// The model: the one the environment names, else the configured one, else
/// the provider's default.
pub fn resolve_model(env_model: Option<&str>, configured: Option<&str>, provider: &str) -> (r: String)
    ensures
        r@ == match env_model {
            Some(m) => m@,
            None => match configured {
                Some(m) => m@,
                None => default_model(provider@),
            },
        },
{
    match env_model {
        Some(m) => string_of(&chars_of(m)),
        None => match configured {
            Some(m) => string_of(&chars_of(m)),
            None => {
                if crate::text::eq_str(&chars_of(provider), "google") {
                    string_of(&chars_of("gemini-2.5-flash-lite"))
                } else {
                    string_of(&chars_of("gemma2"))
                }
            },
        },
    }
}

/// A decimal `u32` as `str::parse::<u32>` reads it.
pub open spec fn parse_u32(s: Seq<char>) -> Option<u32> {
    match parse_usize(s) {
        Some(v) => if v <= u32::MAX {
            Some(v as u32)
        } else {
            None
        },
        None => None,
    }
}

/// The token limit: the environment's when it is a number that fits, else
/// the configured one.
pub fn resolve_max_tokens(env_value: Option<&str>, configured: u32) -> (r: u32)
    ensures
        r == match env_value {
            Some(e) => match parse_u32(e@) {
                Some(v) => v,
                None => configured,
            },
            None => configured,
        },
{
    match env_value {
        Some(e) => match parse_usize_chars(&chars_of(e)) {
            Some(v) => {
                if v <= 4294967295usize {
                    v as u32
                } else {
                    configured
                }
            },
            None => configured,
        },
        None => configured,
    }
}

/// The service a provider names, with the name shown for it; the Google
/// service needs an API key.
pub fn choose_backend(provider: &str, api_key: &str) -> (r: Result<(Backend, String), SetupError>)
    ensures
        provider@ == "google"@ && api_key@.len() == 0 ==> r == Err::<(Backend, String), SetupError>(
            SetupError::MissingGeminiKey,
        ),
        provider@ == "google"@ && api_key@.len() > 0 ==> (r matches Ok((b, n)) && b == Backend::Google
            && n@ == "Google AI Platform"@),
        provider@ == "ollama"@ ==> (r matches Ok((b, n)) && b == Backend::Ollama && n@ == "Ollama"@),
        provider@ != "google"@ && provider@ != "ollama"@ ==> (r matches Err(
            SetupError::UnsupportedProvider(p),
        ) && p@ == provider@),
{
    let p = chars_of(provider);
    proof {
        reveal_strlit("google");
        reveal_strlit("ollama");
        assert("google"@[0] != "ollama"@[0]);
    }
    if crate::text::eq_str(&p, "google") {
        if api_key.is_empty() {
            return Err(SetupError::MissingGeminiKey);
        }
        Ok((Backend::Google, string_of(&chars_of("Google AI Platform"))))
    } else if crate::text::eq_str(&p, "ollama") {
        Ok((Backend::Ollama, string_of(&chars_of("Ollama"))))
    } else {
        Err(SetupError::UnsupportedProvider(string_of(&p)))
    }
}

} // verus!
