//! Settings of the chat-completion provider, made from raw configuration values.
use vstd::prelude::*;

use crate::decimal::{
    parse_decimal, parse_decimal_text, parse_u64_text, parse_unsigned, saturate_i64,
};
use crate::text::{chars_of, is_blank, is_blank_text, string_of_range, trim, trimmed};
use crate::types::text_view;

verus! {

pub const DEFAULT_TEMPERATURE_THOUSANDTHS: i64 = 700;

pub const DEFAULT_MAX_OUTPUT_TOKENS: u16 = 220;

pub const DEFAULT_TIMEOUT_SECS: u64 = 15;

/// The provider's address where none is configured.
pub open spec fn default_base_url() -> Seq<char> {
    "https://api.openai.com"@
}

/// The path of the chat-completion endpoint below the base address.
pub open spec fn chat_path() -> Seq<char> {
    "/v1/chat/completions"@
}

/// The model asked for where none is configured.
pub open spec fn default_model() -> Seq<char> {
    "gpt-4o-mini"@
}

/// The raw configuration values, each as it was found or absent:
/// `OPENAI_API_KEY`, `OPENAI_BASE_URL`, `OPENAI_MODEL`, `OPENAI_TIMEOUT_SECS`,
/// `OPENAI_MAX_OUTPUT_TOKENS` and `OPENAI_TEMPERATURE`.
#[derive(Debug)]
pub struct OpenAiEnv {
    pub api_key: Option<String>,
    pub base_url: Option<String>,
    pub model: Option<String>,
    pub timeout_secs: Option<String>,
    pub max_output_tokens: Option<String>,
    pub temperature: Option<String>,
}

pub struct OpenAiEnvView {
    pub api_key: Option<Seq<char>>,
    pub base_url: Option<Seq<char>>,
    pub model: Option<Seq<char>>,
    pub timeout_secs: Option<Seq<char>>,
    pub max_output_tokens: Option<Seq<char>>,
    pub temperature: Option<Seq<char>>,
}

impl View for OpenAiEnv {
    type V = OpenAiEnvView;

    open spec fn view(&self) -> OpenAiEnvView {
        OpenAiEnvView {
            api_key: text_view(self.api_key),
            base_url: text_view(self.base_url),
            model: text_view(self.model),
            timeout_secs: text_view(self.timeout_secs),
            max_output_tokens: text_view(self.max_output_tokens),
            temperature: text_view(self.temperature),
        }
    }
}

/// Chat settings of the provider. The temperature is counted in thousandths.
#[derive(Debug)]
pub struct OpenAiConfig {
    pub api_key: String,
    pub base_url: String,
    pub model: String,
    pub max_output_tokens: u16,
    pub temperature_thousandths: i64,
    pub timeout_secs: u64,
}

pub struct OpenAiConfigView {
    pub api_key: Seq<char>,
    pub base_url: Seq<char>,
    pub model: Seq<char>,
    pub max_output_tokens: u16,
    pub temperature_thousandths: i64,
    pub timeout_secs: u64,
}

impl View for OpenAiConfig {
    type V = OpenAiConfigView;

    open spec fn view(&self) -> OpenAiConfigView {
        OpenAiConfigView {
            api_key: self.api_key@,
            base_url: self.base_url@,
            model: self.model@,
            max_output_tokens: self.max_output_tokens,
            temperature_thousandths: self.temperature_thousandths,
            timeout_secs: self.timeout_secs,
        }
    }
}

impl Clone for OpenAiConfig {
    fn clone(&self) -> (copy: Self)
        ensures
            copy@ == self@,
    {
        Self {
            api_key: self.api_key.clone(),
            base_url: self.base_url.clone(),
            model: self.model.clone(),
            max_output_tokens: self.max_output_tokens,
            temperature_thousandths: self.temperature_thousandths,
            timeout_secs: self.timeout_secs,
        }
    }
}

/// Why no usable provider configuration exists.
#[derive(Debug)]
pub enum OpenAiConfigError {
    MissingApiKey,
    ClientBuild(String),
}

pub enum OpenAiConfigErrorView {
    MissingApiKey,
    ClientBuild(Seq<char>),
}

impl View for OpenAiConfigError {
    type V = OpenAiConfigErrorView;

    open spec fn view(&self) -> OpenAiConfigErrorView {
        match self {
            OpenAiConfigError::MissingApiKey => OpenAiConfigErrorView::MissingApiKey,
            OpenAiConfigError::ClientBuild(message) => OpenAiConfigErrorView::ClientBuild(message@),
        }
    }
}

/// The sentence that describes a configuration error.
pub open spec fn config_error_text(error: OpenAiConfigErrorView) -> Seq<char> {
    match error {
        OpenAiConfigErrorView::MissingApiKey => "missing OPENAI_API_KEY"@,
        OpenAiConfigErrorView::ClientBuild(message) => "client build failure: "@ + message,
    }
}

impl OpenAiConfigError {
    /// The sentence that describes this error.
    pub fn describe(&self) -> (s: String)
        ensures
            s@ == config_error_text(self@),
    {
        match self {
            OpenAiConfigError::MissingApiKey => String::from_str("missing OPENAI_API_KEY"),
            OpenAiConfigError::ClientBuild(message) => {
                let mut s = String::from_str("client build failure: ");
                s.append(message.as_str());
                s
            },
        }
    }
}

/// A raw value without its outer whitespace, or `fallback` where it is absent.
pub open spec fn trimmed_or(raw: Option<Seq<char>>, fallback: Seq<char>) -> Seq<char> {
    match raw {
        Some(raw) => trim(raw),
        None => fallback,
    }
}

/// The whole number that a raw value denotes where it is positive and at
/// most `max`, or `fallback`.
pub open spec fn positive_or(raw: Option<Seq<char>>, max: nat, fallback: nat) -> nat {
    match raw {
        Some(raw) => match parse_unsigned(raw) {
            Some(n) => if 0 < n && n <= max {
                n
            } else {
                fallback
            },
            None => fallback,
        },
        None => fallback,
    }
}

/// The thousandths that a raw decimal denotes where it is not negative, or `fallback`.
pub open spec fn thousandths_or(raw: Option<Seq<char>>, fallback: i64) -> i64 {
    match raw {
        Some(raw) => match parse_decimal(raw) {
            Some(v) => if v >= 0 {
                saturate_i64(v)
            } else {
                fallback
            },
            None => fallback,
        },
        None => fallback,
    }
}

/// The configuration that the raw values give: an error where the key is
/// absent or blank, and a default in place of every other value that is
/// absent or not usable.
pub open spec fn config_from(env: OpenAiEnvView) -> Result<OpenAiConfigView, OpenAiConfigErrorView> {
    if env.api_key is None || is_blank(env.api_key->0) {
        Err(OpenAiConfigErrorView::MissingApiKey)
    } else {
        Ok(
            OpenAiConfigView {
                api_key: trim(env.api_key->0),
                base_url: trimmed_or(env.base_url, default_base_url()),
                model: trimmed_or(env.model, default_model()),
                max_output_tokens: positive_or(
                    env.max_output_tokens,
                    u16::MAX as nat,
                    DEFAULT_MAX_OUTPUT_TOKENS as nat,
                ) as u16,
                temperature_thousandths: thousandths_or(
                    env.temperature,
                    DEFAULT_TEMPERATURE_THOUSANDTHS,
                ),
                timeout_secs: positive_or(
                    env.timeout_secs,
                    u64::MAX as nat,
                    DEFAULT_TIMEOUT_SECS as nat,
                ) as u64,
            },
        )
    }
}

/// `s` without the slashes at its end.
pub open spec fn without_trailing_slashes(s: Seq<char>) -> Seq<char>
    decreases s.len(),
{
    if s.len() > 0 && s.last() == '/' {
        without_trailing_slashes(s.drop_last())
    } else {
        s
    }
}

/// The address of the chat-completion endpoint below `base_url`.
pub open spec fn chat_url(base_url: Seq<char>) -> Seq<char> {
    without_trailing_slashes(base_url) + chat_path()
}

pub proof fn lemma_trailing_slashes(s: Seq<char>, n: int)
    requires
        0 <= n <= s.len(),
        forall|i: int| n <= i < s.len() ==> s[i] == '/',
        n > 0 ==> s[n - 1] != '/',
    ensures
        without_trailing_slashes(s) == s.take(n),
    decreases s.len() - n,
{
    if n < s.len() {
        assert(s.drop_last().take(n) =~= s.take(n));
        lemma_trailing_slashes(s.drop_last(), n);
    } else {
        assert(s.take(n) =~= s);
    }
}

fn trimmed_or_default(raw: &Option<String>, fallback: &str) -> (s: String)
    ensures
        s@ == trimmed_or(text_view(*raw), fallback@),
{
    match raw {
        Some(raw) => trimmed(raw.as_str()),
        None => String::from_str(fallback),
    }
}

fn positive_or_default(raw: &Option<String>, max: u64, fallback: u64) -> (n: u64)
    requires
        fallback <= max,
    ensures
        n == positive_or(text_view(*raw), max as nat, fallback as nat),
        n <= max,
{
    match raw {
        Some(raw) => match parse_u64_text(raw.as_str()) {
            Some(n) => if 0 < n && n <= max {
                n
            } else {
                fallback
            },
            None => fallback,
        },
        None => fallback,
    }
}

fn thousandths_or_default(raw: &Option<String>, fallback: i64) -> (n: i64)
    ensures
        n == thousandths_or(text_view(*raw), fallback),
{
    match raw {
        Some(raw) => match parse_decimal_text(raw.as_str()) {
            Some(v) => if v >= 0 {
                v
            } else {
                fallback
            },
            None => fallback,
        },
        None => fallback,
    }
}

impl OpenAiConfig {
    /// Makes the configuration from the raw values.
    pub fn from_env(env: &OpenAiEnv) -> (config: Result<Self, OpenAiConfigError>)
        ensures
            match config {
                Ok(config) => config_from(env@) == Ok::<OpenAiConfigView, OpenAiConfigErrorView>(
                    config@,
                ),
                Err(error) => config_from(env@) == Err::<OpenAiConfigView, OpenAiConfigErrorView>(
                    error@,
                ),
            },
    {
        let api_key = match &env.api_key {
            Some(raw) => {
                if is_blank_text(raw.as_str()) {
                    return Err(OpenAiConfigError::MissingApiKey);
                }
                trimmed(raw.as_str())
            },
            None => {
                return Err(OpenAiConfigError::MissingApiKey);
            },
        };
        let base_url = trimmed_or_default(&env.base_url, "https://api.openai.com");
        let model = trimmed_or_default(&env.model, "gpt-4o-mini");
        let timeout_secs = positive_or_default(&env.timeout_secs, u64::MAX, DEFAULT_TIMEOUT_SECS);
        let max_output_tokens = positive_or_default(
            &env.max_output_tokens,
            65535,
            DEFAULT_MAX_OUTPUT_TOKENS as u64,
        ) as u16;
        let temperature_thousandths = thousandths_or_default(
            &env.temperature,
            DEFAULT_TEMPERATURE_THOUSANDTHS,
        );
        Ok(
            Self {
                api_key,
                base_url,
                model,
                max_output_tokens,
                temperature_thousandths,
                timeout_secs,
            },
        )
    }

    /// The address of the chat-completion endpoint.
    pub fn chat_url(&self) -> (url: String)
        ensures
            url@ == chat_url(self@.base_url),
    {
        let v = chars_of(self.base_url.as_str());
        let mut end: usize = v.len();
        while end > 0 && v[end - 1] == '/'
            invariant
                end <= v.len(),
                forall|i: int| end <= i < v.len() ==> v@[i] == '/',
            decreases end,
        {
            end -= 1;
        }
        proof {
            lemma_trailing_slashes(v@, end as int);
        }
        let mut url = string_of_range(&v, 0, end);
        url.append("/v1/chat/completions");
        url
    }
}

} // verus!
