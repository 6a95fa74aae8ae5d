//! DeepSeek (OpenAI-compatible) chat-completions policy for the block translation.
//!
//! Retry policy: 401/403 fail immediately, 429 honours `Retry-After` and then backs off,
//! 5xx / transport / timeout / contract failures are retried up to
//! `translation.maxRetries`, other 4xx fail immediately. The API key is only ever written
//! into the `Authorization` header value. Delays are whole milliseconds.
use crate::config::TranslationSettings;
use crate::text::{decimal, push_char, push_str, push_u64, to_chars, trim, trim_end_by};
use crate::validate::TranslationItem;
use vstd::prelude::*;

verus! {

/// Request timeout of one attempt.
pub const REQUEST_TIMEOUT_SECONDS: u64 = 120;

/// First backoff step; it doubles per attempt and is capped.
pub const DEFAULT_BASE_DELAY_MS: u64 = 1000;

/// Longest backoff between two attempts.
pub const MAX_BACKOFF_MS: u64 = 8000;

/// Longest `Retry-After` the client honours.
pub const MAX_RETRY_AFTER_MS: u64 = 60000;

#[verifier::external_type_specification]
#[verifier::external_body]
pub struct ExReqwestClient(reqwest::Client);

#[verifier::external_type_specification]
#[verifier::external_body]
pub struct ExHeaderValue(reqwest::header::HeaderValue);

#[verifier::external_type_specification]
#[verifier::external_body]
pub struct ExReqwestError(reqwest::Error);

#[verifier::external_type_specification]
#[verifier::external_body]
#[verifier::reject_recursive_types(T)]
pub struct ExHeaderMap<T>(reqwest::header::HeaderMap<T>);

/// Why one request (or the whole translation of a block) failed.
#[derive(Debug, Clone, PartialEq, Eq)]
pub enum DeepseekError {
    /// 401/403 (or the key is not a valid header value): retrying cannot help.
    AuthFailed,
    /// 429 after the retries were exhausted.
    RateLimited,
    /// 5xx: retryable.
    ServerError { status: u16 },
    /// Other 4xx (bad request, wrong base URL, …): retrying cannot help.
    RequestRejected { status: u16 },
    /// The request exceeded [`REQUEST_TIMEOUT_SECONDS`].
    Timeout,
    /// Transport error (DNS, TLS, connection reset, …).
    Network(String),
    /// The response did not match the promised JSON contract.
    InvalidResponse { reason: String },
}

/// Whether another attempt may succeed after `e`.
pub open spec fn retryable(e: DeepseekError) -> bool {
    match e {
        DeepseekError::RateLimited => true,
        DeepseekError::ServerError { .. } => true,
        DeepseekError::Timeout => true,
        DeepseekError::Network(_) => true,
        DeepseekError::InvalidResponse { .. } => true,
        DeepseekError::AuthFailed => false,
        DeepseekError::RequestRejected { .. } => false,
    }
}

/// The human-readable text of an error (what `Display` prints).
pub open spec fn error_message(e: DeepseekError) -> Seq<char> {
    match e {
        DeepseekError::AuthFailed => "deepseek rejected the API key"@,
        DeepseekError::RateLimited => "deepseek rate limited the request"@,
        DeepseekError::ServerError { status } => "deepseek request failed (HTTP "@ + decimal(
            status as nat,
        ) + ")"@,
        DeepseekError::RequestRejected { status } => "deepseek rejected the request (HTTP "@
            + decimal(status as nat) + ")"@,
        DeepseekError::Timeout => "deepseek request timed out"@,
        DeepseekError::Network(reason) => "deepseek request failed: "@ + reason@,
        DeepseekError::InvalidResponse { reason } => "deepseek returned an invalid response: "@
            + reason@,
    }
}

impl DeepseekError {
    /// Whether another attempt may succeed (contract failures included: the model may
    /// return valid JSON next time).
    pub fn is_retryable(&self) -> (r: bool)
        ensures
            r == retryable(*self),
    {
        match self {
            DeepseekError::RateLimited => true,
            DeepseekError::ServerError { .. } => true,
            DeepseekError::Timeout => true,
            DeepseekError::Network(_) => true,
            DeepseekError::InvalidResponse { .. } => true,
            DeepseekError::AuthFailed => false,
            DeepseekError::RequestRejected { .. } => false,
        }
    }

    /// The error text.
    pub fn message(&self) -> (r: String)
        ensures
            r@ == error_message(*self),
    {
        let mut out = String::new();
        match self {
            DeepseekError::AuthFailed => push_str(&mut out, "deepseek rejected the API key"),
            DeepseekError::RateLimited => push_str(&mut out, "deepseek rate limited the request"),
            DeepseekError::ServerError { status } => {
                push_str(&mut out, "deepseek request failed (HTTP ");
                push_u64(&mut out, *status as u64);
                push_str(&mut out, ")");
            },
            DeepseekError::RequestRejected { status } => {
                push_str(&mut out, "deepseek rejected the request (HTTP ");
                push_u64(&mut out, *status as u64);
                push_str(&mut out, ")");
            },
            DeepseekError::Timeout => push_str(&mut out, "deepseek request timed out"),
            DeepseekError::Network(reason) => {
                push_str(&mut out, "deepseek request failed: ");
                push_str(&mut out, reason.as_str());
            },
            DeepseekError::InvalidResponse { reason } => {
                push_str(&mut out, "deepseek returned an invalid response: ");
                push_str(&mut out, reason.as_str());
            },
        }
        out
    }
}

/// The error an HTTP status that is not a success maps to.
pub open spec fn status_error_spec(status: u16) -> DeepseekError {
    if status == 401 || status == 403 {
        DeepseekError::AuthFailed
    } else if status == 429 {
        DeepseekError::RateLimited
    } else if 500 <= status <= 599 {
        DeepseekError::ServerError { status }
    } else {
        DeepseekError::RequestRejected { status }
    }
}

/// Maps a failed HTTP status to the error policy.
pub fn status_error(status: u16) -> (r: DeepseekError)
    ensures
        r == status_error_spec(status),
{
    if status == 401 || status == 403 {
        DeepseekError::AuthFailed
    } else if status == 429 {
        DeepseekError::RateLimited
    } else if 500 <= status && status <= 599 {
        DeepseekError::ServerError { status }
    } else {
        DeepseekError::RequestRejected { status }
    }
}

/// How an HTTP failure status is classified: 401 and 403 are auth failures and are never
/// retried; 429 is a rate limit; every status from 500 to 599 is a server error carrying
/// that status and is retried while retries remain (the first retry, without
/// `Retry-After`, waits the base delay); any other status is a rejected request carrying
/// it, never retried.
pub proof fn law_status_classes(status: u16, attempt: u32, max_retries: u32, base_ms: u64)
    ensures
        status == 401 || status == 403 ==> status_error_spec(status) == DeepseekError::AuthFailed
            && next_step(status_error_spec(status), attempt, max_retries, None, base_ms) is None,
        status == 429 ==> status_error_spec(status) == DeepseekError::RateLimited,
        500 <= status && status <= 599 ==> status_error_spec(status) == (DeepseekError::ServerError {
            status,
        }) && (attempt < max_retries ==> next_step(
            status_error_spec(status),
            attempt,
            max_retries,
            None,
            base_ms,
        ) is Some) && (0 < max_retries && base_ms <= MAX_BACKOFF_MS ==> next_step(
            status_error_spec(status),
            0,
            max_retries,
            None,
            base_ms,
        ) == Some(base_ms as int)),
        status != 401 && status != 403 && status != 429 && !(500 <= status && status <= 599)
            ==> status_error_spec(status) == (DeepseekError::RequestRejected { status })
            && next_step(status_error_spec(status), attempt, max_retries, None, base_ms) is None,
{
    assert(doubling(0) == 1);
    assert(min_int(0, 10) == 0);
    assert(backoff(0, None, base_ms) == min_int(base_ms * doubling(0), MAX_BACKOFF_MS as int));
    assert(base_ms * doubling(0) == base_ms);
}

/// `2^k`.
pub open spec fn doubling(k: nat) -> nat
    decreases k,
{
    if k == 0 {
        1
    } else {
        2 * doubling((k - 1) as nat)
    }
}

pub open spec fn min_int(a: int, b: int) -> int {
    if a <= b {
        a
    } else {
        b
    }
}

/// Backoff before the next attempt, in milliseconds: `Retry-After` wins when present
/// (capped at a minute), otherwise the base delay doubles per attempt (at most ten
/// doublings) and never exceeds eight seconds.
pub open spec fn backoff(attempt: u32, retry_after_ms: Option<u64>, base_ms: u64) -> int {
    match retry_after_ms {
        Some(after) => min_int(after as int, MAX_RETRY_AFTER_MS as int),
        None => min_int(
            base_ms * doubling(min_int(attempt as int, 10) as nat),
            MAX_BACKOFF_MS as int,
        ),
    }
}

proof fn lemma_doubling_bounds(k: nat)
    requires
        k <= 10,
    ensures
        1 <= doubling(k) <= 1024,
{
    reveal_with_fuel(doubling, 11);
}

/// Backoff before the next attempt (see [`backoff`]).
pub fn retry_delay(attempt: u32, retry_after_ms: Option<u64>, base_ms: u64) -> (r: u64)
    ensures
        r == backoff(attempt, retry_after_ms, base_ms),
{
    match retry_after_ms {
        Some(after) => {
            if after < MAX_RETRY_AFTER_MS {
                after
            } else {
                MAX_RETRY_AFTER_MS
            }
        },
        None => {
            let steps: u32 = if attempt < 10 {
                attempt
            } else {
                10
            };
            let mut factor: u64 = 1;
            let mut k: u32 = 0;
            while k < steps
                invariant
                    k <= steps <= 10,
                    factor == doubling(k as nat),
                decreases steps - k,
            {
                proof {
                    lemma_doubling_bounds(k as nat);
                }
                factor = factor * 2;
                k = k + 1;
            }
            proof {
                lemma_doubling_bounds(steps as nat);
            }
            if base_ms >= MAX_BACKOFF_MS {
                assert(base_ms * factor >= base_ms) by (nonlinear_arith)
                    requires
                        factor >= 1,
                ;
                MAX_BACKOFF_MS
            } else {
                assert(base_ms * factor <= 8000 * 1024) by (nonlinear_arith)
                    requires
                        factor <= 1024,
                        base_ms < 8000,
                ;
                let scaled = base_ms * factor;
                if scaled < MAX_BACKOFF_MS {
                    scaled
                } else {
                    MAX_BACKOFF_MS
                }
            }
        },
    }
}

/// What the retry loop does after a failed attempt: `None` gives up and reports the
/// error, `Some(ms)` waits that long and tries again.
pub open spec fn next_step(
    error: DeepseekError,
    attempt: u32,
    max_retries: u32,
    retry_after_ms: Option<u64>,
    base_ms: u64,
) -> Option<int> {
    if !retryable(error) || attempt >= max_retries {
        None
    } else {
        Some(backoff(attempt, retry_after_ms, base_ms))
    }
}

/// Decides whether a failed attempt `attempt` (counted from zero) is retried.
pub fn next_retry(
    error: &DeepseekError,
    attempt: u32,
    max_retries: u32,
    retry_after_ms: Option<u64>,
    base_ms: u64,
) -> (r: Option<u64>)
    ensures
        match r {
            Some(ms) => next_step(*error, attempt, max_retries, retry_after_ms, base_ms) == Some(
                ms as int,
            ),
            None => next_step(*error, attempt, max_retries, retry_after_ms, base_ms) is None,
        },
{
    if !error.is_retryable() || attempt >= max_retries {
        None
    } else {
        Some(retry_delay(attempt, retry_after_ms, base_ms))
    }
}

/// No error is retried once `max_retries` retries were made, and an error that cannot
/// be cured by retrying is never retried: a block costs at most `max_retries + 1`
/// requests, and an auth failure exactly one.
pub proof fn law_retries_are_bounded(
    error: DeepseekError,
    attempt: u32,
    max_retries: u32,
    retry_after_ms: Option<u64>,
    base_ms: u64,
)
    ensures
        attempt >= max_retries ==> next_step(
            error,
            attempt,
            max_retries,
            retry_after_ms,
            base_ms,
        ) is None,
        !retryable(error) ==> next_step(error, attempt, max_retries, retry_after_ms, base_ms) is None,
        error == DeepseekError::AuthFailed ==> next_step(
            error,
            attempt,
            max_retries,
            retry_after_ms,
            base_ms,
        ) is None,
{
}

/// Every wait lies between zero and one minute, and a backoff without `Retry-After`
/// never exceeds eight seconds.
pub proof fn law_backoff_is_capped(attempt: u32, retry_after_ms: Option<u64>, base_ms: u64)
    ensures
        0 <= backoff(attempt, retry_after_ms, base_ms) <= MAX_RETRY_AFTER_MS,
        retry_after_ms is None ==> backoff(attempt, retry_after_ms, base_ms) <= MAX_BACKOFF_MS,
{
}

/// Token usage reported by the API.
#[derive(Debug, Clone, Copy, PartialEq, Eq)]
pub struct Usage {
    pub prompt_tokens: u64,
    pub completion_tokens: u64,
}

impl Default for Usage {
    fn default() -> (r: Self)
        ensures
            r.prompt_tokens == 0,
            r.completion_tokens == 0,
    {
        Usage { prompt_tokens: 0, completion_tokens: 0 }
    }
}

/// The validated translation of one block.
#[derive(Debug, Clone, PartialEq, Eq)]
pub struct TranslatedBlock {
    pub items: Vec<TranslationItem>,
    pub usage: Usage,
}

/// `base_url` without trailing slashes, followed by `/chat/completions`.
pub open spec fn endpoint_of(base_url: Seq<char>) -> Seq<char> {
    trim_end_by(base_url, |c: char| c == '/') + "/chat/completions"@
}

/// Calls `reqwest::Client::builder().timeout(..).build()`. Building can fail on this
/// machine (for example when the TLS backend cannot start); the error text is reqwest's.
#[verifier::external_body]
fn build_http_client(timeout_seconds: u64) -> (r: Result<reqwest::Client, String>) {
    reqwest::Client::builder()
        .timeout(std::time::Duration::from_secs(timeout_seconds))
        .build()
        .map_err(|error| error.to_string())
}

/// Calls `reqwest::header::HeaderValue::from_bytes`, which accepts exactly the byte
/// strings in which every byte is a tab or a visible byte (at least 32 and not 127).
#[verifier::external_body]
fn header_value_from_bytes(bytes: &[u8]) -> (r: Option<reqwest::header::HeaderValue>)
    ensures
        r is Some <==> forall|i: int| 0 <= i < bytes@.len() ==> header_byte(#[trigger] bytes@[i]),
{
    reqwest::header::HeaderValue::from_bytes(bytes).ok()
}

/// Calls `HeaderMap::get` with the `Retry-After` name and `HeaderValue::to_str`; `None`
/// when the header is absent or not visible ASCII. What the map holds is not modelled.
#[verifier::external_body]
fn retry_after_header(headers: &reqwest::header::HeaderMap) -> (r: Option<String>) {
    match headers.get(reqwest::header::RETRY_AFTER) {
        Some(value) => value.to_str().ok().map(|text| text.to_string()),
        None => None,
    }
}

/// A byte that may appear in an HTTP header value.
pub open spec fn header_byte(b: u8) -> bool {
    (b >= 32 && b != 127) || b == 9
}

/// The HTTP client and the settings of one translation run.
pub struct DeepseekClient {
    http: reqwest::Client,
    settings: TranslationSettings,
    base_delay_ms: u64,
    /// The request timeout the HTTP client was built with.
    timeout_secs: u64,
}

impl DeepseekClient {
    /// Builds the client with the request timeout; a client that cannot be built is a
    /// network error.
    pub fn new(settings: &TranslationSettings) -> (r: Result<Self, DeepseekError>)
        ensures
            r matches Ok(c) ==> c.settings() == *settings && c.base_delay() == DEFAULT_BASE_DELAY_MS
                && c.timeout_secs() == REQUEST_TIMEOUT_SECONDS,
            r matches Err(e) ==> e is Network,
    {
        let timeout_secs = REQUEST_TIMEOUT_SECONDS;
        match build_http_client(timeout_secs) {
            Ok(http) => Ok(
                DeepseekClient {
                    http,
                    settings: settings.clone(),
                    base_delay_ms: DEFAULT_BASE_DELAY_MS,
                    timeout_secs,
                },
            ),
            Err(message) => Err(DeepseekError::Network(message)),
        }
    }

    pub closed spec fn settings(&self) -> TranslationSettings {
        self.settings
    }

    pub closed spec fn base_delay(&self) -> u64 {
        self.base_delay_ms
    }

    /// The request timeout, in seconds, handed to the HTTP client builder.
    pub closed spec fn timeout_secs(&self) -> u64 {
        self.timeout_secs
    }

    /// The HTTP client the requests go through.
    pub closed spec fn client(&self) -> reqwest::Client {
        self.http
    }

    /// Replaces the first backoff step (a zero delay keeps retry tests fast).
    pub fn with_base_delay(self, base_delay_ms: u64) -> (r: Self)
        ensures
            r.settings() == self.settings(),
            r.base_delay() == base_delay_ms,
            r.client() == self.client(),
            r.timeout_secs() == self.timeout_secs(),
    {
        DeepseekClient {
            http: self.http,
            settings: self.settings,
            base_delay_ms,
            timeout_secs: self.timeout_secs,
        }
    }

    /// The HTTP client.
    pub fn http(&self) -> (r: &reqwest::Client)
        ensures
            *r == self.client(),
    {
        &self.http
    }

    /// The translation settings.
    pub fn translation_settings(&self) -> (r: &TranslationSettings)
        ensures
            *r == self.settings(),
    {
        &self.settings
    }

    /// The first backoff step in milliseconds.
    pub fn base_delay_ms(&self) -> (r: u64)
        ensures
            r == self.base_delay(),
    {
        self.base_delay_ms
    }

    /// The chat-completions URL for `base_url`.
    pub fn endpoint(base_url: &str) -> (r: String)
        ensures
            r@ == endpoint_of(base_url@),
    {
        let v = to_chars(base_url);
        let mut j = v.len();
        while j > 0 && v[j - 1] == '/'
            invariant
                j <= v@.len(),
                skip_back_while_slash(v@, j as int) == skip_back_while_slash(v@, v@.len() as int),
            decreases j,
        {
            j -= 1;
        }
        let mut out = String::new();
        let mut i: usize = 0;
        while i < j
            invariant
                i <= j <= v@.len(),
                out@ == v@.take(i as int),
            decreases j - i,
        {
            push_char(&mut out, v[i]);
            assert(v@.take(i as int).push(v@[i as int]) =~= v@.take(i + 1));
            i += 1;
        }
        push_str(&mut out, "/chat/completions");
        proof {
            lemma_skip_back_slash(v@, v@.len() as int);
        }
        out
    }

    /// Decides, after failed attempt `attempt`, whether to retry and how long to wait.
    pub fn next_retry_delay(
        &self,
        error: &DeepseekError,
        attempt: u32,
        retry_after_ms: Option<u64>,
    ) -> (r: Option<u64>)
        ensures
            match r {
                Some(ms) => next_step(
                    *error,
                    attempt,
                    self.settings().max_retries,
                    retry_after_ms,
                    self.base_delay(),
                ) == Some(ms as int),
                None => next_step(
                    *error,
                    attempt,
                    self.settings().max_retries,
                    retry_after_ms,
                    self.base_delay(),
                ) is None,
            },
    {
        next_retry(error, attempt, self.settings.max_retries, retry_after_ms, self.base_delay_ms)
    }
}

spec fn skip_back_while_slash(s: Seq<char>, j: int) -> int
    decreases j,
{
    if 0 < j && j <= s.len() && s[j - 1] == '/' {
        skip_back_while_slash(s, j - 1)
    } else {
        j
    }
}

proof fn lemma_skip_back_slash(s: Seq<char>, j: int)
    requires
        0 <= j <= s.len(),
    ensures
        skip_back_while_slash(s, j) == crate::text::skip_back_while(
            s,
            0,
            j,
            |c: char| c == '/',
        ),
        0 <= skip_back_while_slash(s, j) <= j,
    decreases j,
{
    if 0 < j && s[j - 1] == '/' {
        lemma_skip_back_slash(s, j - 1);
    }
}

/// `"Bearer "` followed by the key's bytes.
pub open spec fn bearer_bytes(key: Seq<u8>) -> Seq<u8> {
    seq![66u8, 101u8, 97u8, 114u8, 101u8, 114u8, 32u8] + key
}

/// The bytes of the `Authorization` header value: `Bearer ` followed by the key.
pub fn authorization_bytes(api_key: &crate::secrets::ApiKey) -> (r: Vec<u8>)
    ensures
        r@ == bearer_bytes(api_key@),
{
    let key = api_key.expose();
    let mut value: Vec<u8> = vec![66u8, 101u8, 97u8, 114u8, 101u8, 114u8, 32u8];
    let ghost prefix = value@;
    let mut i: usize = 0;
    while i < key.len()
        invariant
            i <= key@.len(),
            key@ == api_key@,
            prefix == seq![66u8, 101u8, 97u8, 114u8, 101u8, 114u8, 32u8],
            value@ == prefix + key@.take(i as int),
        decreases key@.len() - i,
    {
        value.push(key[i]);
        assert(prefix + key@.take(i + 1) =~= (prefix + key@.take(i as int)).push(key@[i as int]));
        i += 1;
    }
    assert(key@.take(key@.len() as int) =~= key@);
    value
}

/// Builds the `Authorization` header value from [`authorization_bytes`]; a key with a
/// byte that a header cannot carry is an auth failure (never echoed anywhere). The header
/// value is reqwest's own type, which holds its bytes in an allocation, so its content
/// is stated through [`authorization_bytes`] only.
pub fn authorization_header(api_key: &crate::secrets::ApiKey) -> (r: Result<
    reqwest::header::HeaderValue,
    DeepseekError,
>)
    ensures
        r is Ok <==> forall|i: int|
            0 <= i < api_key@.len() ==> header_byte(#[trigger] api_key@[i]),
        r matches Err(e) ==> e == DeepseekError::AuthFailed,
{
    let value = authorization_bytes(api_key);
    match header_value_from_bytes(value.as_slice()) {
        Some(header) => {
            assert forall|k: int| 0 <= k < api_key@.len() implies header_byte(
                #[trigger] api_key@[k],
            ) by {
                assert(value@[k + 7] == api_key@[k]);
            }
            Ok(header)
        },
        None => {
            proof {
                let w = choose|k: int| 0 <= k < value@.len() && !header_byte(#[trigger] value@[k]);
                assert(w >= 7);
                assert(value@[w] == api_key@[w - 7]);
            }
            Err(DeepseekError::AuthFailed)
        },
    }
}

/// Whether `c` is an ASCII digit.
pub open spec fn is_ascii_digit(c: char) -> bool {
    '0' <= c && c <= '9'
}

/// The number written by the digits `s`.
pub open spec fn digits_value(s: Seq<char>) -> nat
    decreases s.len(),
{
    if s.len() == 0 {
        0
    } else {
        digits_value(s.drop_last()) * 10 + ((s.last() as u32) - ('0' as u32)) as nat
    }
}

/// `s` without one leading `+`.
pub open spec fn unsigned_part(s: Seq<char>) -> Seq<char> {
    if s.len() > 0 && s[0] == '+' {
        s.drop_first()
    } else {
        s
    }
}

/// Every character of `d` is an ASCII digit.
pub open spec fn all_ascii_digits(d: Seq<char>) -> bool {
    forall|i: int| 0 <= i < d.len() ==> is_ascii_digit(#[trigger] d[i])
}

/// What `str::parse::<u64>` accepts: an optional `+` followed by at least one ASCII digit,
/// with a value that fits in 64 bits.
pub open spec fn parse_u64_spec(s: Seq<char>) -> Option<u64> {
    let d = unsigned_part(s);
    if d.len() > 0 && all_ascii_digits(d) && digits_value(d) <= u64::MAX {
        Some(digits_value(d) as u64)
    } else {
        None
    }
}

proof fn lemma_digits_value_mono(s: Seq<char>, i: int, j: int)
    requires
        0 <= i <= j <= s.len(),
        forall|k: int| 0 <= k < s.len() ==> is_ascii_digit(#[trigger] s[k]),
    ensures
        digits_value(s.take(i)) <= digits_value(s.take(j)),
    decreases j - i,
{
    if i < j {
        lemma_digits_value_mono(s, i, j - 1);
        assert(s.take(j).drop_last() =~= s.take(j - 1));
    }
}

/// `str::parse::<u64>` (see [`parse_u64_spec`]).
pub fn parse_u64(s: &str) -> (r: Option<u64>)
    ensures
        r == parse_u64_spec(s@),
{
    let v = to_chars(s);
    let start: usize = if v.len() > 0 && v[0] == '+' {
        1
    } else {
        0
    };
    let ghost d = unsigned_part(s@);
    assert(d =~= v@.subrange(start as int, v@.len() as int));
    if start == v.len() {
        return None;
    }
    let mut i = start;
    let mut value: u64 = 0;
    while i < v.len()
        invariant
            start <= i <= v@.len(),
            v@ == s@,
            d == unsigned_part(s@),
            d =~= v@.subrange(start as int, v@.len() as int),
            forall|k: int| 0 <= k < i - start ==> is_ascii_digit(#[trigger] d[k]),
            value == digits_value(d.take(i - start)),
        decreases v@.len() - i,
    {
        let c = v[i];
        if !('0' <= c && c <= '9') {
            proof {
                assert(!is_ascii_digit(d[i - start]));
                assert(!all_ascii_digits(d));
            }
            return None;
        }
        let digit: u64 = (c as u32 - '0' as u32) as u64;
        assert(d.take(i - start + 1).drop_last() =~= d.take(i - start));
        assert(d.take(i - start + 1).last() == c);
        let scaled = value.checked_mul(10);
        match scaled {
            None => {
                proof {
                    assert(value * 10 > u64::MAX);
                    assert(digits_value(d.take(i - start + 1)) == value * 10 + digit);
                    if all_ascii_digits(d) {
                        lemma_digits_value_mono(d, i - start + 1, d.len() as int);
                        assert(d.take(d.len() as int) =~= d);
                    }
                }
                return None;
            },
            Some(m) => {
                let next = m.checked_add(digit);
                match next {
                    None => {
                        proof {
                            assert(digits_value(d.take(i - start + 1)) == m + digit);
                            if all_ascii_digits(d) {
                                lemma_digits_value_mono(d, i - start + 1, d.len() as int);
                                assert(d.take(d.len() as int) =~= d);
                            }
                        }
                        return None;
                    },
                    Some(n) => {
                        value = n;
                    },
                }
            },
        }
        i += 1;
    }
    assert(d.take(d.len() as int) =~= d);
    Some(value)
}

/// `Retry-After` given in whole seconds, in milliseconds and capped at a minute; the
/// HTTP-date form and junk give `None`.
pub open spec fn retry_after_ms_of(value: Seq<char>) -> Option<u64> {
    match parse_u64_spec(trim(value)) {
        Some(seconds) => Some(
            (if seconds <= 60 {
                seconds * 1000
            } else {
                MAX_RETRY_AFTER_MS as int
            }) as u64,
        ),
        None => None,
    }
}

/// Reads a `Retry-After` value (see [`retry_after_ms_of`]).
pub fn retry_after_from_value(value: &str) -> (r: Option<u64>)
    ensures
        r == retry_after_ms_of(value@),
{
    let trimmed = crate::text::trim_str(value);
    match parse_u64(trimmed.as_str()) {
        Some(seconds) => {
            if seconds <= 60 {
                Some(seconds * 1000)
            } else {
                Some(MAX_RETRY_AFTER_MS)
            }
        },
        None => None,
    }
}

/// `Retry-After` of a response, in milliseconds (see [`retry_after_ms_of`]); `None` when
/// the header is missing, not visible ASCII or not a number of seconds.
pub fn parse_retry_after(headers: &reqwest::header::HeaderMap) -> (r: Option<u64>)
    ensures
        r matches Some(ms) ==> ms <= MAX_RETRY_AFTER_MS,
{
    match retry_after_header(headers) {
        Some(value) => retry_after_from_value(value.as_str()),
        None => None,
    }
}

/// Calls `reqwest::Error::is_timeout`.
#[verifier::external_body]
fn transport_timed_out(error: &reqwest::Error) -> bool {
    error.is_timeout()
}

/// Calls `ToString::to_string` on a `reqwest::Error` (its `Display` text).
#[verifier::external_body]
fn transport_text(error: &reqwest::Error) -> String {
    error.to_string()
}

/// A transport failure: a timeout, or a network error carrying reqwest's text.
pub fn classify_transport_error(error: &reqwest::Error) -> (r: DeepseekError)
    ensures
        r is Timeout || r is Network,
{
    if transport_timed_out(error) {
        DeepseekError::Timeout
    } else {
        DeepseekError::Network(transport_text(error))
    }
}

/// A response that broke the JSON contract.
pub fn invalid_response(reason: String) -> (r: DeepseekError)
    ensures
        r == (DeepseekError::InvalidResponse { reason }),
{
    DeepseekError::InvalidResponse { reason }
}

} // verus!
