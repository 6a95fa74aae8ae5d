//! Secret values read from the vault: the DeepSeek API key and the yt-dlp auth secrets.
//!
//! The key wrapper has neither `Debug` nor `Display`, so it cannot reach a log line by
//! accident; its bytes are only read to build the `Authorization` header.
use crate::config::AuthSecrets;
use crate::text::{from_chars, lines, split_lines, to_chars, trim, trim_chars};
use vstd::prelude::*;
use vstd::utf8::{decode_utf8, encode_utf8, valid_utf8};

verus! {

/// Vault key of the DeepSeek API key.
pub const AI_API_KEY: &'static str = "ai.apiKey";

/// Vault key of the yt-dlp username.
pub const AUTH_USERNAME_KEY: &'static str = "auth.username";

/// Vault key of the yt-dlp password.
pub const AUTH_PASSWORD_KEY: &'static str = "auth.password";

/// Vault key of the video password.
pub const VIDEO_PASSWORD_KEY: &'static str = "video.password";

/// Vault key of the bearer token.
pub const AUTH_BEARER_KEY: &'static str = "auth.bearer";

/// Vault key of the extra request headers (one `Name: value` per line).
pub const AUTH_HEADERS_KEY: &'static str = "auth.headers";

/// The DeepSeek API key.
#[derive(Clone, PartialEq, Eq)]
pub struct ApiKey(Vec<u8>);

impl View for ApiKey {
    type V = Seq<u8>;

    closed spec fn view(&self) -> Seq<u8> {
        self.0@
    }
}

impl ApiKey {
    pub fn new(bytes: Vec<u8>) -> (r: Self)
        ensures
            r@ == bytes@,
    {
        ApiKey(bytes)
    }

    /// Byte view for the request header. Never pass the result to a formatter.
    pub fn expose(&self) -> (r: &[u8])
        ensures
            r@ == self@,
    {
        self.0.as_slice()
    }
}

impl Drop for ApiKey {
    /// Zeroes the key bytes (`<[u8]>::fill`) before the memory is released.
    #[verifier::external_body]
    fn drop(&mut self)
        opens_invariants none
        no_unwind
    {
        self.0.fill(0);
    }
}

/// Calls `String::from_utf8`, which succeeds exactly on valid UTF-8 and then holds the
/// decoded characters; the error text is std's.
#[verifier::external_body]
fn utf8_string(bytes: Vec<u8>) -> (r: Result<String, String>)
    ensures
        r is Ok <==> valid_utf8(bytes@),
        r matches Ok(s) ==> s@ == decode_utf8(bytes@),
{
    String::from_utf8(bytes).map_err(|error| error.to_string())
}

/// What a raw vault value means as text: `None` when absent, `Err` when not UTF-8,
/// otherwise the trimmed text, blank counting as absent.
pub open spec fn trimmed_secret(raw: Option<Seq<u8>>) -> Result<Option<Seq<char>>, ()> {
    match raw {
        None => Ok(None),
        Some(bytes) => if !valid_utf8(bytes) {
            Err(())
        } else if trim(decode_utf8(bytes)).len() == 0 {
            Ok(None)
        } else {
            Ok(Some(trim(decode_utf8(bytes))))
        },
    }
}

pub open spec fn raw_view(raw: Option<Vec<u8>>) -> Option<Seq<u8>> {
    match raw {
        Some(v) => Some(v@),
        None => None,
    }
}

fn trimmed_text(raw: Option<Vec<u8>>) -> (r: Result<Option<String>, String>)
    ensures
        match (r, trimmed_secret(raw_view(raw))) {
            (Ok(None), Ok(None)) => true,
            (Ok(Some(s)), Ok(Some(t))) => s@ == t,
            (Err(_), Err(())) => true,
            _ => false,
        },
{
    let bytes = match raw {
        Some(bytes) => bytes,
        None => {
            return Ok(None);
        },
    };
    let text = match utf8_string(bytes) {
        Ok(text) => text,
        Err(message) => {
            return Err(message);
        },
    };
    let chars = to_chars(text.as_str());
    let trimmed = trim_chars(&chars);
    if trimmed.len() == 0 {
        Ok(None)
    } else {
        Ok(Some(from_chars(trimmed.as_slice())))
    }
}

/// Calls `str::as_bytes` on an owned string and copies the bytes: the UTF-8 encoding of
/// its characters.
fn utf8_bytes(s: &String) -> (r: Vec<u8>)
    ensures
        r@ == encode_utf8(s@),
{
    let b = s.as_str().as_bytes();
    let mut out: Vec<u8> = Vec::new();
    let mut i: usize = 0;
    while i < b.len()
        invariant
            i <= b@.len(),
            b@ == encode_utf8(s@),
            out@ == b@.take(i as int),
        decreases b@.len() - i,
    {
        out.push(b[i]);
        assert(b@.take(i as int).push(b@[i as int]) =~= b@.take(i + 1));
        i += 1;
    }
    assert(b@.take(b@.len() as int) =~= b@);
    out
}

/// Turns a raw vault value into the API key: absent or blank means "not configured",
/// surrounding whitespace is dropped, and a value that is not UTF-8 is an error.
pub fn api_key_from_raw(raw: Option<Vec<u8>>) -> (r: Result<Option<ApiKey>, String>)
    ensures
        match (r, trimmed_secret(raw_view(raw))) {
            (Ok(None), Ok(None)) => true,
            (Ok(Some(key)), Ok(Some(t))) => key@ == encode_utf8(t),
            (Err(_), Err(())) => true,
            _ => false,
        },
{
    match trimmed_text(raw) {
        Ok(Some(text)) => Ok(Some(ApiKey::new(utf8_bytes(&text)))),
        Ok(None) => Ok(None),
        Err(message) => Err(message),
    }
}

/// Turns a raw vault value into an optional auth secret, like [`api_key_from_raw`].
pub fn secret_from_raw(raw: Option<Vec<u8>>) -> (r: Result<Option<String>, String>)
    ensures
        match (r, trimmed_secret(raw_view(raw))) {
            (Ok(None), Ok(None)) => true,
            (Ok(Some(s)), Ok(Some(t))) => s@ == t,
            (Err(_), Err(())) => true,
            _ => false,
        },
{
    trimmed_text(raw)
}

/// The header lines of the `auth.headers` blob: each line trimmed, keeping the non-empty
/// ones that contain a `:`, in order.
pub open spec fn header_lines(ls: Seq<Seq<char>>) -> Seq<Seq<char>>
    decreases ls.len(),
{
    if ls.len() == 0 {
        Seq::empty()
    } else {
        let l = trim(ls.last());
        if l.len() > 0 && l.contains(':') {
            header_lines(ls.drop_last()).push(l)
        } else {
            header_lines(ls.drop_last())
        }
    }
}

/// Parses the `auth.headers` blob into `--add-header` values.
pub fn parse_auth_headers(blob: &str) -> (r: Vec<String>)
    ensures
        crate::text::views(r@) == header_lines(lines(blob@)),
{
    let chars = to_chars(blob);
    let ls = split_lines(&chars);
    let mut out: Vec<String> = Vec::new();
    let mut i: usize = 0;
    while i < ls.len()
        invariant
            i <= ls@.len(),
            ls@.map_values(|l: Vec<char>| l@) == lines(blob@),
            crate::text::views(out@) == header_lines(lines(blob@).take(i as int)),
        decreases ls@.len() - i,
    {
        let line = trim_chars(&ls[i]);
        let ghost l = lines(blob@)[i as int];
        assert(ls@[i as int]@ == l);
        assert(lines(blob@).take(i + 1).drop_last() =~= lines(blob@).take(i as int));
        let mut has_colon = false;
        let mut k: usize = 0;
        while k < line.len()
            invariant
                k <= line@.len(),
                has_colon == (exists|m: int| 0 <= m < k && line@[m] == ':'),
            decreases line@.len() - k,
        {
            if line[k] == ':' {
                has_colon = true;
            }
            k += 1;
        }
        proof {
            if has_colon {
                let m = choose|m: int| 0 <= m < k && line@[m] == ':';
                assert(line@.contains(':'));
            }
            if line@.contains(':') {
                let m = choose|m: int| 0 <= m < line@.len() && line@[m] == ':';
                assert(has_colon);
            }
        }
        if line.len() > 0 && has_colon {
            let ghost before = out@;
            out.push(from_chars(line.as_slice()));
            assert(crate::text::views(out@) =~= crate::text::views(before).push(line@));
        }
        i += 1;
    }
    assert(lines(blob@).take(ls@.len() as int) =~= lines(blob@));
    out
}

/// Assembles the auth secrets from the five raw vault values (see [`secret_from_raw`]
/// and [`parse_auth_headers`]); the first value that is not UTF-8 makes it an error.
pub fn auth_secrets_from_raw(
    username: Option<Vec<u8>>,
    password: Option<Vec<u8>>,
    video_password: Option<Vec<u8>>,
    bearer: Option<Vec<u8>>,
    headers: Option<Vec<u8>>,
) -> (r: Result<AuthSecrets, String>)
    ensures
        r matches Ok(s) ==> {
            &&& trimmed_secret(raw_view(username)) == Ok::<_, ()>(opt_view(s.username))
            &&& trimmed_secret(raw_view(password)) == Ok::<_, ()>(opt_view(s.password))
            &&& trimmed_secret(raw_view(video_password)) == Ok::<_, ()>(opt_view(s.video_password))
            &&& trimmed_secret(raw_view(bearer)) == Ok::<_, ()>(opt_view(s.bearer_token))
            &&& match trimmed_secret(raw_view(headers)) {
                Ok(Some(blob)) => crate::text::views(s.headers@) == header_lines(lines(blob)),
                Ok(None) => s.headers@.len() == 0,
                Err(()) => false,
            }
        },
        r is Err <==> (trimmed_secret(raw_view(username)) is Err || trimmed_secret(
            raw_view(password),
        ) is Err || trimmed_secret(raw_view(video_password)) is Err || trimmed_secret(
            raw_view(bearer),
        ) is Err || trimmed_secret(raw_view(headers)) is Err),
{
    let username = match secret_from_raw(username) {
        Ok(v) => v,
        Err(e) => {
            return Err(e);
        },
    };
    let password = match secret_from_raw(password) {
        Ok(v) => v,
        Err(e) => {
            return Err(e);
        },
    };
    let video_password = match secret_from_raw(video_password) {
        Ok(v) => v,
        Err(e) => {
            return Err(e);
        },
    };
    let bearer_token = match secret_from_raw(bearer) {
        Ok(v) => v,
        Err(e) => {
            return Err(e);
        },
    };
    let header_blob = match secret_from_raw(headers) {
        Ok(v) => v,
        Err(e) => {
            return Err(e);
        },
    };
    let headers = match header_blob {
        Some(blob) => parse_auth_headers(blob.as_str()),
        None => Vec::new(),
    };
    Ok(AuthSecrets { username, password, video_password, bearer_token, headers })
}

pub open spec fn opt_view(o: Option<String>) -> Option<Seq<char>> {
    match o {
        Some(s) => Some(s@),
        None => None,
    }
}

// ---------------------------------------------------------------------------
// Vault master key
// ---------------------------------------------------------------------------

/// The standard, padded base64 text of `bytes` (what `base64`'s `STANDARD` engine
/// encodes).
pub uninterp spec fn base64_text(bytes: Seq<u8>) -> Seq<char>;

/// What `base64`'s `STANDARD` engine decodes `text` to; `None` when it rejects it.
pub uninterp spec fn base64_bytes(text: Seq<char>) -> Option<Seq<u8>>;

/// Calls `base64::engine::general_purpose::STANDARD.encode`.
#[verifier::external_body]
fn encode_base64(bytes: &[u8]) -> (r: String)
    ensures
        r@ == base64_text(bytes@),
{
    base64::Engine::encode(&base64::engine::general_purpose::STANDARD, bytes)
}

/// Calls `base64::engine::general_purpose::STANDARD.decode`.
#[verifier::external_body]
fn decode_base64(text: &str) -> (r: Option<Vec<u8>>)
    ensures
        match r {
            Some(v) => base64_bytes(text@) == Some(v@),
            None => base64_bytes(text@) is None,
        },
{
    base64::Engine::decode(&base64::engine::general_purpose::STANDARD, text).ok()
}

/// Fills 32 bytes from `rand::rng()` (the thread-local generator); the bytes are random.
#[verifier::external_body]
fn random_key() -> (r: [u8; 32]) {
    let mut key = [0u8; 32];
    rand::RngCore::fill_bytes(&mut rand::rng(), &mut key);
    key
}

/// A fresh 32-byte vault master key.
pub fn generate_master_key() -> (r: [u8; 32]) {
    random_key()
}

/// The text under which the master key is kept in the OS keyring.
pub fn master_key_text(key: &[u8]) -> (r: String)
    ensures
        r@ == base64_text(key@),
{
    encode_base64(key)
}

/// Why the vault is recreated at startup.
#[derive(Debug, Clone, Copy, PartialEq, Eq, Structural)]
pub enum RecreateReason {
    /// The stored key did not open the vault.
    BadKey,
    /// The stored key is not valid base64.
    MalformedKey,
}

/// What startup does with the vault.
#[derive(Debug)]
pub enum StartupAction {
    /// No vault yet, or no key stored: nothing to open.
    Skip,
    /// Open the vault with this key.
    Open(Vec<u8>),
    /// Create a new vault and key.
    Recreate(RecreateReason),
    /// The keyring could not be read; the message is kept as the init error.
    KeyringUnavailable(String),
}

/// The startup decision from whether the vault file exists and what the keyring answered.
pub fn startup_action(snapshot_exists: bool, keyring: Result<Option<String>, String>) -> (r:
    StartupAction)
    ensures
        !snapshot_exists ==> r is Skip,
        snapshot_exists ==> match keyring {
            Err(e) => r matches StartupAction::KeyringUnavailable(m) && m@
                == "Secure keyring unavailable: "@ + e@,
            Ok(None) => r is Skip,
            Ok(Some(text)) => match base64_bytes(text@) {
                Some(key) => r matches StartupAction::Open(k) && k@ == key,
                None => r matches StartupAction::Recreate(RecreateReason::MalformedKey),
            },
        },
{
    if !snapshot_exists {
        return StartupAction::Skip;
    }
    match keyring {
        Err(e) => {
            let mut m = String::new();
            crate::text::push_str(&mut m, "Secure keyring unavailable: ");
            crate::text::push_str(&mut m, e.as_str());
            StartupAction::KeyringUnavailable(m)
        },
        Ok(None) => StartupAction::Skip,
        Ok(Some(text)) => match decode_base64(text.as_str()) {
            Some(key) => StartupAction::Open(key),
            None => StartupAction::Recreate(RecreateReason::MalformedKey),
        },
    }
}

/// The init error kept when recreating the vault failed.
pub fn recreate_failure_message(reason: RecreateReason, setup_error: &str) -> (r: String)
    ensures
        r@ == match reason {
            RecreateReason::BadKey => "Recreate vault failed after bad key: "@ + setup_error@,
            RecreateReason::MalformedKey => "Recreate vault failed (malformed key): "@
                + setup_error@,
        },
{
    let mut m = String::new();
    match reason {
        RecreateReason::BadKey => crate::text::push_str(&mut m, "Recreate vault failed after bad key: "),
        RecreateReason::MalformedKey => crate::text::push_str(
            &mut m,
            "Recreate vault failed (malformed key): ",
        ),
    }
    crate::text::push_str(&mut m, setup_error);
    m
}

} // verus!
