//! yt-dlp argv construction: network flags, auth flags and the audio-only download.
use crate::config::{AuthSecrets, AuthSettings, Config, InputSettings, NetworkSettings, PlaylistMode};
use crate::text::{join, join_strings, lines, push_str, split_lines, str_eq, to_chars, trim, trim_chars, views, from_chars};
use crate::tool_args::push_arg;
use vstd::prelude::*;

verus! {

/// Audio-only format selector: cheapest audio stream, falling back to the best combined
/// stream when a video has no audio-only format.
pub const AUDIO_FORMAT_SELECTOR: &'static str = "ba/best";

// ---------------------------------------------------------------------------
// Network flags
// ---------------------------------------------------------------------------

/// The trimmed non-empty lines of a multi-line field, in order.
pub open spec fn trimmed_lines(ls: Seq<Seq<char>>) -> Seq<Seq<char>>
    decreases ls.len(),
{
    if ls.len() == 0 {
        Seq::empty()
    } else if trim(ls.last()).len() > 0 {
        trimmed_lines(ls.drop_last()).push(trim(ls.last()))
    } else {
        trimmed_lines(ls.drop_last())
    }
}

/// The multi-line `--extractor-args` field as one argument: its trimmed non-empty lines
/// joined with single spaces, or nothing when none is left.
pub open spec fn extractor_args_value(s: Seq<char>) -> Option<Seq<char>> {
    let joined = join(trimmed_lines(lines(s)), " "@);
    if joined.len() == 0 {
        None
    } else {
        Some(joined)
    }
}

/// Collapses the multi-line `--extractor-args` text field into a single argument.
pub fn normalize_extractor_args(value: &str) -> (r: Option<String>)
    ensures
        match (r, extractor_args_value(value@)) {
            (Some(a), Some(b)) => a@ == b,
            (None, None) => true,
            _ => false,
        },
{
    let chars = to_chars(value);
    let ls = split_lines(&chars);
    let mut parts: Vec<String> = Vec::new();
    let mut i: usize = 0;
    while i < ls.len()
        invariant
            i <= ls@.len(),
            ls@.len() == lines(value@).len(),
            forall|j: int| 0 <= j < ls@.len() ==> #[trigger] ls@[j]@ == lines(value@)[j],
            views(parts@) == trimmed_lines(lines(value@).take(i as int)),
        decreases ls@.len() - i,
    {
        let line = trim_chars(&ls[i]);
        assert(lines(value@).take(i + 1).drop_last() =~= lines(value@).take(i as int));
        assert(lines(value@).take(i + 1).last() == ls@[i as int]@);
        if line.len() > 0 {
            let ghost before = parts@;
            parts.push(from_chars(line.as_slice()));
            assert(views(parts@) =~= views(before).push(line@));
        }
        i += 1;
    }
    assert(lines(value@).take(ls@.len() as int) =~= lines(value@));
    let joined = join_strings(&parts, " ");
    if joined.as_str().is_empty() {
        None
    } else {
        Some(joined)
    }
}

pub open spec fn proxy_flags(n: NetworkSettings) -> Seq<Seq<char>> {
    if n.enable_proxy == Some(true) && n.proxy is Some {
        seq!["--proxy"@, n.proxy.unwrap()@]
    } else {
        Seq::empty()
    }
}

pub open spec fn impersonate_flags(target: Seq<char>) -> Seq<Seq<char>> {
    if target == "none"@ {
        Seq::empty()
    } else if target == "any"@ {
        seq!["--impersonate"@, Seq::<char>::empty()]
    } else {
        seq!["--impersonate"@, target]
    }
}

pub open spec fn extractor_flags(field: Seq<char>) -> Seq<Seq<char>> {
    match extractor_args_value(field) {
        Some(e) => seq!["--extractor-args"@, e],
        None => Seq::empty(),
    }
}

/// The network flags: `--proxy` when the proxy is switched on and set, `--impersonate`
/// unless it is `none` (`any` passes an empty target), and the extractor arguments.
pub open spec fn network_flags(n: NetworkSettings) -> Seq<Seq<char>> {
    proxy_flags(n) + impersonate_flags(n.impersonate@) + extractor_flags(n.extractor_args@)
}

fn push_proxy(args: &mut Vec<String>, network: &NetworkSettings)
    ensures
        views(final(args)@) == views(old(args)@) + proxy_flags(*network),
{
    let ghost start = views(args@);
    let proxy_enabled = match network.enable_proxy {
        Some(enabled) => enabled,
        None => false,
    };
    if proxy_enabled {
        match &network.proxy {
            Some(proxy) => {
                push_arg(args, "--proxy");
                push_arg(args, proxy.as_str());
            },
            None => {},
        }
    }
    assert(views(args@) =~= start + proxy_flags(*network));
}

fn push_impersonate(args: &mut Vec<String>, target: &String)
    ensures
        views(final(args)@) == views(old(args)@) + impersonate_flags(target@),
{
    let ghost start = views(args@);
    proof {
        reveal_strlit("");
        assert(""@ =~= Seq::<char>::empty());
    }
    if str_eq(target.as_str(), "none") {
        assert(views(args@) =~= start + impersonate_flags(target@));
    } else if str_eq(target.as_str(), "any") {
        push_arg(args, "--impersonate");
        push_arg(args, "");
        assert(views(args@) =~= start + impersonate_flags(target@));
    } else {
        push_arg(args, "--impersonate");
        push_arg(args, target.as_str());
        assert(views(args@) =~= start + impersonate_flags(target@));
    }
}

fn push_extractor(args: &mut Vec<String>, field: &String)
    ensures
        views(final(args)@) == views(old(args)@) + extractor_flags(field@),
{
    let ghost start = views(args@);
    match normalize_extractor_args(field.as_str()) {
        Some(extractor_args) => {
            push_arg(args, "--extractor-args");
            push_arg(args, extractor_args.as_str());
        },
        None => {},
    }
    assert(views(args@) =~= start + extractor_flags(field@));
}

/// Appends the network flags (see [`network_flags`]).
fn push_network_args(args: &mut Vec<String>, network: &NetworkSettings)
    ensures
        views(final(args)@) == views(old(args)@) + network_flags(*network),
{
    let ghost start = views(args@);
    push_proxy(args, network);
    push_impersonate(args, &network.impersonate);
    push_extractor(args, &network.extractor_args);
    assert(views(args@) =~= start + network_flags(*network));
}

/// Network-related yt-dlp flags (see [`network_flags`]).
pub fn build_network_args(network: &NetworkSettings) -> (r: Vec<String>)
    ensures
        views(r@) == network_flags(*network),
{
    let mut args: Vec<String> = Vec::new();
    push_network_args(&mut args, network);
    assert(views(args@) =~= network_flags(*network));
    args
}

// ---------------------------------------------------------------------------
// Auth flags
// ---------------------------------------------------------------------------

pub open spec fn optional_flag(flag: Seq<char>, value: Option<String>) -> Seq<Seq<char>> {
    match value {
        Some(v) => seq![flag, v@],
        None => Seq::empty(),
    }
}

/// One `--add-header` per configured header.
pub open spec fn header_flags(headers: Seq<String>) -> Seq<Seq<char>>
    decreases headers.len(),
{
    if headers.len() == 0 {
        Seq::empty()
    } else {
        header_flags(headers.drop_last()) + seq!["--add-header"@, headers.last()@]
    }
}

pub open spec fn browser_flags(auth: AuthSettings) -> Seq<Seq<char>> {
    if auth.cookie_browser@ != "none"@ {
        seq!["--cookies-from-browser"@, auth.cookie_browser@]
    } else {
        Seq::empty()
    }
}

pub open spec fn bearer_flags(token: Option<String>) -> Seq<Seq<char>> {
    match token {
        Some(t) => seq!["--add-header"@, "Authorization:Bearer "@ + t@],
        None => Seq::empty(),
    }
}

/// The cookie and credential flags, in this order: browser cookies (unless `none`),
/// cookie file, username, password, video password, bearer token as an
/// `Authorization` header, then the extra headers.
pub open spec fn auth_flags(auth: AuthSettings, secrets: AuthSecrets) -> Seq<Seq<char>> {
    browser_flags(auth) + optional_flag("--cookies"@, auth.cookie_file) + optional_flag(
        "--username"@,
        secrets.username,
    ) + optional_flag("--password"@, secrets.password) + optional_flag(
        "--video-password"@,
        secrets.video_password,
    ) + bearer_flags(secrets.bearer_token) + header_flags(secrets.headers@)
}

fn push_optional(args: &mut Vec<String>, flag: &str, value: &Option<String>)
    ensures
        views(final(args)@) == views(old(args)@) + optional_flag(flag@, *value),
{
    let ghost start = views(args@);
    match value {
        Some(v) => {
            push_arg(args, flag);
            push_arg(args, v.as_str());
        },
        None => {},
    }
    assert(views(args@) =~= start + optional_flag(flag@, *value));
}

fn push_browser(args: &mut Vec<String>, auth: &AuthSettings)
    ensures
        views(final(args)@) == views(old(args)@) + browser_flags(*auth),
{
    let ghost start = views(args@);
    if !str_eq(auth.cookie_browser.as_str(), "none") {
        push_arg(args, "--cookies-from-browser");
        push_arg(args, auth.cookie_browser.as_str());
    }
    assert(views(args@) =~= start + browser_flags(*auth));
}

fn push_bearer(args: &mut Vec<String>, token: &Option<String>)
    ensures
        views(final(args)@) == views(old(args)@) + bearer_flags(*token),
{
    let ghost start = views(args@);
    match token {
        Some(t) => {
            push_arg(args, "--add-header");
            let mut header = String::new();
            push_str(&mut header, "Authorization:Bearer ");
            push_str(&mut header, t.as_str());
            push_arg(args, header.as_str());
        },
        None => {},
    }
    assert(views(args@) =~= start + bearer_flags(*token));
}

fn push_headers(args: &mut Vec<String>, headers: &Vec<String>)
    ensures
        views(final(args)@) == views(old(args)@) + header_flags(headers@),
{
    let ghost start = views(args@);
    let mut i: usize = 0;
    while i < headers.len()
        invariant
            i <= headers@.len(),
            views(args@) == start + header_flags(headers@.take(i as int)),
        decreases headers@.len() - i,
    {
        push_arg(args, "--add-header");
        push_arg(args, headers[i].as_str());
        assert(headers@.take(i + 1).drop_last() =~= headers@.take(i as int));
        assert(headers@.take(i + 1).last() == headers@[i as int]);
        assert(views(args@) =~= start + header_flags(headers@.take(i + 1)));
        i += 1;
    }
    assert(headers@.take(headers@.len() as int) =~= headers@);
}

fn push_auth_args(args: &mut Vec<String>, auth: &AuthSettings, secrets: &AuthSecrets)
    ensures
        views(final(args)@) == views(old(args)@) + auth_flags(*auth, *secrets),
{
    let ghost start = views(args@);
    push_browser(args, auth);
    push_optional(args, "--cookies", &auth.cookie_file);
    push_optional(args, "--username", &secrets.username);
    push_optional(args, "--password", &secrets.password);
    push_optional(args, "--video-password", &secrets.video_password);
    push_bearer(args, &secrets.bearer_token);
    push_headers(args, &secrets.headers);
    assert(views(args@) =~= start + auth_flags(*auth, *secrets));
}

/// Cookie and credential flags (see [`auth_flags`]); secret values only ever reach this
/// argv.
pub fn build_auth_args(auth: &AuthSettings, secrets: &AuthSecrets) -> (r: Vec<String>)
    ensures
        views(r@) == auth_flags(*auth, *secrets),
{
    let mut args: Vec<String> = Vec::new();
    push_auth_args(&mut args, auth, secrets);
    assert(views(args@) =~= auth_flags(*auth, *secrets));
    args
}

// ---------------------------------------------------------------------------
// Per-group overrides and the audio download
// ---------------------------------------------------------------------------

/// Per-group replacements of network settings; a `Some` field wins over the config.
#[derive(Debug, PartialEq, Eq)]
pub struct NetworkOverrides {
    pub enable_proxy: Option<bool>,
    pub proxy: Option<String>,
    pub impersonate: Option<String>,
    pub extractor_args: Option<String>,
}

/// Per-group replacements of auth settings and secrets; a `Some` field wins.
#[derive(Debug, PartialEq, Eq)]
pub struct AuthOverrides {
    pub cookie_file: Option<String>,
    pub cookie_browser: Option<String>,
    pub username: Option<String>,
    pub password: Option<String>,
    pub video_password: Option<String>,
    pub bearer_token: Option<String>,
}

/// Per-group replacement of the input preferences.
#[derive(Debug, Clone, Copy, PartialEq, Eq, Structural)]
pub struct InputOverrides {
    pub prefer_video_in_mixed_links: Option<bool>,
}

/// Per-group input filters.
#[derive(Debug, Clone, Copy, PartialEq, Eq, Structural)]
pub struct InputFilterOverrides {
    pub playlist_mode: Option<PlaylistMode>,
}

/// Everything a download group may override.
#[derive(Debug, PartialEq, Eq)]
pub struct DownloadOverrides {
    pub network: Option<NetworkOverrides>,
    pub auth: Option<AuthOverrides>,
    pub input: Option<InputOverrides>,
    pub input_filters: Option<InputFilterOverrides>,
}

impl Clone for NetworkOverrides {
    fn clone(&self) -> (r: Self)
        ensures
            r == *self,
    {
        NetworkOverrides {
            enable_proxy: self.enable_proxy,
            proxy: clone_opt(&self.proxy),
            impersonate: clone_opt(&self.impersonate),
            extractor_args: clone_opt(&self.extractor_args),
        }
    }
}

impl Clone for AuthOverrides {
    fn clone(&self) -> (r: Self)
        ensures
            r == *self,
    {
        AuthOverrides {
            cookie_file: clone_opt(&self.cookie_file),
            cookie_browser: clone_opt(&self.cookie_browser),
            username: clone_opt(&self.username),
            password: clone_opt(&self.password),
            video_password: clone_opt(&self.video_password),
            bearer_token: clone_opt(&self.bearer_token),
        }
    }
}

impl Clone for DownloadOverrides {
    fn clone(&self) -> (r: Self)
        ensures
            r == *self,
    {
        DownloadOverrides {
            network: match &self.network {
                Some(n) => Some(n.clone()),
                None => None,
            },
            auth: match &self.auth {
                Some(a) => Some(a.clone()),
                None => None,
            },
            input: self.input,
            input_filters: self.input_filters,
        }
    }
}

pub open spec fn pick<T>(patch: Option<T>, base: T) -> T {
    match patch {
        Some(v) => v,
        None => base,
    }
}

pub open spec fn pick_opt<T>(patch: Option<T>, base: Option<T>) -> Option<T> {
    match patch {
        Some(v) => Some(v),
        None => base,
    }
}

pub open spec fn resolved_network(base: NetworkSettings, o: Option<NetworkOverrides>) -> NetworkSettings {
    match o {
        Some(p) => NetworkSettings {
            enable_proxy: pick_opt(p.enable_proxy, base.enable_proxy),
            proxy: pick_opt(p.proxy, base.proxy),
            impersonate: pick(p.impersonate, base.impersonate),
            extractor_args: pick(p.extractor_args, base.extractor_args),
        },
        None => base,
    }
}

pub open spec fn resolved_auth(base: AuthSettings, o: Option<AuthOverrides>) -> AuthSettings {
    match o {
        Some(p) => AuthSettings {
            cookie_file: pick_opt(p.cookie_file, base.cookie_file),
            cookie_browser: pick(p.cookie_browser, base.cookie_browser),
        },
        None => base,
    }
}

pub open spec fn resolved_secrets(base: AuthSecrets, o: Option<AuthOverrides>) -> AuthSecrets {
    match o {
        Some(p) => AuthSecrets {
            username: pick_opt(p.username, base.username),
            password: pick_opt(p.password, base.password),
            video_password: pick_opt(p.video_password, base.video_password),
            bearer_token: pick_opt(p.bearer_token, base.bearer_token),
            headers: base.headers,
        },
        None => base,
    }
}

fn clone_opt(o: &Option<String>) -> (r: Option<String>)
    ensures
        r == *o,
{
    match o {
        Some(s) => Some(s.clone()),
        None => None,
    }
}

fn pick_string(patch: &Option<String>, base: &String) -> (r: String)
    ensures
        r == pick(*patch, *base),
{
    match patch {
        Some(s) => s.clone(),
        None => base.clone(),
    }
}

fn pick_opt_string(patch: &Option<String>, base: &Option<String>) -> (r: Option<String>)
    ensures
        r == pick_opt(*patch, *base),
{
    match patch {
        Some(s) => Some(s.clone()),
        None => clone_opt(base),
    }
}

fn clone_strings(v: &Vec<String>) -> (r: Vec<String>)
    ensures
        r@ == v@,
{
    let mut out: Vec<String> = Vec::new();
    let mut i: usize = 0;
    while i < v.len()
        invariant
            i <= v@.len(),
            out@ == v@.take(i as int),
        decreases v@.len() - i,
    {
        out.push(v[i].clone());
        assert(out@ =~= v@.take(i + 1));
        i += 1;
    }
    assert(v@.take(v@.len() as int) =~= v@);
    out
}

/// The network settings after the group's overrides.
pub fn resolve_network(base: &NetworkSettings, patch: Option<&NetworkOverrides>) -> (r:
    NetworkSettings)
    ensures
        r == resolved_network(
            *base,
            match patch {
                Some(p) => Some(*p),
                None => None,
            },
        ),
{
    match patch {
        Some(p) => NetworkSettings {
            enable_proxy: match p.enable_proxy {
                Some(v) => Some(v),
                None => base.enable_proxy,
            },
            proxy: pick_opt_string(&p.proxy, &base.proxy),
            impersonate: pick_string(&p.impersonate, &base.impersonate),
            extractor_args: pick_string(&p.extractor_args, &base.extractor_args),
        },
        None => NetworkSettings {
            enable_proxy: base.enable_proxy,
            proxy: clone_opt(&base.proxy),
            impersonate: base.impersonate.clone(),
            extractor_args: base.extractor_args.clone(),
        },
    }
}

/// The auth settings after the group's overrides.
pub fn resolve_auth(base: &AuthSettings, patch: Option<&AuthOverrides>) -> (r: AuthSettings)
    ensures
        r == resolved_auth(
            *base,
            match patch {
                Some(p) => Some(*p),
                None => None,
            },
        ),
{
    match patch {
        Some(p) => AuthSettings {
            cookie_file: pick_opt_string(&p.cookie_file, &base.cookie_file),
            cookie_browser: pick_string(&p.cookie_browser, &base.cookie_browser),
        },
        None => AuthSettings {
            cookie_file: clone_opt(&base.cookie_file),
            cookie_browser: base.cookie_browser.clone(),
        },
    }
}

/// The auth secrets after the group's overrides.
pub fn resolve_secrets(base: &AuthSecrets, patch: Option<&AuthOverrides>) -> (r: AuthSecrets)
    ensures
        r.username == resolved_secrets(*base, match patch { Some(p) => Some(*p), None => None }).username,
        r.password == resolved_secrets(*base, match patch { Some(p) => Some(*p), None => None }).password,
        r.video_password == resolved_secrets(*base, match patch { Some(p) => Some(*p), None => None }).video_password,
        r.bearer_token == resolved_secrets(*base, match patch { Some(p) => Some(*p), None => None }).bearer_token,
        r.headers@ == base.headers@,
{
    match patch {
        Some(p) => AuthSecrets {
            username: pick_opt_string(&p.username, &base.username),
            password: pick_opt_string(&p.password, &base.password),
            video_password: pick_opt_string(&p.video_password, &base.video_password),
            bearer_token: pick_opt_string(&p.bearer_token, &base.bearer_token),
            headers: clone_strings(&base.headers),
        },
        None => AuthSecrets {
            username: clone_opt(&base.username),
            password: clone_opt(&base.password),
            video_password: clone_opt(&base.video_password),
            bearer_token: clone_opt(&base.bearer_token),
            headers: clone_strings(&base.headers),
        },
    }
}

/// The playlist flag: an explicit group playlist mode wins, otherwise the mixed-link
/// preference (after the group's input override) decides.
pub open spec fn playlist_flag_for(input: InputSettings, o: Option<DownloadOverrides>) -> Seq<char> {
    let mode = match o {
        Some(d) => match d.input_filters {
            Some(f) => f.playlist_mode,
            None => None,
        },
        None => None,
    };
    let prefer_video = match o {
        Some(d) => match d.input {
            Some(i) => pick(i.prefer_video_in_mixed_links, input.prefer_video_in_mixed_links),
            None => input.prefer_video_in_mixed_links,
        },
        None => input.prefer_video_in_mixed_links,
    };
    match mode {
        Some(PlaylistMode::SingleVideo) => "--no-playlist"@,
        Some(PlaylistMode::Playlist) => "--yes-playlist"@,
        None => if prefer_video {
            "--no-playlist"@
        } else {
            "--yes-playlist"@
        },
    }
}

pub open spec fn overrides_view(o: Option<&DownloadOverrides>) -> Option<DownloadOverrides> {
    match o {
        Some(d) => Some(*d),
        None => None,
    }
}

/// The playlist flag of an audio download (see [`playlist_flag_for`]).
pub fn playlist_flag(config: &Config, overrides: Option<&DownloadOverrides>) -> (r: &'static str)
    ensures
        r@ == playlist_flag_for(config.input, overrides_view(overrides)),
{
    let mode = match overrides {
        Some(d) => match d.input_filters {
            Some(f) => f.playlist_mode,
            None => None,
        },
        None => None,
    };
    match mode {
        Some(PlaylistMode::SingleVideo) => "--no-playlist",
        Some(PlaylistMode::Playlist) => "--yes-playlist",
        None => {
            let prefer_video = match overrides {
                Some(d) => match d.input {
                    Some(i) => match i.prefer_video_in_mixed_links {
                        Some(v) => v,
                        None => config.input.prefer_video_in_mixed_links,
                    },
                    None => config.input.prefer_video_in_mixed_links,
                },
                None => config.input.prefer_video_in_mixed_links,
            };
            if prefer_video {
                "--no-playlist"
            } else {
                "--yes-playlist"
            }
        },
    }
}

/// The audio-only download argv: format selector, output template, playlist flag, then
/// the network and auth flags resolved from the config and the group's overrides. No
/// remux, post-processing, subtitles or filters.
pub open spec fn audio_download_flags(
    config: Config,
    overrides: Option<DownloadOverrides>,
    output_path: Seq<char>,
    secrets: AuthSecrets,
) -> Seq<Seq<char>> {
    let network = match overrides {
        Some(d) => d.network,
        None => None,
    };
    let auth = match overrides {
        Some(d) => d.auth,
        None => None,
    };
    seq!["-f"@, AUDIO_FORMAT_SELECTOR@, "-o"@, output_path, playlist_flag_for(config.input, overrides)]
        + network_flags(resolved_network(config.network, network)) + auth_flags(
        resolved_auth(config.auth, auth),
        resolved_secrets(secrets, auth),
    )
}

/// `flag` is directly followed by `value` somewhere in `args`.
pub open spec fn carries(args: Seq<Seq<char>>, flag: Seq<char>, value: Seq<char>) -> bool {
    exists|i: int| #![trigger args[i]] 0 <= i && i + 1 < args.len() && args[i] == flag && args[i + 1] == value
}

/// A group's auth override reaches the download: a cookie file it names is passed after
/// `--cookies`, a browser it names (other than `none`) after `--cookies-from-browser`, and
/// a username it names after `--username` — whatever the configuration says.
pub proof fn law_group_auth_reaches_the_download(
    config: Config,
    d: DownloadOverrides,
    output_path: Seq<char>,
    secrets: AuthSecrets,
)
    ensures
        d.auth is Some && d.auth->Some_0.cookie_file is Some ==> carries(
            audio_download_flags(config, Some(d), output_path, secrets),
            "--cookies"@,
            d.auth->Some_0.cookie_file->Some_0@,
        ),
        d.auth is Some && d.auth->Some_0.cookie_browser is Some
            && d.auth->Some_0.cookie_browser->Some_0@ != "none"@ ==> carries(
            audio_download_flags(config, Some(d), output_path, secrets),
            "--cookies-from-browser"@,
            d.auth->Some_0.cookie_browser->Some_0@,
        ),
        d.auth is Some && d.auth->Some_0.username is Some ==> carries(
            audio_download_flags(config, Some(d), output_path, secrets),
            "--username"@,
            d.auth->Some_0.username->Some_0@,
        ),
{
    let f = audio_download_flags(config, Some(d), output_path, secrets);
    let head = seq!["-f"@, AUDIO_FORMAT_SELECTOR@, "-o"@, output_path, playlist_flag_for(
        config.input,
        Some(d),
    )] + network_flags(resolved_network(config.network, d.network));
    if d.auth is Some {
        let p = d.auth->Some_0;
        let a = resolved_auth(config.auth, d.auth);
        let sec = resolved_secrets(secrets, d.auth);
        let b = browser_flags(a);
        let c = optional_flag("--cookies"@, a.cookie_file);
        let u = optional_flag("--username"@, sec.username);
        assert(f == head + auth_flags(a, sec));
        if p.cookie_file is Some {
            let i: int = (head.len() + b.len()) as int;
            assert(auth_flags(a, sec)[b.len() as int] == "--cookies"@);
            assert(auth_flags(a, sec)[b.len() as int + 1] == p.cookie_file->Some_0@);
            assert(f[i] == "--cookies"@);
            assert(f[i + 1] == p.cookie_file->Some_0@);
        }
        if p.cookie_browser is Some && p.cookie_browser->Some_0@ != "none"@ {
            let i: int = head.len() as int;
            assert(auth_flags(a, sec)[0] == "--cookies-from-browser"@);
            assert(auth_flags(a, sec)[1] == p.cookie_browser->Some_0@);
            assert(f[i] == "--cookies-from-browser"@);
            assert(f[i + 1] == p.cookie_browser->Some_0@);
        }
        if p.username is Some {
            let i: int = (head.len() + b.len() + c.len()) as int;
            assert(auth_flags(a, sec)[b.len() + c.len() as int] == "--username"@);
            assert(auth_flags(a, sec)[b.len() + c.len() as int + 1] == p.username->Some_0@);
            assert(f[i] == "--username"@);
            assert(f[i + 1] == p.username->Some_0@);
        }
    }
}

/// The download argv opens with the audio format selector and the output template,
/// then the playlist flag the group asks for (single video: `--no-playlist`; playlist:
/// `--yes-playlist`), and a proxy the group switches on comes right after as
/// `--proxy <proxy>`.
pub proof fn law_download_argv_opens_with_the_group_choices(
    config: Config,
    d: DownloadOverrides,
    output_path: Seq<char>,
    secrets: AuthSecrets,
)
    ensures
        ({
            let f = audio_download_flags(config, Some(d), output_path, secrets);
            &&& f.len() >= 5
            &&& f[0] == "-f"@ && f[1] == AUDIO_FORMAT_SELECTOR@ && f[2] == "-o"@ && f[3]
                == output_path
            &&& d.input_filters is Some && d.input_filters->Some_0.playlist_mode == Some(
                PlaylistMode::SingleVideo,
            ) ==> f[4] == "--no-playlist"@
            &&& d.input_filters is Some && d.input_filters->Some_0.playlist_mode == Some(
                PlaylistMode::Playlist,
            ) ==> f[4] == "--yes-playlist"@
            &&& d.network is Some && d.network->Some_0.enable_proxy == Some(true)
                && d.network->Some_0.proxy is Some ==> f.len() >= 7 && f[5] == "--proxy"@ && f[6]
                == d.network->Some_0.proxy->Some_0@
        }),
{
    let f = audio_download_flags(config, Some(d), output_path, secrets);
    let n = resolved_network(config.network, d.network);
    let rest = network_flags(n) + auth_flags(
        resolved_auth(config.auth, d.auth),
        resolved_secrets(secrets, d.auth),
    );
    let head = seq!["-f"@, AUDIO_FORMAT_SELECTOR@, "-o"@, output_path, playlist_flag_for(
        config.input,
        Some(d),
    )];
    assert(f =~= head + rest);
    if d.network is Some && d.network->Some_0.enable_proxy == Some(true) && d.network->Some_0.proxy is Some {
        assert(proxy_flags(n) == seq!["--proxy"@, d.network->Some_0.proxy->Some_0@]);
        assert(network_flags(n)[0] == "--proxy"@);
        assert(rest[0] == "--proxy"@);
        assert(rest[1] == d.network->Some_0.proxy->Some_0@);
    }
}

/// Builds the complete yt-dlp argv for the audio-only fetch of one video (see
/// [`audio_download_flags`]); `secrets` come from the vault.
pub fn build_audio_download_args(
    config: &Config,
    overrides: Option<&DownloadOverrides>,
    output_path: &str,
    secrets: &AuthSecrets,
) -> (r: Vec<String>)
    ensures
        views(r@) == audio_download_flags(*config, overrides_view(overrides), output_path@, *secrets),
{
    let mut args: Vec<String> = Vec::new();
    push_arg(&mut args, "-f");
    push_arg(&mut args, AUDIO_FORMAT_SELECTOR);
    push_arg(&mut args, "-o");
    push_arg(&mut args, output_path);
    push_arg(&mut args, playlist_flag(config, overrides));
    let ghost head = views(args@);
    let network_patch = match overrides {
        Some(d) => match &d.network {
            Some(n) => Some(n),
            None => None,
        },
        None => None,
    };
    let network = resolve_network(&config.network, network_patch);
    push_network_args(&mut args, &network);
    let auth_patch = match overrides {
        Some(d) => match &d.auth {
            Some(a) => Some(a),
            None => None,
        },
        None => None,
    };
    let auth = resolve_auth(&config.auth, auth_patch);
    let resolved = resolve_secrets(secrets, auth_patch);
    push_auth_args(&mut args, &auth, &resolved);
    proof {
        let o = overrides_view(overrides);
        let ap = match o {
            Some(d) => d.auth,
            None => None,
        };
        assert(auth_flags(auth, resolved) =~= auth_flags(
            resolved_auth(config.auth, ap),
            resolved_secrets(*secrets, ap),
        ));
    }
    assert(views(args@) =~= audio_download_flags(
        *config,
        overrides_view(overrides),
        output_path@,
        *secrets,
    ));
    args
}

} // verus!
