//! File-log rules: where the log lives, how field values are sanitized, redacted and
//! truncated, how one event becomes one line, and when and how the files rotate.
use crate::text::{
    ascii_lower_seq, char_is_control, decimal, from_chars, is_control, lowercase_ascii, push_char,
    push_str, push_u64, str_eq, to_chars,
};
use std::path::{Path, PathBuf};
use vstd::prelude::*;

verus! {

pub const LOG_DIR_NAME: &'static str = "logs";

pub const LOG_FILE_NAME: &'static str = "transcribe.log";

/// Per-file cap of the size-based rotation.
pub const MAX_FILE_BYTES: u64 = 5 * 1024 * 1024;

/// Total number of files kept: the current one plus `.1` … `.4`.
pub const MAX_FILES: usize = 5;

/// Target of the verbose raw tool output (never sent to error reporting).
pub const TOOL_OUTPUT_TARGET: &'static str = "ovd::tool_output";

pub const REDACTED: &'static str = "[redacted]";

pub const TITLE_MAX_CHARS: usize = 80;

pub const RESPONSE_MAX_CHARS: usize = 500;

pub const STDERR_MAX_CHARS: usize = 2048;

/// Hard safety cap for any other field; full URLs must survive.
pub const FIELD_MAX_CHARS: usize = 8192;

pub const TOOL_LINE_MAX_CHARS: usize = 2048;

// ---------------------------------------------------------------------------
// Paths
// ---------------------------------------------------------------------------

/// `<app_dir>/logs`, built by `Path::join`. Its result is a `PathBuf`, which has no view
/// and is no plain value, so no name can stand for it and the contract states nothing of
/// it.
pub fn log_dir(app_dir: &Path) -> PathBuf {
    crate::artifacts::join_path(app_dir, LOG_DIR_NAME)
}

/// `<app_dir>/logs/transcribe.log`, built by `Path::join` (nothing is stated of it, as for
/// [`log_dir`]).
pub fn log_file_path(app_dir: &Path) -> PathBuf {
    let dir = log_dir(app_dir);
    crate::artifacts::join_path(crate::artifacts::as_path(&dir), LOG_FILE_NAME)
}

// ---------------------------------------------------------------------------
// Sanitizing and redaction
// ---------------------------------------------------------------------------

/// Line breaks and tabs become spaces and other control characters are dropped, so a
/// value can never break a log line.
pub open spec fn sanitized(s: Seq<char>) -> Seq<char>
    decreases s.len(),
{
    if s.len() == 0 {
        Seq::empty()
    } else {
        let prev = sanitized(s.drop_last());
        let c = s.last();
        if c == '\n' || c == '\r' || c == '\t' {
            prev.push(' ')
        } else if char_is_control(c) {
            prev
        } else {
            prev.push(c)
        }
    }
}

/// At most `max` characters: a longer value keeps its first `max - 1` characters and
/// ends with `…` (the marker counts toward the limit, so a limit of zero leaves nothing).
pub open spec fn truncated(s: Seq<char>, max: nat) -> Seq<char> {
    if s.len() <= max {
        s
    } else if max == 0 {
        Seq::empty()
    } else {
        s.take(max - 1).push('…')
    }
}

/// No character of `s` is a control character.
pub open spec fn one_line(s: Seq<char>) -> bool {
    forall|i: int| 0 <= i < s.len() ==> !char_is_control(#[trigger] s[i])
}

/// Collapses line breaks/tabs to spaces and drops other control characters.
pub fn sanitize_field(value: &str) -> (r: String)
    ensures
        r@ == sanitized(value@),
{
    let v = to_chars(value);
    let mut out = String::new();
    let mut i: usize = 0;
    while i < v.len()
        invariant
            i <= v@.len(),
            v@ == value@,
            out@ == sanitized(v@.take(i as int)),
        decreases v@.len() - i,
    {
        let c = v[i];
        assert(v@.take(i + 1).drop_last() =~= v@.take(i as int));
        if c == '\n' || c == '\r' || c == '\t' {
            push_char(&mut out, ' ');
        } else if !is_control(c) {
            push_char(&mut out, c);
        }
        i += 1;
    }
    assert(v@.take(v@.len() as int) =~= v@);
    out
}

/// Truncates to `max_chars` characters, appending `…` when cut (the marker counts
/// toward the limit). Character-based, so multi-byte text is never split.
pub fn truncate_chars(value: &str, max_chars: usize) -> (r: String)
    ensures
        r@ == truncated(value@, max_chars as nat),
        r@.len() <= max_chars,
{
    let v = to_chars(value);
    if v.len() <= max_chars {
        return value.to_string();
    }
    if max_chars == 0 {
        return String::new();
    }
    let keep = max_chars - 1;
    let mut out = from_chars(crate::text::slice_chars(&v, 0, keep).as_slice());
    assert(v@.subrange(0, keep as int) =~= v@.take(keep as int));
    push_char(&mut out, '…');
    out
}

/// A title as logged: sanitized, at most [`TITLE_MAX_CHARS`] characters.
pub fn sanitize_title(value: &str) -> (r: String)
    ensures
        r@ == truncated(sanitized(value@), TITLE_MAX_CHARS as nat),
{
    truncate_chars(sanitize_field(value).as_str(), TITLE_MAX_CHARS)
}

/// An excerpt as logged: sanitized, at most `max_chars` characters.
pub fn sanitize_excerpt(value: &str, max_chars: usize) -> (r: String)
    ensures
        r@ == truncated(sanitized(value@), max_chars as nat),
{
    truncate_chars(sanitize_field(value).as_str(), max_chars)
}

proof fn lemma_sanitized_one_line(s: Seq<char>)
    ensures
        one_line(sanitized(s)),
        sanitized(s).len() <= s.len(),
    decreases s.len(),
{
    if s.len() > 0 {
        lemma_sanitized_one_line(s.drop_last());
        let prev = sanitized(s.drop_last());
        let cur = sanitized(s);
        assert forall|i: int| 0 <= i < cur.len() implies !char_is_control(#[trigger] cur[i]) by {
            if i < prev.len() {
                assert(cur[i] == prev[i]);
            }
        }
    }
}

/// A logged value never spans lines, and a truncated one never exceeds its limit.
pub proof fn law_logged_values_fit_one_line(s: Seq<char>, max: nat)
    ensures
        one_line(sanitized(s)),
        one_line(truncated(sanitized(s), max)),
        truncated(sanitized(s), max).len() <= max,
        sanitized(s).len() <= max ==> truncated(sanitized(s), max) == sanitized(s),
{
    lemma_sanitized_one_line(s);
    let t = truncated(sanitized(s), max);
    assert forall|i: int| 0 <= i < t.len() implies !char_is_control(#[trigger] t[i]) by {
        if sanitized(s).len() > max && i < max - 1 {
            assert(t[i] == sanitized(s)[i]);
        }
    }
}

/// Field names whose values never reach the file, in any letter case.
pub open spec fn sensitive_name(lower: Seq<char>) -> bool {
    lower == "apikey"@ || lower == "api_key"@ || lower == "authorization"@ || lower == "bearer"@
        || lower == "bearertoken"@ || lower == "bearer_token"@ || lower == "cookie"@ || lower
        == "cookies"@ || lower == "headers"@ || lower == "password"@ || lower == "secret"@
        || lower == "token"@ || lower == "videopassword"@ || lower == "video_password"@
}

/// Whether values of the field `name` must be redacted.
pub fn is_sensitive_field(name: &str) -> (r: bool)
    ensures
        r == sensitive_name(ascii_lower_seq(name@)),
{
    let lowered = from_chars(lowercase_ascii(&to_chars(name)).as_slice());
    let l = lowered.as_str();
    str_eq(l, "apikey") || str_eq(l, "api_key") || str_eq(l, "authorization") || str_eq(
        l,
        "bearer",
    ) || str_eq(l, "bearertoken") || str_eq(l, "bearer_token") || str_eq(l, "cookie") || str_eq(
        l,
        "cookies",
    ) || str_eq(l, "headers") || str_eq(l, "password") || str_eq(l, "secret") || str_eq(
        l,
        "token",
    ) || str_eq(l, "videopassword") || str_eq(l, "video_password")
}

/// The length cap of a field: titles, stderr tails and response excerpts have their own.
pub open spec fn limit_of(name: Seq<char>) -> nat {
    if name == "title"@ {
        TITLE_MAX_CHARS as nat
    } else if name == "tail"@ {
        STDERR_MAX_CHARS as nat
    } else if name == "reason"@ || name == "body"@ || name == "response"@ {
        RESPONSE_MAX_CHARS as nat
    } else {
        FIELD_MAX_CHARS as nat
    }
}

/// The length cap of a field (see [`limit_of`]).
pub fn field_limit(name: &str) -> (r: usize)
    ensures
        r == limit_of(name@),
{
    if str_eq(name, "title") {
        TITLE_MAX_CHARS
    } else if str_eq(name, "tail") {
        STDERR_MAX_CHARS
    } else if str_eq(name, "reason") || str_eq(name, "body") || str_eq(name, "response") {
        RESPONSE_MAX_CHARS
    } else {
        FIELD_MAX_CHARS
    }
}

/// What the file keeps of a field value: `[redacted]` for a sensitive name, otherwise
/// the sanitized value cut to the field's limit.
pub open spec fn recorded(name: Seq<char>, value: Seq<char>) -> Seq<char> {
    if sensitive_name(ascii_lower_seq(name)) {
        "[redacted]"@
    } else {
        truncated(sanitized(value), limit_of(name))
    }
}

/// The raw tool line written in verbose mode, sanitized and capped; nothing otherwise.
pub fn tool_output_line(verbose: bool, line: &str) -> (r: Option<String>)
    ensures
        !verbose ==> r is None,
        verbose ==> (r matches Some(l) && l@ == truncated(sanitized(line@), TOOL_LINE_MAX_CHARS as nat)),
{
    if !verbose {
        return None;
    }
    Some(sanitize_excerpt(line, TOOL_LINE_MAX_CHARS))
}

// ---------------------------------------------------------------------------
// One event, one line
// ---------------------------------------------------------------------------

/// The fields of one event, in the order the line shows them.
pub struct LogFields {
    pub event: Option<String>,
    pub message: Option<String>,
    pub run: Option<String>,
    pub group: Option<String>,
    pub stage: Option<String>,
    pub fields: Vec<(String, String)>,
}

pub open spec fn opt_one_line(o: Option<String>) -> bool {
    match o {
        Some(s) => one_line(s@),
        None => true,
    }
}

pub open spec fn opt_view(o: Option<String>) -> Option<Seq<char>> {
    match o {
        Some(s) => Some(s@),
        None => None,
    }
}

impl LogFields {
    pub fn new() -> (r: Self)
        ensures
            r.wf(),
            r.event is None && r.message is None && r.run is None && r.group is None && r.stage is None,
            r.fields@.len() == 0,
    {
        LogFields {
            event: None,
            message: None,
            run: None,
            group: None,
            stage: None,
            fields: Vec::new(),
        }
    }

    /// Every stored value fits on one line.
    pub open spec fn wf(&self) -> bool {
        &&& opt_one_line(self.event)
        &&& opt_one_line(self.message)
        &&& opt_one_line(self.run)
        &&& opt_one_line(self.group)
        &&& opt_one_line(self.stage)
        &&& forall|i: int| 0 <= i < self.fields@.len() ==> one_line((#[trigger] self.fields@[i]).1@)
    }

    /// The named slots other than `name` are the same in `after` as in `before`.
    pub open spec fn other_slots_kept(before: LogFields, after: LogFields, name: Seq<char>) -> bool {
        &&& name != "event"@ ==> after.event == before.event
        &&& name != "message"@ ==> after.message == before.message
        &&& name != "run"@ ==> after.run == before.run
        &&& name != "group"@ ==> after.group == before.group
        &&& name != "stage"@ ==> after.stage == before.stage
    }

    /// Records one field (see [`recorded`]); `event`, `message`, `run`, `group` and
    /// `stage` have their own slots, other names keep their order.
    pub fn push(&mut self, name: &str, value: String)
        requires
            old(self).wf(),
        ensures
            final(self).wf(),
            LogFields::other_slots_kept(*old(self), *final(self), name@),
            ({
                let v = recorded(name@, value@);
                if name@ == "event"@ {
                    opt_view(final(self).event) == Some(v) && final(self).fields@ == old(self).fields@
                } else if name@ == "message"@ {
                    opt_view(final(self).message) == Some(v) && final(self).fields@ == old(self).fields@
                } else if name@ == "run"@ {
                    opt_view(final(self).run) == Some(v) && final(self).fields@ == old(self).fields@
                } else if name@ == "group"@ {
                    opt_view(final(self).group) == Some(v) && final(self).fields@ == old(self).fields@
                } else if name@ == "stage"@ {
                    opt_view(final(self).stage) == Some(v) && final(self).fields@ == old(self).fields@
                } else {
                    &&& final(self).fields@.len() == old(self).fields@.len() + 1
                    &&& forall|i: int|
                        0 <= i < old(self).fields@.len() ==> #[trigger] final(self).fields@[i]
                            == old(self).fields@[i]
                    &&& final(self).fields@.last().0@ == name@
                    &&& final(self).fields@.last().1@ == v
                }
            }),
    {
        let stored = if is_sensitive_field(name) {
            String::from_str(REDACTED)
        } else {
            let clean = sanitize_field(value.as_str());
            truncate_chars(clean.as_str(), field_limit(name))
        };
        proof {
            reveal_strlit("[redacted]");
            reveal_strlit("event");
            reveal_strlit("message");
            reveal_strlit("run");
            reveal_strlit("group");
            reveal_strlit("stage");
            lemma_sanitized_one_line(value@);
            if !sensitive_name(ascii_lower_seq(name@)) {
                law_logged_values_fit_one_line(value@, limit_of(name@));
            }
            assert(one_line(stored@));
        }
        if str_eq(name, "event") {
            self.event = Some(stored);
        } else if str_eq(name, "message") {
            self.message = Some(stored);
        } else if str_eq(name, "run") {
            self.run = Some(stored);
        } else if str_eq(name, "group") {
            self.group = Some(stored);
        } else if str_eq(name, "stage") {
            self.stage = Some(stored);
        } else {
            self.fields.push((name.to_string(), stored));
        }
    }

    /// The part of the line after the level: the event code (or the message, or
    /// `fallback`), ` |`, then ` run=…`, ` group=…`, ` stage=…`, the other fields as
    /// ` key=value`, and ` msg=…` when an event code carries a non-empty message.
    pub fn render(&self, fallback: &str) -> (r: String)
        ensures
            r@ == rendered(*self, fallback@),
    {
        let mut out = String::new();
        match &self.event {
            Some(code) => push_str(&mut out, code.as_str()),
            None => match &self.message {
                Some(m) => push_str(&mut out, m.as_str()),
                None => push_str(&mut out, fallback),
            },
        }
        push_str(&mut out, " |");
        push_named(&mut out, "run", &self.run);
        push_named(&mut out, "group", &self.group);
        push_named(&mut out, "stage", &self.stage);
        let ghost before_fields = out@;
        let mut i: usize = 0;
        while i < self.fields.len()
            invariant
                i <= self.fields@.len(),
                out@ == before_fields + pairs_text(self.fields@.take(i as int)),
            decreases self.fields@.len() - i,
        {
            let (key, value) = &self.fields[i];
            push_str(&mut out, " ");
            push_str(&mut out, key.as_str());
            push_str(&mut out, "=");
            push_str(&mut out, value.as_str());
            assert(self.fields@.take(i + 1).drop_last() =~= self.fields@.take(i as int));
            assert(out@ =~= before_fields + pairs_text(self.fields@.take(i + 1)));
            i += 1;
        }
        assert(self.fields@.take(self.fields@.len() as int) =~= self.fields@);
        if self.event.is_some() {
            match &self.message {
                Some(m) => {
                    if m.as_str().unicode_len() > 0 {
                        push_str(&mut out, " msg=");
                        push_str(&mut out, m.as_str());
                    }
                },
                None => {},
            }
        }
        out
    }
}

pub open spec fn named_text(key: Seq<char>, value: Option<String>) -> Seq<char> {
    match value {
        Some(v) => " "@ + key + "="@ + v@,
        None => Seq::empty(),
    }
}

fn push_named(out: &mut String, key: &str, value: &Option<String>)
    ensures
        final(out)@ == old(out)@ + named_text(key@, *value),
{
    match value {
        Some(v) => {
            push_str(out, " ");
            push_str(out, key);
            push_str(out, "=");
            push_str(out, v.as_str());
            assert(final(out)@ =~= old(out)@ + named_text(key@, *value));
        },
        None => {
            assert(final(out)@ =~= old(out)@ + named_text(key@, *value));
        },
    }
}

/// ` key=value` for each pair, in order.
pub open spec fn pairs_text(fields: Seq<(String, String)>) -> Seq<char>
    decreases fields.len(),
{
    if fields.len() == 0 {
        Seq::empty()
    } else {
        pairs_text(fields.drop_last()) + " "@ + fields.last().0@ + "="@ + fields.last().1@
    }
}

pub open spec fn rendered(f: LogFields, fallback: Seq<char>) -> Seq<char> {
    let head = match f.event {
        Some(code) => code@,
        None => match f.message {
            Some(m) => m@,
            None => fallback,
        },
    };
    let tail = match (f.event, f.message) {
        (Some(_), Some(m)) => if m@.len() > 0 {
            " msg="@ + m@
        } else {
            Seq::empty()
        },
        _ => Seq::empty(),
    };
    head + " |"@ + named_text("run"@, f.run) + named_text("group"@, f.group) + named_text(
        "stage"@,
        f.stage,
    ) + pairs_text(f.fields@) + tail
}

proof fn lemma_one_line_concat(a: Seq<char>, b: Seq<char>)
    requires
        one_line(a),
        one_line(b),
    ensures
        one_line(a + b),
{
    assert forall|i: int| 0 <= i < (a + b).len() implies !char_is_control(#[trigger] (a + b)[i]) by {
        if i < a.len() {
            assert((a + b)[i] == a[i]);
        } else {
            assert((a + b)[i] == b[i - a.len()]);
        }
    }
}

proof fn lemma_literals_one_line()
    ensures
        one_line(" |"@),
        one_line(" "@),
        one_line("="@),
        one_line(" msg="@),
        one_line("run"@),
        one_line("group"@),
        one_line("stage"@),
{
    reveal_strlit(" |");
    reveal_strlit(" ");
    reveal_strlit("=");
    reveal_strlit(" msg=");
    reveal_strlit("run");
    reveal_strlit("group");
    reveal_strlit("stage");
}

proof fn lemma_named_one_line(key: Seq<char>, value: Option<String>)
    requires
        one_line(key),
        opt_one_line(value),
    ensures
        one_line(named_text(key, value)),
{
    lemma_literals_one_line();
    match value {
        Some(v) => {
            lemma_one_line_concat(" "@, key);
            lemma_one_line_concat(" "@ + key, "="@);
            lemma_one_line_concat(" "@ + key + "="@, v@);
        },
        None => {},
    }
}

proof fn lemma_pairs_one_line(fields: Seq<(String, String)>)
    requires
        forall|i: int| 0 <= i < fields.len() ==> one_line((#[trigger] fields[i]).1@),
        forall|i: int| 0 <= i < fields.len() ==> one_line((#[trigger] fields[i]).0@),
    ensures
        one_line(pairs_text(fields)),
    decreases fields.len(),
{
    if fields.len() > 0 {
        let prev = fields.drop_last();
        assert forall|i: int| 0 <= i < prev.len() implies one_line((#[trigger] prev[i]).1@) && one_line(prev[i].0@) by {
            assert(prev[i] == fields[i]);
        }
        lemma_pairs_one_line(prev);
        lemma_literals_one_line();
        let last = fields[fields.len() - 1];
        let p = pairs_text(prev);
        lemma_one_line_concat(p, " "@);
        lemma_one_line_concat(p + " "@, last.0@);
        lemma_one_line_concat(p + " "@ + last.0@, "="@);
        lemma_one_line_concat(p + " "@ + last.0@ + "="@, last.1@);
    }
}

/// One event is one line: when the stored values come from [`LogFields::push`], and the
/// field names and the fallback hold no control character, the rendered event holds no
/// control character (in particular no line break).
pub proof fn law_rendered_event_is_one_line(f: LogFields, fallback: Seq<char>)
    requires
        f.wf(),
        one_line(fallback),
        forall|i: int| 0 <= i < f.fields@.len() ==> one_line((#[trigger] f.fields@[i]).0@),
    ensures
        one_line(rendered(f, fallback)),
{
    lemma_literals_one_line();
    let head = match f.event {
        Some(code) => code@,
        None => match f.message {
            Some(m) => m@,
            None => fallback,
        },
    };
    let tail = match (f.event, f.message) {
        (Some(_), Some(m)) => if m@.len() > 0 {
            " msg="@ + m@
        } else {
            Seq::empty()
        },
        _ => Seq::empty(),
    };
    match (f.event, f.message) {
        (Some(_), Some(m)) => {
            if m@.len() > 0 {
                lemma_one_line_concat(" msg="@, m@);
            }
        },
        _ => {},
    }
    assert(one_line(tail));
    assert(one_line(head));
    lemma_named_one_line("run"@, f.run);
    lemma_named_one_line("group"@, f.group);
    lemma_named_one_line("stage"@, f.stage);
    lemma_pairs_one_line(f.fields@);
    let a = head + " |"@;
    lemma_one_line_concat(head, " |"@);
    lemma_one_line_concat(a, named_text("run"@, f.run));
    let b = a + named_text("run"@, f.run);
    lemma_one_line_concat(b, named_text("group"@, f.group));
    let c = b + named_text("group"@, f.group);
    lemma_one_line_concat(c, named_text("stage"@, f.stage));
    let d = c + named_text("stage"@, f.stage);
    lemma_one_line_concat(d, pairs_text(f.fields@));
    lemma_one_line_concat(d + pairs_text(f.fields@), tail);
}

// ---------------------------------------------------------------------------
// Rotation
// ---------------------------------------------------------------------------

/// A non-empty file rotates before a write that would take it past the cap.
pub open spec fn exceeds_budget(size: u64, incoming: u64, max_bytes: u64) -> bool {
    size > 0 && size + incoming > max_bytes
}

/// Whether the current file rotates before a write of `incoming` bytes.
pub fn needs_rotation(size: u64, incoming: u64, max_bytes: u64) -> (r: bool)
    ensures
        r == exceeds_budget(size, incoming, max_bytes),
{
    if size == 0 {
        false
    } else if size > max_bytes {
        true
    } else {
        incoming > max_bytes - size
    }
}

/// The number of files kept; at least one.
pub fn effective_max_files(max_files: usize) -> (r: usize)
    ensures
        r == if max_files < 1 {
            1
        } else {
            max_files
        },
{
    if max_files < 1 {
        1
    } else {
        max_files
    }
}

/// `<file_name>.<index>`.
pub fn rotated_name(file_name: &str, index: usize) -> (r: String)
    ensures
        r@ == file_name@ + "."@ + decimal(index as nat),
{
    let mut out = file_name.to_string();
    push_str(&mut out, ".");
    push_u64(&mut out, index as u64);
    out
}

/// The renames of one rotation, oldest first: `.k` → `.k+1` for `k` from `n` down to 1.
pub open spec fn shift_moves(n: nat) -> Seq<(nat, nat)>
    decreases n,
{
    if n == 0 {
        Seq::empty()
    } else {
        seq![(n, (n + 1) as nat)] + shift_moves((n - 1) as nat)
    }
}

/// The renames of one rotation keeping `max_files` files (index 0 is the current file):
/// every rotated file moves one step older, the oldest is overwritten, and the current
/// file becomes `.1`. With a single file there is nothing to rename (it is removed).
pub open spec fn rotation_plan(max_files: nat) -> Seq<(nat, nat)> {
    if max_files <= 1 {
        Seq::empty()
    } else {
        shift_moves((max_files - 2) as nat) + seq![(0nat, 1nat)]
    }
}

/// The renames of one rotation (see [`rotation_plan`]).
pub fn rotation_moves(max_files: usize) -> (r: Vec<(usize, usize)>)
    ensures
        r@.len() == rotation_plan(max_files as nat).len(),
        forall|i: int|
            0 <= i < r@.len() ==> (#[trigger] r@[i]).0 == rotation_plan(max_files as nat)[i].0
                && r@[i].1 == rotation_plan(max_files as nat)[i].1,
{
    let mut moves: Vec<(usize, usize)> = Vec::new();
    if max_files <= 1 {
        return moves;
    }
    let mut k: usize = max_files - 2;
    while k > 0
        invariant
            k <= max_files - 2,
            max_files >= 2,
            moves@.len() + shift_moves(k as nat).len() == shift_moves((max_files - 2) as nat).len(),
            forall|i: int|
                0 <= i < moves@.len() ==> (#[trigger] moves@[i]).0 == shift_moves(
                    (max_files - 2) as nat,
                )[i].0 && moves@[i].1 == shift_moves((max_files - 2) as nat)[i].1,
            shift_moves((max_files - 2) as nat) == shift_moves((max_files - 2) as nat).take(
                moves@.len() as int,
            ) + shift_moves(k as nat),
        decreases k,
    {
        let ghost full = shift_moves((max_files - 2) as nat);
        let ghost rest = shift_moves(k as nat);
        assert(rest == seq![(k as nat, (k + 1) as nat)] + shift_moves((k - 1) as nat));
        moves.push((k, k + 1));
        proof {
            let n = moves@.len() - 1;
            assert(full[n] == rest[0]);
            assert(full.take(moves@.len() as int) =~= full.take(n).push(rest[0]));
            assert(full =~= full.take(moves@.len() as int) + shift_moves((k - 1) as nat));
        }
        k -= 1;
    }
    moves.push((0, 1));
    proof {
        let full = shift_moves((max_files - 2) as nat);
        assert(moves@.len() - 1 == full.len());
    }
    moves
}

proof fn lemma_shift_moves(n: nat)
    ensures
        shift_moves(n).len() == n,
        forall|i: int|
            0 <= i < n ==> (#[trigger] shift_moves(n)[i]).0 == n - i && shift_moves(n)[i].1 == n
                - i + 1,
    decreases n,
{
    if n > 0 {
        lemma_shift_moves((n - 1) as nat);
        assert forall|i: int| 0 <= i < n implies (#[trigger] shift_moves(n)[i]).0 == n - i
            && shift_moves(n)[i].1 == n - i + 1 by {
            if i > 0 {
                assert(shift_moves(n)[i] == shift_moves((n - 1) as nat)[i - 1]);
            }
        }
    }
}

/// A rotation keeps at most `max_files` files: each rename moves a file exactly one step
/// older, no rename targets an index at or past `max_files`, and no two renames share a
/// target (so no kept file is lost to another).
pub proof fn law_rotation_keeps_the_budget(max_files: nat)
    ensures
        forall|i: int|
            0 <= i < rotation_plan(max_files).len() ==> (#[trigger] rotation_plan(max_files)[i]).1
                == rotation_plan(max_files)[i].0 + 1 && rotation_plan(max_files)[i].1 < max_files,
        forall|i: int, j: int|
            0 <= i < j < rotation_plan(max_files).len() ==> (#[trigger] rotation_plan(
                max_files,
            )[i]).1 != (#[trigger] rotation_plan(max_files)[j]).1,
{
    if max_files > 1 {
        let n = (max_files - 2) as nat;
        lemma_shift_moves(n);
        let p = rotation_plan(max_files);
        assert forall|i: int| 0 <= i < p.len() implies (#[trigger] p[i]).1 == p[i].0 + 1 && p[i].1
            < max_files by {
            if i < n {
                assert(p[i] == shift_moves(n)[i]);
            }
        }
        assert forall|i: int, j: int| 0 <= i < j < p.len() implies (#[trigger] p[i]).1 != (
        #[trigger] p[j]).1 by {
            if j < n {
                assert(p[i] == shift_moves(n)[i]);
                assert(p[j] == shift_moves(n)[j]);
            } else {
                assert(p[i] == shift_moves(n)[i]);
            }
        }
    }
}

} // verus!
