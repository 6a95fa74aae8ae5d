//! The read-only environment probe behind the transcribe UI: which executable names are
//! tried, and how the answers of the probed tools are read.
use crate::process::lossy_text;
use crate::text::{contains, from_chars, lines, push_str, split_lines, to_chars, trim, trim_chars, views};
use crate::tool_args::push_arg;
use vstd::prelude::*;

verus! {

/// What the probe reports.
#[derive(Debug, Clone)]
pub struct TranscriptionProbe {
    pub whisper_path: Option<String>,
    pub whisper_version: Option<String>,
    pub whisper_found: bool,
    pub cuda_available: bool,
    pub cuda_device: Option<String>,
    pub model: String,
    pub model_cached: bool,
    pub model_path: Option<String>,
    pub model_size_bytes: Option<u64>,
    pub ffmpeg_path: Option<String>,
    pub ffprobe_path: Option<String>,
    pub api_key_configured: bool,
    pub log_dir: String,
    pub log_file: String,
    pub log_size_bytes: u64,
}

/// The file names tried for an executable: on Windows the usual script shims first.
pub open spec fn executable_names_for(name: Seq<char>, windows: bool) -> Seq<Seq<char>> {
    if windows {
        seq![name + ".exe"@, name + ".cmd"@, name + ".bat"@, name]
    } else {
        seq![name]
    }
}

/// The file names tried for `name` on the given platform (see [`executable_names_for`]).
pub fn executable_names_on(name: &str, windows: bool) -> (r: Vec<String>)
    ensures
        views(r@) == executable_names_for(name@, windows),
{
    let mut names: Vec<String> = Vec::new();
    if windows {
        let mut exe = name.to_string();
        push_str(&mut exe, ".exe");
        let mut cmd = name.to_string();
        push_str(&mut cmd, ".cmd");
        let mut bat = name.to_string();
        push_str(&mut bat, ".bat");
        push_arg(&mut names, exe.as_str());
        push_arg(&mut names, cmd.as_str());
        push_arg(&mut names, bat.as_str());
    }
    push_arg(&mut names, name);
    assert(views(names@) =~= executable_names_for(name@, windows));
    names
}

/// Reads `std::path::MAIN_SEPARATOR`, the platform's path separator; nothing is stated of
/// its value, which depends on the build target.
#[verifier::external_body]
fn main_separator() -> char {
    std::path::MAIN_SEPARATOR
}

/// Whether this build targets Windows: the path separator is `\` exactly there.
fn target_is_windows() -> bool {
    main_separator() == '\\'
}

/// The file names tried for `name` on this platform.
pub fn executable_names(name: &str) -> (r: Vec<String>)
    ensures
        views(r@) == executable_names_for(name@, true) || views(r@) == executable_names_for(
            name@,
            false,
        ),
{
    executable_names_on(name, target_is_windows())
}

/// An explicitly configured executable: the trimmed setting, unless it is blank.
pub fn configured_program(configured: Option<&str>) -> (r: Option<String>)
    ensures
        match configured {
            Some(c) => if trim(c@).len() > 0 {
                r matches Some(p) && p@ == trim(c@)
            } else {
                r is None
            },
            None => r is None,
        },
{
    match configured {
        Some(c) => {
            let t = trim_chars(&to_chars(c));
            if t.len() > 0 {
                Some(from_chars(t.as_slice()))
            } else {
                None
            }
        },
        None => None,
    }
}

/// The full Unicode lower-casing of `s` (`str::to_lowercase`, a function of the text and
/// of the Unicode tables built into std).
pub uninterp spec fn unicode_lowercase(s: Seq<char>) -> Seq<char>;

/// Calls `str::to_lowercase`.
#[verifier::external_body]
fn to_lowercase(s: &str) -> (r: String)
    ensures
        r@ == unicode_lowercase(s@),
{
    s.to_lowercase()
}

/// Whether `whisper --help` printed a usage text (so the executable really runs).
pub fn help_shows_usage(help: &str) -> (r: bool)
    ensures
        r == contains(unicode_lowercase(help@), "usage"@),
{
    let lower = to_lowercase(help);
    crate::text::contains_chars(&to_chars(lower.as_str()), &to_chars("usage"))
}

/// The value of the first `Version:` line of `pip show`, trimmed.
pub open spec fn version_in(ls: Seq<Seq<char>>) -> Option<Seq<char>>
    decreases ls.len(),
{
    if ls.len() == 0 {
        None
    } else if ls[0].len() >= 8 && ls[0].take(8) == "Version:"@ {
        Some(trim(ls[0].skip(8)))
    } else {
        version_in(ls.drop_first())
    }
}

/// Reads the installed version from the output of `pip show openai-whisper`.
pub fn pip_version(output: &str) -> (r: Option<String>)
    ensures
        match (r, version_in(lines(output@))) {
            (Some(a), Some(b)) => a@ == b,
            (None, None) => true,
            _ => false,
        },
{
    let chars = to_chars(output);
    let ls = split_lines(&chars);
    let prefix = to_chars("Version:");
    proof {
        reveal_strlit("Version:");
    }
    let ghost all = lines(output@);
    assert(all.skip(0) =~= all);
    let mut i: usize = 0;
    while i < ls.len()
        invariant
            i <= ls@.len(),
            prefix@ == "Version:"@,
            prefix@.len() == 8,
            ls@.len() == all.len(),
            all == lines(output@),
            forall|j: int| 0 <= j < ls@.len() ==> #[trigger] ls@[j]@ == all[j],
            version_in(all) == version_in(all.skip(i as int)),
        decreases ls@.len() - i,
    {
        let line = &ls[i];
        assert(all.skip(i as int)[0] == line@);
        assert(all.skip(i as int).drop_first() =~= all.skip(i + 1));
        if line.len() >= 8 && crate::text::matches_at(line, &prefix, 0) {
            assert(line@.subrange(0, 8) =~= line@.take(8));
            let rest = crate::text::slice_chars(line, 8, line.len());
            assert(rest@ =~= line@.skip(8));
            let value = trim_chars(&rest);
            assert(line@.take(8) == "Version:"@);
            assert(version_in(all.skip(i as int)) == Some(trim(line@.skip(8))));
            return Some(from_chars(value.as_slice()));
        }
        proof {
            if line@.len() >= 8 && line@.take(8) == "Version:"@ {
                assert(line@.subrange(0, 8) =~= line@.take(8));
            }
        }
        i += 1;
    }
    None
}

/// The first line of a tool's answer, trimmed; `None` when it is blank.
pub open spec fn first_line_value(s: Seq<char>) -> Option<Seq<char>> {
    let first = if lines(s).len() > 0 {
        trim(lines(s)[0])
    } else {
        Seq::empty()
    };
    if first.len() > 0 {
        Some(first)
    } else {
        None
    }
}

/// The GPU name from `nvidia-smi --query-gpu=name --format=csv,noheader`.
pub fn first_line(output: &str) -> (r: Option<String>)
    ensures
        match (r, first_line_value(output@)) {
            (Some(a), Some(b)) => a@ == b,
            (None, None) => true,
            _ => false,
        },
{
    let chars = to_chars(output);
    let ls = split_lines(&chars);
    let first = if ls.len() > 0 {
        trim_chars(&ls[0])
    } else {
        Vec::new()
    };
    if first.len() > 0 {
        Some(from_chars(first.as_slice()))
    } else {
        None
    }
}

/// What a probe run answered: nothing when it failed, else its trimmed stdout, else its
/// trimmed stderr, else nothing.
pub open spec fn probe_answer(success: bool, stdout: Seq<char>, stderr: Seq<char>) -> Option<
    Seq<char>,
> {
    if !success {
        None
    } else if trim(stdout).len() > 0 {
        Some(trim(stdout))
    } else if trim(stderr).len() > 0 {
        Some(trim(stderr))
    } else {
        None
    }
}

/// Reads a probe run's output (see [`probe_answer`]); invalid UTF-8 is replaced as
/// `String::from_utf8_lossy` does.
pub fn probe_output(success: bool, stdout: &[u8], stderr: &[u8]) -> (r: Option<String>)
    ensures
        !success ==> r is None,
        success ==> exists|o: Seq<char>, e: Seq<char>|
            #![trigger probe_answer(true, o, e)]
            match (r, probe_answer(true, o, e)) {
                (Some(a), Some(b)) => a@ == b,
                (None, None) => true,
                _ => false,
            } && (vstd::utf8::valid_utf8(stdout@) ==> o == vstd::utf8::decode_utf8(stdout@)) && (
            vstd::utf8::valid_utf8(stderr@) ==> e == vstd::utf8::decode_utf8(stderr@)),
{
    if !success {
        return None;
    }
    let out = lossy_text(stdout);
    let err = lossy_text(stderr);
    let o = trim_chars(&to_chars(out.as_str()));
    let ghost ov = out@;
    let ghost ev = err@;
    if o.len() > 0 {
        let r = Some(from_chars(o.as_slice()));
        assert(match (r, probe_answer(true, ov, ev)) {
            (Some(a), Some(b)) => a@ == b,
            (None, None) => true,
            _ => false,
        });
        return r;
    }
    let e = trim_chars(&to_chars(err.as_str()));
    let r = if e.len() > 0 {
        Some(from_chars(e.as_slice()))
    } else {
        None
    };
    assert(match (r, probe_answer(true, ov, ev)) {
        (Some(a), Some(b)) => a@ == b,
        (None, None) => true,
        _ => false,
    });
    r
}

} // verus!
