//! What a tool run reports while it streams: output lines, the exit code, reader errors
//! and cancellation, folded into one result; plus the stderr excerpt used in messages.
use crate::text::{join, join_strings, push_char, push_str, views};
use vstd::prelude::*;
use vstd::utf8::{decode_utf8, valid_utf8};

verus! {

/// How many stderr lines a run keeps.
pub const STDERR_TAIL_LINES: usize = 64;

/// Exit status of a finished child process.
#[derive(Debug, Clone, Copy)]
pub struct TerminatedPayload {
    pub code: Option<i32>,
}

/// One thing a running child process reported.
#[derive(Debug, Clone)]
pub enum ProcessEvent {
    Stdout(Vec<u8>),
    Stderr(Vec<u8>),
    Terminated(TerminatedPayload),
    Error(String),
}

/// What a finished (or cancelled) run produced.
#[derive(Debug)]
pub struct ProcessResult {
    pub code: Option<i32>,
    /// Every stdout line, each followed by a newline.
    pub stdout: String,
    /// The last [`STDERR_TAIL_LINES`] stderr lines.
    pub stderr_tail: Vec<String>,
    pub cancelled: bool,
    pub reader_error: Option<String>,
}

/// Calls `String::from_utf8_lossy`, which keeps valid UTF-8 as it is (invalid sequences
/// become U+FFFD; that replacement is not modelled).
#[verifier::external_body]
pub(crate) fn lossy_text(bytes: &[u8]) -> (r: String)
    ensures
        valid_utf8(bytes@) ==> r@ == decode_utf8(bytes@),
{
    String::from_utf8_lossy(bytes).into_owned()
}

/// The tail after appending `line`: at most [`STDERR_TAIL_LINES`] lines, oldest dropped.
pub open spec fn next_tail(tail: Seq<String>, line: String) -> Seq<String> {
    if tail.len() >= STDERR_TAIL_LINES {
        tail.drop_first().push(line)
    } else {
        tail.push(line)
    }
}

impl ProcessResult {
    /// A run that has produced nothing yet.
    pub fn empty() -> (r: Self)
        ensures
            r.code is None,
            r.stdout@.len() == 0,
            r.stderr_tail@.len() == 0,
            !r.cancelled,
            r.reader_error is None,
    {
        ProcessResult {
            code: None,
            stdout: String::new(),
            stderr_tail: Vec::new(),
            cancelled: false,
            reader_error: None,
        }
    }

    /// A run cancelled before it started.
    pub fn cancelled_before_start() -> (r: Self)
        ensures
            r.code is None,
            r.stdout@.len() == 0,
            r.stderr_tail@.len() == 0,
            r.cancelled,
            r.reader_error is None,
    {
        let mut r = ProcessResult::empty();
        r.cancelled = true;
        r
    }

    /// Folds one event into the result and returns the decoded line of an output event
    /// (for the caller's line callback): stdout lines are collected in full, stderr keeps
    /// a bounded tail, the exit code and a reader error are recorded.
    pub fn apply(&mut self, event: ProcessEvent) -> (line: Option<String>)
        requires
            old(self).stderr_tail@.len() <= STDERR_TAIL_LINES,
        ensures
            final(self).cancelled == old(self).cancelled,
            final(self).stderr_tail@.len() <= STDERR_TAIL_LINES,
            match event {
                ProcessEvent::Stdout(bytes) => {
                    &&& line matches Some(l)
                    &&& (valid_utf8(bytes@) ==> l@ == decode_utf8(bytes@))
                    &&& final(self).stdout@ == old(self).stdout@ + line.unwrap()@ + seq!['\n']
                    &&& final(self).stderr_tail@ == old(self).stderr_tail@
                    &&& final(self).code == old(self).code
                    &&& final(self).reader_error == old(self).reader_error
                },
                ProcessEvent::Stderr(bytes) => {
                    &&& line matches Some(l)
                    &&& (valid_utf8(bytes@) ==> l@ == decode_utf8(bytes@))
                    &&& final(self).stderr_tail@ == next_tail(old(self).stderr_tail@, line.unwrap())
                    &&& final(self).stdout@ == old(self).stdout@
                    &&& final(self).code == old(self).code
                    &&& final(self).reader_error == old(self).reader_error
                },
                ProcessEvent::Terminated(payload) => {
                    &&& line is None
                    &&& final(self).code == payload.code
                    &&& final(self).stdout@ == old(self).stdout@
                    &&& final(self).stderr_tail@ == old(self).stderr_tail@
                    &&& final(self).reader_error == old(self).reader_error
                },
                ProcessEvent::Error(message) => {
                    &&& line is None
                    &&& final(self).reader_error == Some(message)
                    &&& final(self).code == old(self).code
                    &&& final(self).stdout@ == old(self).stdout@
                    &&& final(self).stderr_tail@ == old(self).stderr_tail@
                },
            },
    {
        match event {
            ProcessEvent::Stdout(bytes) => {
                let text = lossy_text(bytes.as_slice());
                push_str(&mut self.stdout, text.as_str());
                push_char(&mut self.stdout, '\n');
                Some(text)
            },
            ProcessEvent::Stderr(bytes) => {
                let text = lossy_text(bytes.as_slice());
                if self.stderr_tail.len() >= STDERR_TAIL_LINES {
                    self.stderr_tail.remove(0);
                }
                self.stderr_tail.push(text.clone());
                Some(text)
            },
            ProcessEvent::Terminated(payload) => {
                self.code = payload.code;
                None
            },
            ProcessEvent::Error(message) => {
                self.reader_error = Some(message);
                None
            },
        }
    }
}

/// The last `count` lines, joined with ` | `.
pub open spec fn excerpt(lines: Seq<String>, count: nat) -> Seq<char> {
    let start = if lines.len() > count {
        lines.len() - count
    } else {
        0
    };
    join(views(lines.subrange(start, lines.len() as int)), " | "@)
}

/// Joins the last `count` lines of a captured stderr into a single message-safe excerpt.
pub fn tail_excerpt(lines: &[String], count: usize) -> (r: String)
    ensures
        r@ == excerpt(lines@, count as nat),
{
    let start = if lines.len() > count {
        lines.len() - count
    } else {
        0
    };
    let mut kept: Vec<String> = Vec::new();
    let mut i = start;
    while i < lines.len()
        invariant
            start <= i <= lines@.len(),
            kept@ == lines@.subrange(start as int, i as int),
        decreases lines@.len() - i,
    {
        kept.push(lines[i].clone());
        assert(kept@ =~= lines@.subrange(start as int, i + 1));
        i += 1;
    }
    join_strings(&kept, " | ")
}

/// The lines already ended within `bytes`: a line ends at `\n` or `\r`, and empty lines
/// are dropped (so `\r\n` ends one line).
pub open spec fn completed_lines(bytes: Seq<u8>) -> Seq<Seq<u8>>
    decreases bytes.len(),
{
    if bytes.len() == 0 {
        Seq::empty()
    } else {
        let prev = completed_lines(bytes.drop_last());
        let pending = pending_line(bytes.drop_last());
        let b = bytes.last();
        if (b == 10 || b == 13) && pending.len() > 0 {
            prev.push(pending)
        } else {
            prev
        }
    }
}

/// The bytes after the last line end of `bytes`.
pub open spec fn pending_line(bytes: Seq<u8>) -> Seq<u8>
    decreases bytes.len(),
{
    if bytes.len() == 0 {
        Seq::empty()
    } else {
        let b = bytes.last();
        if b == 10 || b == 13 {
            Seq::empty()
        } else {
            pending_line(bytes.drop_last()).push(b)
        }
    }
}

/// All lines of a finished stream: the ended ones and a non-empty unterminated rest.
pub open spec fn stream_lines(bytes: Seq<u8>) -> Seq<Seq<u8>> {
    if pending_line(bytes).len() > 0 {
        completed_lines(bytes).push(pending_line(bytes))
    } else {
        completed_lines(bytes)
    }
}

/// Cuts a byte stream into output lines one byte at a time, as the pipe readers do.
pub struct LineBuffer {
    buf: Vec<u8>,
    seen: Ghost<Seq<u8>>,
}

impl LineBuffer {
    /// The bytes fed so far.
    pub closed spec fn fed(&self) -> Seq<u8> {
        self.seen@
    }

    pub closed spec fn wf(&self) -> bool {
        self.buf@ == pending_line(self.seen@)
    }

    pub fn new() -> (r: Self)
        ensures
            r.wf(),
            r.fed() == Seq::<u8>::empty(),
    {
        LineBuffer { buf: Vec::new(), seen: Ghost(Seq::empty()) }
    }

    /// Feeds one byte; returns the line it ends, if any.
    pub fn push_byte(&mut self, b: u8) -> (r: Option<Vec<u8>>)
        requires
            old(self).wf(),
        ensures
            final(self).wf(),
            final(self).fed() == old(self).fed().push(b),
            completed_lines(final(self).fed()) == completed_lines(old(self).fed()) + match r {
                Some(line) => seq![line@],
                None => Seq::empty(),
            },
    {
        let ghost before = self.seen@;
        let ghost after = before.push(b);
        assert(after.drop_last() =~= before);
        self.seen = Ghost(after);
        if b == 10 || b == 13 {
            if self.buf.len() > 0 {
                let mut line: Vec<u8> = Vec::new();
                std::mem::swap(&mut line, &mut self.buf);
                assert(completed_lines(after) =~= completed_lines(before) + seq![line@]);
                Some(line)
            } else {
                assert(completed_lines(after) =~= completed_lines(before) + Seq::empty());
                None
            }
        } else {
            self.buf.push(b);
            assert(completed_lines(after) =~= completed_lines(before) + Seq::empty());
            None
        }
    }

    /// Ends the stream; returns the unterminated rest when it is not empty.
    pub fn finish(&mut self) -> (r: Option<Vec<u8>>)
        requires
            old(self).wf(),
        ensures
            stream_lines(old(self).fed()) == completed_lines(old(self).fed()) + match r {
                Some(line) => seq![line@],
                None => Seq::empty(),
            },
    {
        if self.buf.len() > 0 {
            let mut line: Vec<u8> = Vec::new();
            std::mem::swap(&mut line, &mut self.buf);
            Some(line)
        } else {
            assert(stream_lines(self.seen@) =~= completed_lines(self.seen@) + Seq::empty());
            None
        }
    }
}

} // verus!
