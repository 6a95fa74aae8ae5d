//! Errors and warnings of chunk planning and merging, and the stable segment ids.
use crate::text::{decimal, push_str, push_u64};
use vstd::prelude::*;

verus! {

/// Why a chunk plan could not be made.
#[derive(Debug, Clone, Copy, PartialEq, Eq, Structural)]
pub enum ChunkingError {
    /// Duration was zero, negative, non-finite or beyond thirty days.
    InvalidDuration,
}

impl ChunkingError {
    /// The error text.
    pub fn message(&self) -> (r: String)
        ensures
            r@ == "audio duration must be positive and under 30 days"@,
    {
        let mut out = String::new();
        push_str(&mut out, "audio duration must be positive and under 30 days");
        out
    }
}

/// Why chunk segments could not be merged.
#[derive(Debug, Clone, Copy, PartialEq, Eq, Structural)]
pub enum MergeError {
    /// `offset` was negative or non-finite.
    InvalidOffset { chunk_index: usize },
    /// `planned_end` was non-finite or before the chunk start.
    InvalidPlannedEnd { chunk_index: usize },
    /// Chunks must be given in plan order (non-decreasing offsets).
    UnsortedChunks { chunk_index: usize },
    /// A segment timestamp was non-finite, negative or reversed.
    InvalidSegment { chunk_index: usize, segment_index: usize },
}

pub open spec fn merge_message(e: MergeError) -> Seq<char> {
    match e {
        MergeError::InvalidOffset { chunk_index } => "chunk "@ + decimal(chunk_index as nat)
            + ": offset must be finite and >= 0"@,
        MergeError::InvalidPlannedEnd { chunk_index } => "chunk "@ + decimal(chunk_index as nat)
            + ": planned end must be >= start"@,
        MergeError::UnsortedChunks { chunk_index } => "chunk "@ + decimal(chunk_index as nat)
            + ": chunks must be in plan order"@,
        MergeError::InvalidSegment { chunk_index, segment_index } => "segment "@ + decimal(
            chunk_index as nat,
        ) + ":"@ + decimal(segment_index as nat) + ": bad timestamps"@,
    }
}

impl MergeError {
    /// The error text.
    pub fn message(&self) -> (r: String)
        ensures
            r@ == merge_message(*self),
    {
        let mut out = String::new();
        match self {
            MergeError::InvalidOffset { chunk_index } => {
                push_str(&mut out, "chunk ");
                push_u64(&mut out, *chunk_index as u64);
                push_str(&mut out, ": offset must be finite and >= 0");
            },
            MergeError::InvalidPlannedEnd { chunk_index } => {
                push_str(&mut out, "chunk ");
                push_u64(&mut out, *chunk_index as u64);
                push_str(&mut out, ": planned end must be >= start");
            },
            MergeError::UnsortedChunks { chunk_index } => {
                push_str(&mut out, "chunk ");
                push_u64(&mut out, *chunk_index as u64);
                push_str(&mut out, ": chunks must be in plan order");
            },
            MergeError::InvalidSegment { chunk_index, segment_index } => {
                push_str(&mut out, "segment ");
                push_u64(&mut out, *chunk_index as u64);
                push_str(&mut out, ":");
                push_u64(&mut out, *segment_index as u64);
                push_str(&mut out, ": bad timestamps");
            },
        }
        out
    }
}

/// A chunk boundary that looks like a cut word.
#[derive(Debug, Clone, Copy, PartialEq, Eq, Structural)]
pub struct BoundaryRisk {
    /// Index of the chunk that ends at this boundary.
    pub chunk_index: usize,
    /// The chunk's last segment stops close to the boundary.
    pub tail_too_close: bool,
    /// The next chunk's first segment starts at the very beginning.
    pub head_too_early: bool,
}

/// `<chunk_index>:<segment_index>`, the id of a merged segment.
pub fn segment_id(chunk_index: usize, segment_index: usize) -> (r: String)
    ensures
        r@ == decimal(chunk_index as nat) + ":"@ + decimal(segment_index as nat),
{
    let mut out = String::new();
    push_u64(&mut out, chunk_index as u64);
    push_str(&mut out, ":");
    push_u64(&mut out, segment_index as u64);
    out
}

proof fn lemma_decimal_shape(n: nat)
    ensures
        n < 10 ==> decimal(n).len() == 1,
        n >= 10 ==> decimal(n).len() >= 2,
        forall|i: int| 0 <= i < decimal(n).len() ==> '0' <= #[trigger] decimal(n)[i] <= '9',
    decreases n,
{
    if n >= 10 {
        lemma_decimal_shape(n / 10);
        let prev = decimal(n / 10);
        assert forall|i: int| 0 <= i < decimal(n).len() implies '0' <= #[trigger] decimal(n)[i]
            <= '9' by {
            if i < prev.len() {
                assert(decimal(n)[i] == prev[i]);
            }
        }
    }
}

proof fn lemma_digit_char_injective(x: nat, y: nat)
    requires
        x < 10,
        y < 10,
        crate::text::digit_char(x) == crate::text::digit_char(y),
    ensures
        x == y,
{
}

proof fn lemma_decimal_injective(a: nat, b: nat)
    requires
        decimal(a) == decimal(b),
    ensures
        a == b,
    decreases a,
{
    lemma_decimal_shape(a);
    lemma_decimal_shape(b);
    if a >= 10 && b >= 10 {
        assert(decimal(a).drop_last() =~= decimal(a / 10));
        assert(decimal(b).drop_last() =~= decimal(b / 10));
        lemma_decimal_injective(a / 10, b / 10);
        assert(decimal(a).last() == decimal(b).last());
        assert(decimal(a).last() == crate::text::digit_char(a % 10));
        assert(decimal(b).last() == crate::text::digit_char(b % 10));
        lemma_digit_char_injective(a % 10, b % 10);
        assert(a == 10 * (a / 10) + a % 10) by (nonlinear_arith);
        assert(b == 10 * (b / 10) + b % 10) by (nonlinear_arith);
    } else if a < 10 && b < 10 {
        assert(decimal(a)[0] == decimal(b)[0]);
        assert(decimal(a)[0] == crate::text::digit_char(a));
        assert(decimal(b)[0] == crate::text::digit_char(b));
        lemma_digit_char_injective(a, b);
    }
}

/// Segment ids are unique: two different `(chunk, segment)` positions never get the
/// same id.
pub proof fn law_segment_ids_are_unique(a: nat, b: nat, c: nat, d: nat)
    requires
        decimal(a) + ":"@ + decimal(b) == decimal(c) + ":"@ + decimal(d),
    ensures
        a == c,
        b == d,
{
    reveal_strlit(":");
    lemma_decimal_shape(a);
    lemma_decimal_shape(c);
    let x = decimal(a) + ":"@ + decimal(b);
    let y = decimal(c) + ":"@ + decimal(d);
    let la = decimal(a).len() as int;
    let lc = decimal(c).len() as int;
    assert(x[la] == ':');
    assert(y[lc] == ':');
    if la < lc {
        assert(y[la] == decimal(c)[la]);
    } else if lc < la {
        assert(x[lc] == decimal(a)[lc]);
    }
    assert(la == lc);
    assert(x.take(la) =~= decimal(a));
    assert(y.take(lc) =~= decimal(c));
    assert(x.skip(la + 1) =~= decimal(b));
    assert(y.skip(lc + 1) =~= decimal(d));
    lemma_decimal_injective(a, c);
    lemma_decimal_injective(b, d);
}

} // verus!
