//! Response contract and numeric-fidelity checks for block translation.
//!
//! A block that fails the contract is never persisted: the caller retries and, when the
//! retries are exhausted, fails the video with `translationContractViolation`. Numeric
//! fidelity is advisory only and never fails a block.
use crate::text::{
    char_is_whitespace, contains, contains_chars, decimal, dedup_into, first_from, from_chars, lemma_first_from, lemma_dedup_into,
    is_blank, is_digit, is_whitespace, matches_at, occurs_at, push_str, push_u64,
    push_unique, push_unique_string, to_chars, trim, views,
};
use vstd::prelude::*;

verus! {

/// One translated paragraph as returned by the model.
#[derive(Debug, Clone, PartialEq, Eq)]
pub struct TranslationItem {
    pub id: usize,
    pub zh: String,
}

#[derive(Debug, Clone, Copy, PartialEq, Eq, Structural)]
pub enum ValidationError {
    MissingId(usize),
    UnexpectedId(usize),
    OutOfOrder { expected: usize, found: usize },
    EmptyTranslation(usize),
    WrongItemCount { expected: usize, found: usize },
}

// ---------------------------------------------------------------------------
// Response contract
// ---------------------------------------------------------------------------

/// Some response item carries the id `id`.
pub open spec fn response_has(response: Seq<TranslationItem>, id: usize) -> bool {
    exists|k: int| 0 <= k < response.len() && response[k].id == id
}

pub open spec fn is_missing(expected: Seq<usize>, response: Seq<TranslationItem>) -> spec_fn(
    int,
) -> bool {
    |i: int| !response_has(response, expected[i])
}

pub open spec fn is_unexpected(expected: Seq<usize>, response: Seq<TranslationItem>) -> spec_fn(
    int,
) -> bool {
    |k: int| !expected.contains(response[k].id)
}

pub open spec fn is_bad(expected: Seq<usize>, response: Seq<TranslationItem>) -> spec_fn(
    int,
) -> bool {
    |i: int| response[i].id != expected[i] || trim(response[i].zh@).len() == 0
}

/// Position of the first expected id that no response item carries.
pub open spec fn first_missing(expected: Seq<usize>, response: Seq<TranslationItem>) -> int {
    first_from(expected.len() as int, 0, is_missing(expected, response))
}

/// Position of the first response item whose id was not requested.
pub open spec fn first_unexpected(expected: Seq<usize>, response: Seq<TranslationItem>) -> int {
    first_from(response.len() as int, 0, is_unexpected(expected, response))
}

/// Position of the first item whose id is out of place or whose text is blank.
pub open spec fn first_bad(expected: Seq<usize>, response: Seq<TranslationItem>) -> int {
    first_from(expected.len() as int, 0, is_bad(expected, response))
}

/// The verdict on one model response, checks in this order: every requested id
/// is present, no id is unexpected, the counts agree, and position by position the id
/// matches and the text is not blank.
pub open spec fn validation(expected: Seq<usize>, response: Seq<TranslationItem>) -> Result<
    (),
    ValidationError,
> {
    let m = first_missing(expected, response);
    let u = first_unexpected(expected, response);
    let b = first_bad(expected, response);
    if m < expected.len() {
        Err(ValidationError::MissingId(expected[m]))
    } else if u < response.len() {
        Err(ValidationError::UnexpectedId(response[u].id))
    } else if response.len() != expected.len() {
        Err(ValidationError::WrongItemCount { expected: expected.len() as usize, found: response.len() as usize })
    } else if b < expected.len() {
        if response[b].id != expected[b] {
            Err(ValidationError::OutOfOrder { expected: expected[b], found: response[b].id })
        } else {
            Err(ValidationError::EmptyTranslation(response[b].id))
        }
    } else {
        Ok(())
    }
}

fn has_id(response: &[TranslationItem], id: usize) -> (r: bool)
    ensures
        r == response_has(response@, id),
{
    let mut k: usize = 0;
    while k < response.len()
        invariant
            k <= response@.len(),
            forall|j: int| 0 <= j < k ==> response@[j].id != id,
        decreases response@.len() - k,
    {
        if response[k].id == id {
            return true;
        }
        k += 1;
    }
    false
}

fn contains_id(ids: &[usize], id: usize) -> (r: bool)
    ensures
        r == ids@.contains(id),
{
    let mut k: usize = 0;
    while k < ids.len()
        invariant
            k <= ids@.len(),
            forall|j: int| 0 <= j < k ==> ids@[j] != id,
        decreases ids@.len() - k,
    {
        if ids[k] == id {
            assert(ids@[k as int] == id);
            return true;
        }
        k += 1;
    }
    false
}

/// Validates one model response against the requested ids: the id set must match,
/// the order must match, and every `zh` must be non-empty.
pub fn validate_block_response(expected_ids: &[usize], response: &[TranslationItem]) -> (r: Result<
    (),
    ValidationError,
>)
    ensures
        r == validation(expected_ids@, response@),
{
    let ghost e = expected_ids@;
    let ghost resp = response@;
    let ghost pm = is_missing(e, resp);
    let mut i: usize = 0;
    while i < expected_ids.len()
        invariant
            i <= e.len(),
            e == expected_ids@,
            resp == response@,
            pm == is_missing(e, resp),
            first_from(e.len() as int, 0, pm) == first_from(e.len() as int, i as int, pm),
        decreases e.len() - i,
    {
        if !has_id(response, expected_ids[i]) {
            assert(pm(i as int));
            return Err(ValidationError::MissingId(expected_ids[i]));
        }
        assert(!pm(i as int));
        i += 1;
    }
    let ghost pu = is_unexpected(e, resp);
    let mut k: usize = 0;
    while k < response.len()
        invariant
            k <= resp.len(),
            e == expected_ids@,
            resp == response@,
            first_missing(e, resp) == e.len(),
            pu == is_unexpected(e, resp),
            first_from(resp.len() as int, 0, pu) == first_from(resp.len() as int, k as int, pu),
        decreases resp.len() - k,
    {
        if !contains_id(expected_ids, response[k].id) {
            assert(pu(k as int));
            return Err(ValidationError::UnexpectedId(response[k].id));
        }
        assert(!pu(k as int));
        k += 1;
    }
    if response.len() != expected_ids.len() {
        return Err(
            ValidationError::WrongItemCount { expected: expected_ids.len(), found: response.len() },
        );
    }
    let ghost pb = is_bad(e, resp);
    let mut j: usize = 0;
    while j < expected_ids.len()
        invariant
            j <= e.len(),
            e.len() == resp.len(),
            e == expected_ids@,
            resp == response@,
            first_missing(e, resp) == e.len(),
            first_unexpected(e, resp) == resp.len(),
            pb == is_bad(e, resp),
            first_from(e.len() as int, 0, pb) == first_from(e.len() as int, j as int, pb),
        decreases e.len() - j,
    {
        if response[j].id != expected_ids[j] {
            assert(pb(j as int));
            return Err(
                ValidationError::OutOfOrder { expected: expected_ids[j], found: response[j].id },
            );
        }
        if is_blank(response[j].zh.as_str()) {
            assert(pb(j as int));
            return Err(ValidationError::EmptyTranslation(response[j].id));
        }
        assert(!pb(j as int));
        j += 1;
    }
    Ok(())
}

/// A response passes exactly when it answers the request item for item: the same ids in
/// the same order, each with a non-blank translation.
pub proof fn law_valid_response_is_the_request(expected: Seq<usize>, response: Seq<TranslationItem>)
    ensures
        validation(expected, response) is Ok <==> (response.len() == expected.len() && forall|i: int|
            0 <= i < expected.len() ==> (#[trigger] response[i]).id == expected[i] && trim(
                response[i].zh@,
            ).len() > 0),
{
    let pm = is_missing(expected, response);
    let pu = is_unexpected(expected, response);
    let pb = is_bad(expected, response);
    lemma_first_from(expected.len() as int, 0, pm);
    lemma_first_from(response.len() as int, 0, pu);
    lemma_first_from(expected.len() as int, 0, pb);
    if response.len() == expected.len() && forall|i: int|
        0 <= i < expected.len() ==> (#[trigger] response[i]).id == expected[i] && trim(
            response[i].zh@,
        ).len() > 0 {
        let m = first_missing(expected, response);
        if m < expected.len() {
            assert(response[m].id == expected[m]);
            assert(response_has(response, expected[m]));
        }
        let u = first_unexpected(expected, response);
        if u < response.len() {
            assert(response[u].id == expected[u]);
            assert(expected.contains(response[u].id));
        }
        let b = first_bad(expected, response);
        if b < expected.len() {
            assert(!pb(b));
        }
    }
    if validation(expected, response) is Ok {
        assert forall|i: int| 0 <= i < expected.len() implies (#[trigger] response[i]).id
            == expected[i] && trim(response[i].zh@).len() > 0 by {
            assert(!pb(i));
        }
    }
}

impl ValidationError {
    /// The human-readable description of the error (what `Display` prints).
    pub fn message(&self) -> (r: String)
        ensures
            r@ == validation_message(*self),
    {
        let mut s = String::new();
        match *self {
            ValidationError::MissingId(id) => {
                push_str(&mut s, "missing translation for id ");
                push_u64(&mut s, id as u64);
            },
            ValidationError::UnexpectedId(id) => {
                push_str(&mut s, "unexpected translation id ");
                push_u64(&mut s, id as u64);
            },
            ValidationError::OutOfOrder { expected, found } => {
                push_str(&mut s, "expected id ");
                push_u64(&mut s, expected as u64);
                push_str(&mut s, " at this position, found ");
                push_u64(&mut s, found as u64);
            },
            ValidationError::EmptyTranslation(id) => {
                push_str(&mut s, "empty translation for id ");
                push_u64(&mut s, id as u64);
            },
            ValidationError::WrongItemCount { expected, found } => {
                push_str(&mut s, "expected ");
                push_u64(&mut s, expected as u64);
                push_str(&mut s, " translations, found ");
                push_u64(&mut s, found as u64);
            },
        }
        s
    }
}

/// The text of each validation error.
pub open spec fn validation_message(e: ValidationError) -> Seq<char> {
    match e {
        ValidationError::MissingId(id) => "missing translation for id "@ + decimal(id as nat),
        ValidationError::UnexpectedId(id) => "unexpected translation id "@ + decimal(id as nat),
        ValidationError::OutOfOrder { expected, found } => "expected id "@ + decimal(
            expected as nat,
        ) + " at this position, found "@ + decimal(found as nat),
        ValidationError::EmptyTranslation(id) => "empty translation for id "@ + decimal(id as nat),
        ValidationError::WrongItemCount { expected, found } => "expected "@ + decimal(
            expected as nat,
        ) + " translations, found "@ + decimal(found as nat),
    }
}


// ---------------------------------------------------------------------------
// Number extraction
// ---------------------------------------------------------------------------

pub open spec fn is_separator(c: char) -> bool {
    c == '.' || c == ','
}

pub open spec fn is_percent(c: char) -> bool {
    c == '%' || c == '％'
}

/// End of the digit run that starts at `i`: digits, plus `.`/`,` directly followed by a
/// digit.
pub open spec fn run_end(s: Seq<char>, i: int) -> int
    decreases s.len() - i,
{
    if 0 <= i < s.len() && is_digit(s[i]) {
        run_end(s, i + 1)
    } else if 0 <= i && i + 1 < s.len() && is_separator(s[i]) && is_digit(s[i + 1]) {
        run_end(s, i + 1)
    } else {
        i
    }
}

/// End of the number token starting at `i` (a trailing `%`/`％` is included).
pub open spec fn token_end(s: Seq<char>, i: int) -> int {
    let e = run_end(s, i);
    if 0 <= e < s.len() && is_percent(s[e]) {
        e + 1
    } else {
        e
    }
}

/// Replaces the full-width `％` by `%`.
pub open spec fn half_width_percent(s: Seq<char>) -> Seq<char> {
    s.map_values(|c: char| if c == '％' { '%' } else { c })
}

pub proof fn lemma_run_end(s: Seq<char>, i: int)
    requires
        0 <= i <= s.len(),
    ensures
        i <= run_end(s, i) <= s.len(),
        i < s.len() && is_digit(s[i]) ==> i < run_end(s, i),
    decreases s.len() - i,
{
    if i < s.len() && is_digit(s[i]) {
        lemma_run_end(s, i + 1);
    } else if i + 1 < s.len() && is_separator(s[i]) && is_digit(s[i + 1]) {
        lemma_run_end(s, i + 1);
    }
}

/// Every number token of `s` at or after `i`, in order, duplicates included.
pub open spec fn number_tokens_from(s: Seq<char>, i: int) -> Seq<Seq<char>>
    decreases s.len() - i,
{
    if i < 0 || i >= s.len() {
        Seq::empty()
    } else if !is_digit(s[i]) {
        number_tokens_from(s, i + 1)
    } else {
        proof {
            lemma_run_end(s, i);
        }
        seq![half_width_percent(s.subrange(i, token_end(s, i)))] + number_tokens_from(
            s,
            token_end(s, i),
        )
    }
}

/// The distinct number tokens of `s` in order of first appearance.
pub open spec fn numbers_of(s: Seq<char>) -> Seq<Seq<char>> {
    dedup_into(Seq::empty(), number_tokens_from(s, 0))
}

fn half_width(v: &Vec<char>, a: usize, b: usize) -> (r: Vec<char>)
    requires
        a <= b <= v@.len(),
    ensures
        r@ == half_width_percent(v@.subrange(a as int, b as int)),
{
    let mut r: Vec<char> = Vec::new();
    let mut i = a;
    while i < b
        invariant
            a <= i <= b,
            b <= v@.len(),
            r@ == half_width_percent(v@.subrange(a as int, i as int)),
        decreases b - i,
    {
        let c = v[i];
        r.push(if c == '％' { '%' } else { c });
        assert(half_width_percent(v@.subrange(a as int, i + 1)) =~= half_width_percent(
            v@.subrange(a as int, i as int),
        ).push(if c == '％' { '%' } else { c }));
        i += 1;
    }
    r
}

fn is_ascii_digit(c: char) -> (r: bool)
    ensures
        r == is_digit(c),
{
    '0' <= c && c <= '9'
}

/// Digit runs in `source`, keeping `.`/`,` separators between digits and a trailing `%`
/// (e.g. `2,024`, `3.5`, `90%`); duplicates are removed, order is preserved.
pub fn extract_numbers(source: &str) -> (r: Vec<String>)
    ensures
        views(r@) == numbers_of(source@),
{
    let chars = to_chars(source);
    let ghost s = chars@;
    let mut numbers: Vec<String> = Vec::new();
    let mut index: usize = 0;
    assert(views(numbers@) =~= Seq::<Seq<char>>::empty());
    while index < chars.len()
        invariant
            s == chars@,
            index <= s.len(),
            numbers_of(s) == dedup_into(views(numbers@), number_tokens_from(s, index as int)),
        decreases s.len() - index,
    {
        if !is_ascii_digit(chars[index]) {
            index += 1;
            continue;
        }
        let start = index;
        proof {
            lemma_run_end(s, start as int);
        }
        index += 1;
        while index < chars.len()
            invariant
                s == chars@,
                start <= index <= s.len(),
                run_end(s, start as int) == run_end(s, index as int),
                index > start,
            ensures
                run_end(s, start as int) == index as int,
                start < index <= s.len(),
            decreases s.len() - index,
        {
            if is_ascii_digit(chars[index]) {
                index += 1;
                continue;
            }
            let separator = (chars[index] == '.' || chars[index] == ',') && index + 1 < chars.len()
                && is_ascii_digit(chars[index + 1]);
            if separator {
                index += 1;
                continue;
            }
            break;
        }
        if index < chars.len() && (chars[index] == '%' || chars[index] == '％') {
            index += 1;
        }
        assert(index as int == token_end(s, start as int));
        let token_chars = half_width(&chars, start, index);
        let token = from_chars(token_chars.as_slice());
        proof {
            let tok = half_width_percent(s.subrange(start as int, index as int));
            let rest = number_tokens_from(s, index as int);
            assert(number_tokens_from(s, start as int) == seq![tok] + rest);
            assert((seq![tok] + rest)[0] == tok);
            assert((seq![tok] + rest).drop_first() =~= rest);
        }
        push_unique_string(&mut numbers, token);
    }
    numbers
}

// ---------------------------------------------------------------------------
// Numeric fidelity
// ---------------------------------------------------------------------------

/// What one character becomes when matching numbers: `％` → `%`, commas (ASCII and
/// full-width) and whitespace vanish, everything else stays.
pub open spec fn normalize_char(c: char) -> Seq<char> {
    if c == '％' {
        seq!['%']
    } else if c == '，' || c == ',' {
        Seq::empty()
    } else if char_is_whitespace(c) {
        Seq::empty()
    } else {
        seq![c]
    }
}

/// `text` with [`normalize_char`] applied to every character.
pub open spec fn normalize(s: Seq<char>) -> Seq<char>
    decreases s.len(),
{
    if s.len() == 0 {
        Seq::empty()
    } else {
        normalize(s.drop_last()) + normalize_char(s.last())
    }
}

/// Whether position `k` of `h` cannot continue a number (outside `h`, or neither a digit
/// nor `.`).
pub open spec fn number_boundary(h: Seq<char>, k: int) -> bool {
    !(0 <= k < h.len() && (is_digit(h[k]) || h[k] == '.'))
}

/// `n` occurs in `h` at `i` and is not part of a longer number.
pub open spec fn number_at(h: Seq<char>, n: Seq<char>, i: int) -> bool {
    occurs_at(h, n, i) && number_boundary(h, i - 1) && number_boundary(h, i + n.len())
}

/// `n` occurs in `h` with number boundaries on both sides.
pub open spec fn contains_number_spec(h: Seq<char>, n: Seq<char>) -> bool {
    exists|i: int| number_at(h, n, i)
}

pub open spec fn glossary_view(g: Seq<(String, String)>) -> Seq<(Seq<char>, Seq<char>)> {
    g.map_values(|e: (String, String)| (e.0@, e.1@))
}

/// Some glossary entry maps a source term containing `number` to a (non-empty) target
/// that the normalized translation `hay` uses.
pub open spec fn glossary_covers_spec(
    number: Seq<char>,
    glossary: Seq<(Seq<char>, Seq<char>)>,
    hay: Seq<char>,
) -> bool {
    exists|k: int|
        0 <= k < glossary.len() && normalize(#[trigger] glossary[k].1).len() > 0
            && contains_number_spec(normalize(glossary[k].0), number) && contains(
            hay,
            normalize(glossary[k].1),
        )
}

/// A number of the source that the translation does not carry.
pub open spec fn number_missing(
    number: Seq<char>,
    hay: Seq<char>,
    glossary: Seq<(Seq<char>, Seq<char>)>,
) -> bool {
    let needle = normalize(number);
    needle.len() > 0 && !contains_number_spec(hay, needle) && !glossary_covers_spec(
        needle,
        glossary,
        hay,
    )
}

/// Left fold collecting the missing numbers of `nums` into `acc`, without duplicates.
pub open spec fn collect_missing(
    acc: Seq<Seq<char>>,
    nums: Seq<Seq<char>>,
    hay: Seq<char>,
    glossary: Seq<(Seq<char>, Seq<char>)>,
) -> Seq<Seq<char>>
    decreases nums.len(),
{
    if nums.len() == 0 {
        acc
    } else {
        collect_missing(
            if number_missing(nums[0], hay, glossary) {
                push_unique(acc, nums[0])
            } else {
                acc
            },
            nums.drop_first(),
            hay,
            glossary,
        )
    }
}

/// The numbers of `source` that `translation` does not carry.
pub open spec fn fidelity_gaps(
    source: Seq<char>,
    translation: Seq<char>,
    glossary: Seq<(Seq<char>, Seq<char>)>,
) -> Seq<Seq<char>> {
    collect_missing(Seq::empty(), numbers_of(source), normalize(translation), glossary)
}

/// The numbers of a text come without repetition and are exactly its number tokens.
pub proof fn law_numbers_are_distinct(s: Seq<char>)
    ensures
        numbers_of(s).no_duplicates(),
        forall|x: Seq<char>| #[trigger]
            numbers_of(s).contains(x) <==> number_tokens_from(s, 0).contains(x),
{
    lemma_dedup_into(Seq::<Seq<char>>::empty(), number_tokens_from(s, 0));
}

proof fn lemma_tokens_start_with_digits(s: Seq<char>, i: int)
    requires
        0 <= i,
    ensures
        forall|k: int|
            0 <= k < number_tokens_from(s, i).len() ==> (#[trigger] number_tokens_from(s, i)[k]).len()
                > 0 && is_digit(number_tokens_from(s, i)[k][0]),
    decreases s.len() - i,
{
    if i < s.len() {
        if !is_digit(s[i]) {
            lemma_tokens_start_with_digits(s, i + 1);
            assert(number_tokens_from(s, i) == number_tokens_from(s, i + 1));
        } else {
            lemma_run_end(s, i);
            let e = token_end(s, i);
            assert(i < e <= s.len());
            let tok = half_width_percent(s.subrange(i, e));
            assert(tok.len() == e - i);
            assert(s.subrange(i, e)[0] == s[i]);
            lemma_tokens_start_with_digits(s, e);
            assert(tok[0] == s[i]);
            let rest = number_tokens_from(s, e);
            assert(number_tokens_from(s, i) == seq![tok] + rest);
            assert forall|k: int| 0 <= k < number_tokens_from(s, i).len() implies (
            #[trigger] number_tokens_from(s, i)[k]).len() > 0 && is_digit(
                number_tokens_from(s, i)[k][0],
            ) by {
                if k > 0 {
                    assert(number_tokens_from(s, i)[k] == rest[k - 1]);
                }
            }
        }
    }
}

/// Every number found in a text is non-empty and starts with an ASCII digit.
pub proof fn law_numbers_start_with_a_digit(s: Seq<char>)
    ensures
        forall|k: int|
            0 <= k < numbers_of(s).len() ==> (#[trigger] numbers_of(s)[k]).len() > 0 && is_digit(
                numbers_of(s)[k][0],
            ),
{
    lemma_tokens_start_with_digits(s, 0);
    law_numbers_are_distinct(s);
    assert forall|k: int| 0 <= k < numbers_of(s).len() implies (#[trigger] numbers_of(s)[k]).len()
        > 0 && is_digit(numbers_of(s)[k][0]) by {
        let x = numbers_of(s)[k];
        assert(numbers_of(s).contains(x));
        assert(number_tokens_from(s, 0).contains(x));
        let j = choose|j: int| 0 <= j < number_tokens_from(s, 0).len() && number_tokens_from(s, 0)[j] == x;
        assert(number_tokens_from(s, 0)[j].len() > 0);
    }
}

proof fn lemma_collect_missing(
    acc: Seq<Seq<char>>,
    nums: Seq<Seq<char>>,
    hay: Seq<char>,
    glossary: Seq<(Seq<char>, Seq<char>)>,
)
    ensures
        forall|x: Seq<char>| #[trigger]
            collect_missing(acc, nums, hay, glossary).contains(x) <==> (acc.contains(x) || (
            nums.contains(x) && number_missing(x, hay, glossary))),
    decreases nums.len(),
{
    if nums.len() > 0 {
        let a2 = if number_missing(nums[0], hay, glossary) {
            push_unique(acc, nums[0])
        } else {
            acc
        };
        lemma_collect_missing(a2, nums.drop_first(), hay, glossary);
        assert forall|x: Seq<char>| #[trigger] a2.contains(x) <==> (acc.contains(x) || (x
            == nums[0] && number_missing(x, hay, glossary))) by {
            if a2.contains(x) && !acc.contains(x) {
                let k = choose|k: int| 0 <= k < a2.len() && a2[k] == x;
                assert(k == acc.len());
            }
            if x == nums[0] && number_missing(x, hay, glossary) && !acc.contains(x) {
                assert(a2[acc.len() as int] == x);
            }
            if acc.contains(x) {
                let k = choose|k: int| 0 <= k < acc.len() && acc[k] == x;
                assert(a2[k] == x);
            }
        }
        assert forall|x: Seq<char>| #[trigger] nums.contains(x) <==> (x == nums[0]
            || nums.drop_first().contains(x)) by {
            if nums.contains(x) && x != nums[0] {
                let k = choose|k: int| 0 <= k < nums.len() && nums[k] == x;
                assert(nums.drop_first()[k - 1] == x);
            }
            if nums.drop_first().contains(x) {
                let k = choose|k: int| 0 <= k < nums.drop_first().len() && nums.drop_first()[k] == x;
                assert(nums[k + 1] == x);
            }
        }
        assert(collect_missing(acc, nums, hay, glossary) == collect_missing(
            a2,
            nums.drop_first(),
            hay,
            glossary,
        ));
        assert forall|x: Seq<char>| #[trigger]
            collect_missing(acc, nums, hay, glossary).contains(x) <==> (acc.contains(x) || (
            nums.contains(x) && number_missing(x, hay, glossary))) by {
            assert(a2.contains(x) <==> (acc.contains(x) || (x == nums[0] && number_missing(
                x,
                hay,
                glossary,
            ))));
            assert(nums.contains(x) <==> (x == nums[0] || nums.drop_first().contains(x)));
        }
    }
}

/// A fidelity warning names exactly the source's numbers that the translation does not
/// carry: nothing else is reported, and no missing number is left out.
pub proof fn law_fidelity_gaps_are_the_missing_numbers(
    source: Seq<char>,
    translation: Seq<char>,
    glossary: Seq<(Seq<char>, Seq<char>)>,
)
    ensures
        forall|x: Seq<char>| #[trigger]
            fidelity_gaps(source, translation, glossary).contains(x) <==> (numbers_of(
                source,
            ).contains(x) && number_missing(x, normalize(translation), glossary)),
{
    lemma_collect_missing(Seq::empty(), numbers_of(source), normalize(translation), glossary);
}

/// The numbers of `nums` that are missing, in the order of `nums`.
pub open spec fn keep_missing(
    nums: Seq<Seq<char>>,
    hay: Seq<char>,
    glossary: Seq<(Seq<char>, Seq<char>)>,
) -> Seq<Seq<char>>
    decreases nums.len(),
{
    if nums.len() == 0 {
        Seq::empty()
    } else {
        (if number_missing(nums[0], hay, glossary) {
            seq![nums[0]]
        } else {
            Seq::empty()
        }) + keep_missing(nums.drop_first(), hay, glossary)
    }
}

proof fn lemma_collect_in_order(
    acc: Seq<Seq<char>>,
    nums: Seq<Seq<char>>,
    hay: Seq<char>,
    glossary: Seq<(Seq<char>, Seq<char>)>,
)
    requires
        (acc + nums).no_duplicates(),
    ensures
        collect_missing(acc, nums, hay, glossary) == acc + keep_missing(nums, hay, glossary),
    decreases nums.len(),
{
    if nums.len() == 0 {
        assert(acc + keep_missing(nums, hay, glossary) =~= acc);
    } else {
        let all = acc + nums;
        let n0 = nums[0];
        let rest = nums.drop_first();
        assert(!acc.contains(n0)) by {
            if acc.contains(n0) {
                let k = choose|k: int| 0 <= k < acc.len() && acc[k] == n0;
                assert(all[k] == all[acc.len() as int]);
            }
        }
        if number_missing(n0, hay, glossary) {
            let a2 = acc.push(n0);
            assert(push_unique(acc, n0) == a2);
            assert(a2 + rest =~= all);
            lemma_collect_in_order(a2, rest, hay, glossary);
            assert(a2 + keep_missing(rest, hay, glossary) =~= acc + (seq![n0] + keep_missing(
                rest,
                hay,
                glossary,
            )));
        } else {
            let b = acc + rest;
            assert forall|i: int, j: int| 0 <= i < j < b.len() implies b[i] != b[j] by {
                let ii = if i < acc.len() { i } else { i + 1 };
                let jj = if j < acc.len() { j } else { j + 1 };
                assert(b[i] == all[ii]);
                assert(b[j] == all[jj]);
            }
            lemma_collect_in_order(acc, rest, hay, glossary);
            assert(Seq::<Seq<char>>::empty() + keep_missing(rest, hay, glossary) =~= keep_missing(
                rest,
                hay,
                glossary,
            ));
        }
    }
}

/// A fidelity warning lists the source's missing numbers in the order in which they
/// first occur in the source.
pub proof fn law_fidelity_gaps_keep_source_order(
    source: Seq<char>,
    translation: Seq<char>,
    glossary: Seq<(Seq<char>, Seq<char>)>,
)
    ensures
        fidelity_gaps(source, translation, glossary) == keep_missing(
            numbers_of(source),
            normalize(translation),
            glossary,
        ),
{
    law_numbers_are_distinct(source);
    assert(Seq::<Seq<char>>::empty() + numbers_of(source) =~= numbers_of(source));
    lemma_collect_in_order(Seq::empty(), numbers_of(source), normalize(translation), glossary);
    assert(Seq::<Seq<char>>::empty() + keep_missing(
        numbers_of(source),
        normalize(translation),
        glossary,
    ) =~= keep_missing(numbers_of(source), normalize(translation), glossary));
}

/// More glossary entries only remove warnings: a number missing under a larger glossary
/// is missing under every glossary it contains.
pub proof fn law_glossary_only_removes_gaps(
    source: Seq<char>,
    translation: Seq<char>,
    glossary: Seq<(Seq<char>, Seq<char>)>,
    larger: Seq<(Seq<char>, Seq<char>)>,
)
    requires
        forall|k: int| 0 <= k < glossary.len() ==> larger.contains(#[trigger] glossary[k]),
    ensures
        forall|x: Seq<char>| #[trigger]
            fidelity_gaps(source, translation, larger).contains(x) ==> fidelity_gaps(
                source,
                translation,
                glossary,
            ).contains(x),
{
    law_fidelity_gaps_are_the_missing_numbers(source, translation, larger);
    law_fidelity_gaps_are_the_missing_numbers(source, translation, glossary);
    let hay = normalize(translation);
    assert forall|x: Seq<char>| #[trigger]
        fidelity_gaps(source, translation, larger).contains(x) implies fidelity_gaps(
            source,
            translation,
            glossary,
        ).contains(x) by {
        let needle = normalize(x);
        if glossary_covers_spec(needle, glossary, hay) {
            let k = choose|k: int|
                0 <= k < glossary.len() && normalize(#[trigger] glossary[k].1).len() > 0
                    && contains_number_spec(normalize(glossary[k].0), needle) && contains(
                    hay,
                    normalize(glossary[k].1),
                );
            assert(larger.contains(glossary[k]));
            let j = choose|j: int| 0 <= j < larger.len() && larger[j] == glossary[k];
            assert(normalize(larger[j].1).len() > 0);
            assert(glossary_covers_spec(needle, larger, hay));
        }
    }
}

proof fn lemma_normalize_keeps_a_digit(x: Seq<char>, j: int)
    requires
        0 <= j < x.len(),
        is_digit(x[j]),
    ensures
        exists|k: int| 0 <= k < normalize(x).len() && is_digit(#[trigger] normalize(x)[k]),
    decreases x.len(),
{
    let d = x.drop_last();
    if j == x.len() - 1 {
        assert(normalize_char(x[j]) == seq![x[j]]);
        assert(normalize(x)[normalize(d).len() as int] == x[j]);
    } else {
        assert(d[j] == x[j]);
        lemma_normalize_keeps_a_digit(d, j);
        let k = choose|k: int| 0 <= k < normalize(d).len() && is_digit(#[trigger] normalize(d)[k]);
        assert(normalize(x)[k] == normalize(d)[k]);
    }
}

proof fn lemma_every_number_missing(nums: Seq<Seq<char>>, hay: Seq<char>)
    requires
        forall|k: int| 0 <= k < nums.len() ==> (#[trigger] nums[k]).len() > 0 && is_digit(nums[k][0]),
        forall|i: int| 0 <= i < hay.len() ==> !is_digit(#[trigger] hay[i]),
    ensures
        keep_missing(nums, hay, Seq::empty()) == nums,
    decreases nums.len(),
{
    if nums.len() > 0 {
        let x = nums[0];
        lemma_normalize_keeps_a_digit(x, 0);
        let needle = normalize(x);
        let k = choose|k: int| 0 <= k < needle.len() && is_digit(#[trigger] needle[k]);
        if contains_number_spec(hay, needle) {
            let i = choose|i: int| number_at(hay, needle, i);
            assert(hay.subrange(i, i + needle.len())[k] == needle[k]);
            assert(hay[i + k] == needle[k]);
        }
        assert(number_missing(x, hay, Seq::empty()));
        let rest = nums.drop_first();
        assert forall|m: int| 0 <= m < rest.len() implies (#[trigger] rest[m]).len() > 0 && is_digit(
            rest[m][0],
        ) by {
            assert(rest[m] == nums[m + 1]);
        }
        lemma_every_number_missing(rest, hay);
        assert(seq![x] + rest =~= nums);
    }
}

/// With no glossary and a translation that carries no digit at all, every number of the
/// source is reported missing, in source order.
pub proof fn law_fidelity_without_digits_lists_every_number(source: Seq<char>, translation: Seq<char>)
    requires
        forall|i: int| 0 <= i < normalize(translation).len() ==> !is_digit(
            #[trigger] normalize(translation)[i],
        ),
    ensures
        fidelity_gaps(source, translation, Seq::empty()) == numbers_of(source),
{
    law_fidelity_gaps_keep_source_order(source, translation, Seq::empty());
    law_numbers_start_with_a_digit(source);
    lemma_every_number_missing(numbers_of(source), normalize(translation));
}

/// `n` appears in `h` at `i` as a whole number: the characters match, and the character
/// before and the one after (where there is one) are neither ASCII digits nor `.`.
pub open spec fn whole_number_at(h: Seq<char>, n: Seq<char>, i: int) -> bool {
    &&& 0 <= i && i + n.len() <= h.len()
    &&& forall|k: int| 0 <= k < n.len() ==> h[i + k] == #[trigger] n[k]
    &&& i == 0 || !(('0' <= h[i - 1] && h[i - 1] <= '9') || h[i - 1] == '.')
    &&& i + n.len() == h.len() || !(('0' <= h[i + n.len()] && h[i + n.len()] <= '9') || h[i
        + n.len()] == '.')
}

/// Without a glossary, a number of the source is reported missing exactly when it does
/// not appear as a whole number in the normalized translation: an occurrence inside a
/// longer number (`5` in `50`, or `5` in `5.5`) does not count.
pub proof fn law_gaps_need_a_whole_number(source: Seq<char>, translation: Seq<char>, x: Seq<char>)
    ensures
        fidelity_gaps(source, translation, Seq::empty()).contains(x) <==> numbers_of(
            source,
        ).contains(x) && !(exists|i: int| whole_number_at(normalize(translation), normalize(x), i)),
{
    let h = normalize(translation);
    let n = normalize(x);
    law_fidelity_gaps_are_the_missing_numbers(source, translation, Seq::empty());
    law_numbers_start_with_a_digit(source);
    if numbers_of(source).contains(x) {
        let j = choose|j: int| 0 <= j < numbers_of(source).len() && numbers_of(source)[j] == x;
        assert(x.len() > 0 && is_digit(x[0]));
        lemma_normalize_keeps_a_digit(x, 0);
    }
    assert forall|i: int| number_at(h, n, i) <==> whole_number_at(h, n, i) by {
        if occurs_at(h, n, i) {
            assert forall|k: int| 0 <= k < n.len() implies h[i + k] == #[trigger] n[k] by {
                assert(h.subrange(i, i + n.len())[k] == n[k]);
            }
        }
        if whole_number_at(h, n, i) {
            assert(h.subrange(i, i + n.len()) =~= n);
        }
    }
    if exists|i: int| whole_number_at(h, n, i) {
        let i = choose|i: int| whole_number_at(h, n, i);
        assert(number_at(h, n, i));
    }
    if contains_number_spec(h, n) {
        let i = choose|i: int| number_at(h, n, i);
        assert(whole_number_at(h, n, i));
    }
}

fn normalize_for_matching(text: &str) -> (r: Vec<char>)
    ensures
        r@ == normalize(text@),
{
    let v = to_chars(text);
    let mut r: Vec<char> = Vec::new();
    let mut i: usize = 0;
    while i < v.len()
        invariant
            i <= v@.len(),
            r@ == normalize(v@.take(i as int)),
            v@ == text@,
        decreases v@.len() - i,
    {
        let c = v[i];
        let ghost before = r@;
        if c == '％' {
            r.push('%');
        } else if c == '，' || c == ',' {
        } else if is_whitespace(c) {
        } else {
            r.push(c);
        }
        assert(v@.take(i + 1).drop_last() =~= v@.take(i as int));
        assert(r@ =~= before + normalize_char(c));
        i += 1;
    }
    assert(v@.take(v@.len() as int) =~= v@);
    r
}

fn boundary_at(h: &Vec<char>, k: usize) -> (r: bool)
    ensures
        r == number_boundary(h@, k as int),
{
    !(k < h.len() && (is_ascii_digit(h[k]) || h[k] == '.'))
}

/// `needle` occurs in `haystack` with number boundaries on both sides.
fn contains_number(haystack: &Vec<char>, needle: &Vec<char>) -> (r: bool)
    requires
        needle@.len() > 0,
    ensures
        r == contains_number_spec(haystack@, needle@),
{
    let mut i: usize = 0;
    while i < haystack.len()
        invariant
            i <= haystack@.len(),
            needle@.len() > 0,
            forall|j: int| 0 <= j < i ==> !number_at(haystack@, needle@, j),
        decreases haystack@.len() - i,
    {
        if matches_at(haystack, needle, i) {
            let before = i == 0 || boundary_at(haystack, i - 1);
            let after = boundary_at(haystack, i + needle.len());
            if before && after {
                assert(number_at(haystack@, needle@, i as int));
                return true;
            }
        }
        i += 1;
    }
    assert forall|j: int| !number_at(haystack@, needle@, j) by {
        if 0 <= j < i {
        }
    }
    false
}

fn glossary_covers(number: &Vec<char>, glossary: &[(String, String)], haystack: &Vec<char>) -> (r:
    bool)
    requires
        number@.len() > 0,
    ensures
        r == glossary_covers_spec(number@, glossary_view(glossary@), haystack@),
{
    let ghost g = glossary_view(glossary@);
    let mut k: usize = 0;
    while k < glossary.len()
        invariant
            k <= glossary@.len(),
            number@.len() > 0,
            g == glossary_view(glossary@),
            forall|j: int|
                0 <= j < k ==> !(normalize(#[trigger] g[j].1).len() > 0
                    && contains_number_spec(normalize(g[j].0), number@) && contains(
                    haystack@,
                    normalize(g[j].1),
                )),
        decreases glossary@.len() - k,
    {
        let source = normalize_for_matching(glossary[k].0.as_str());
        let target = normalize_for_matching(glossary[k].1.as_str());
        assert(g[k as int] == (glossary@[k as int].0@, glossary@[k as int].1@));
        if target.len() > 0 && contains_number(&source, number) && contains_chars(
            haystack,
            &target,
        ) {
            assert(normalize(g[k as int].1).len() > 0 && contains_number_spec(
                normalize(g[k as int].0),
                number@,
            ) && contains(haystack@, normalize(g[k as int].1)));
            return true;
        }
        k += 1;
    }
    false
}

/// Returns the numbers of `source` that are missing from `translation`. A number
/// counts as present when it appears with number boundaries in the normalized translation,
/// or when the glossary maps a source term containing it to a target that the translation
/// used. The result is advisory: callers log a fidelity warning and continue.
pub fn check_numeric_fidelity(source: &str, translation: &str, glossary: &[(String, String)]) -> (r:
    Vec<String>)
    ensures
        views(r@) == fidelity_gaps(source@, translation@, glossary_view(glossary@)),
{
    let haystack = normalize_for_matching(translation);
    let numbers = extract_numbers(source);
    let ghost g = glossary_view(glossary@);
    let ghost nums = numbers_of(source@);
    let mut missing: Vec<String> = Vec::new();
    let mut i: usize = 0;
    assert(views(missing@) =~= Seq::<Seq<char>>::empty());
    assert(nums.skip(0) =~= nums);
    while i < numbers.len()
        invariant
            i <= numbers@.len(),
            views(numbers@) == nums,
            nums == numbers_of(source@),
            g == glossary_view(glossary@),
            haystack@ == normalize(translation@),
            collect_missing(Seq::empty(), nums, haystack@, g) == collect_missing(
                views(missing@),
                nums.skip(i as int),
                haystack@,
                g,
            ),
        decreases numbers@.len() - i,
    {
        let number = numbers[i].clone();
        let needle = normalize_for_matching(numbers[i].as_str());
        let ghost rest = nums.skip(i as int);
        assert(rest[0] == numbers@[i as int]@);
        assert(rest.drop_first() =~= nums.skip(i + 1));
        let absent = if needle.len() == 0 {
            false
        } else if contains_number(&haystack, &needle) {
            false
        } else if glossary_covers(&needle, glossary, &haystack) {
            false
        } else {
            true
        };
        assert(absent == number_missing(numbers@[i as int]@, haystack@, g));
        if absent {
            push_unique_string(&mut missing, number);
        }
        i += 1;
    }
    missing
}

} // verus!
