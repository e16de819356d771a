//! Scoring of one candidate line against a query.
use vstd::prelude::*;
use vstd::string::{StrSliceExecFns, StringExecFns};
use crate::rank::{MatchResult, FilterResult, rank, is_ranking, num_matched};

verus! {

/// The scoring strategy of a run.
#[derive(Clone, Copy, Debug, PartialEq, Eq, Structural)]
pub enum Algo {
    /// The skim fuzzy matcher.
    Skim,
}

/// Which part of a line is presented to the scoring algorithm.
#[derive(Clone, Copy, Debug, PartialEq, Eq, Structural)]
pub enum MatchType {
    /// The whole line.
    Full,
    /// A grep line `path:line:column:text` is scored on its text alone.
    IgnoreFilePath,
}

/// A score adjustment added on top of the algorithm's score.
#[derive(Clone, Copy, Debug, PartialEq, Eq, Structural)]
pub enum Bonus {
    /// No adjustment.
    Neutral,
    /// One point for each matched character in the file name, the part of the
    /// line after its last `/`.
    FileName,
}

/// What the skim matcher gives for `choice` and `pattern`.
pub uninterp spec fn skim_indices_of(choice: Seq<char>, pattern: Seq<char>) -> Option<(i64, Seq<usize>)>;

/// The code of `c` with ASCII upper case letters lowered.
pub open spec fn ascii_lower(c: char) -> int {
    if 65 <= (c as u32) <= 90 {
        (c as u32) + 32
    } else {
        c as u32 as int
    }
}

/// `pattern` occurs in `choice` as a subsequence, letters compared without
/// ASCII case.
pub open spec fn is_subseq_ci(pattern: Seq<char>, choice: Seq<char>) -> bool
    decreases choice.len(),
{
    if pattern.len() == 0 {
        true
    } else if choice.len() == 0 {
        false
    } else if ascii_lower(pattern[0]) == ascii_lower(choice[0]) {
        is_subseq_ci(pattern.drop_first(), choice.drop_first())
    } else {
        is_subseq_ci(pattern, choice.drop_first())
    }
}

/// Relies on `fuzzy_matcher::skim::fuzzy_indices`: a match exactly when
/// `pattern` is a subsequence of `choice` without ASCII case (each row of
/// its graph holds the later matches of one pattern char); then the score
/// and, for each char of `pattern`, one increasing char position of `choice`
/// holding that char; an empty pattern gives score 0 and no positions.
#[verifier::external_body]
#[allow(deprecated)]
fn skim_indices(choice: &str, pattern: &str) -> (r: MatchResult)
    ensures
        r is None <==> skim_indices_of(choice@, pattern@) is None,
        r is Some ==> skim_indices_of(choice@, pattern@) == Some(((r->0).0, (r->0).1@)),
        r is Some <==> is_subseq_ci(pattern@, choice@),
        r is Some ==> (r->0).1@.len() == pattern@.len(),
        r is Some ==> forall|k: int|
            0 <= k < (r->0).1@.len() ==> #[trigger] (r->0).1@[k] < choice@.len()
                && ascii_lower(choice@[(r->0).1@[k] as int]) == ascii_lower(pattern@[k]),
        r is Some ==> forall|k: int, l: int|
            0 <= k < l < (r->0).1@.len() ==> #[trigger] (r->0).1@[k] < #[trigger] (r->0).1@[l],
        pattern@.len() == 0 ==> r is Some && (r->0).0 == 0 && (r->0).1@.len() == 0,
{
    fuzzy_matcher::skim::fuzzy_indices(choice, pattern)
}

/// Position just after `left` more colons, searching from `i`.
pub open spec fn skip_fields(s: Seq<char>, i: int, left: nat) -> Option<int>
    decreases s.len() - i, left,
{
    if left == 0 {
        Some(i)
    } else if i < 0 || i >= s.len() {
        None
    } else if s[i] == ':' {
        skip_fields(s, i + 1, (left - 1) as nat)
    } else {
        skip_fields(s, i + 1, left)
    }
}

/// Where the text of a grep line `path:line:column:text` starts: after its
/// third colon, or at 0 when it has fewer than three.
pub open spec fn grep_text_start(s: Seq<char>) -> int {
    match skip_fields(s, 0, 3) {
        Some(k) => k,
        None => 0,
    }
}

proof fn lemma_skip_fields_bounds(s: Seq<char>, i: int, left: nat)
    requires
        0 <= i <= s.len(),
    ensures
        skip_fields(s, i, left) matches Some(k) ==> i <= k <= s.len(),
    decreases s.len() - i, left,
{
    if left > 0 && i < s.len() {
        if s[i] == ':' {
            lemma_skip_fields_bounds(s, i + 1, (left - 1) as nat);
        } else {
            lemma_skip_fields_bounds(s, i + 1, left);
        }
    }
}

/// Where the text of the grep line `line` starts.
pub fn text_start(line: &str) -> (r: usize)
    ensures
        r == grep_text_start(line@),
        r <= line@.len(),
{
    let n = line.unicode_len();
    let mut i: usize = 0;
    let mut left: usize = 3;
    while left > 0 && i < n
        invariant
            n == line@.len(),
            i <= n,
            left <= 3,
            skip_fields(line@, 0, 3) == skip_fields(line@, i as int, left as nat),
        decreases n - i,
    {
        if line.get_char(i) == ':' {
            left = left - 1;
        }
        i = i + 1;
    }
    proof {
        lemma_skip_fields_bounds(line@, 0, 3);
    }
    if left == 0 {
        i
    } else {
        0
    }
}

/// Where the text that `match_type` scores starts in `s`.
pub open spec fn scored_start(s: Seq<char>, match_type: MatchType) -> int {
    match match_type {
        MatchType::Full => 0,
        MatchType::IgnoreFilePath => grep_text_start(s),
    }
}

/// Position just after the last `/` of `s`, or 0 without one.
pub open spec fn file_name_start(s: Seq<char>) -> int
    decreases s.len(),
{
    if s.len() == 0 {
        0
    } else if s.last() == '/' {
        s.len() as int
    } else {
        file_name_start(s.drop_last())
    }
}

/// How many of `idx` are at least `from`.
pub open spec fn count_from(idx: Seq<usize>, from: int) -> nat
    decreases idx.len(),
{
    if idx.len() == 0 {
        0
    } else {
        (if idx.last() >= from { 1nat } else { 0nat }) + count_from(idx.drop_last(), from)
    }
}

/// The adjustment that `bonus` gives to a match of `line` at `idx`.
pub open spec fn bonus_of(bonus: Bonus, line: Seq<char>, idx: Seq<usize>) -> nat {
    match bonus {
        Bonus::Neutral => 0,
        Bonus::FileName => count_from(idx, file_name_start(line)),
    }
}

/// Sum of the adjustments of `bonuses`.
pub open spec fn bonuses_of(bonuses: Seq<Bonus>, line: Seq<char>, idx: Seq<usize>) -> nat
    decreases bonuses.len(),
{
    if bonuses.len() == 0 {
        0
    } else {
        bonuses_of(bonuses.drop_last(), line, idx) + bonus_of(bonuses.last(), line, idx)
    }
}

/// `a + b`, held at `i64::MAX`.
pub open spec fn add_capped(a: i64, b: nat) -> i64 {
    if a + b > i64::MAX {
        i64::MAX
    } else {
        (a + b) as i64
    }
}

/// `idx` moved right by `by`.
pub open spec fn shifted(idx: Seq<usize>, by: int) -> Seq<usize> {
    Seq::new(idx.len(), |k: int| (idx[k] + by) as usize)
}

/// What scoring `line` against `query` gives: the algorithm's result on the
/// part that `match_type` selects, its positions taken back to `line`, and
/// the bonuses added to its score.
pub open spec fn match_of(
    query: Seq<char>,
    line: Seq<char>,
    match_type: MatchType,
    bonuses: Seq<Bonus>,
) -> Option<(i64, Seq<usize>)> {
    let start = scored_start(line, match_type);
    match skim_indices_of(line.subrange(start, line.len() as int), query) {
        None => None,
        Some((s, idx)) => {
            let full = shifted(idx, start);
            Some((add_capped(s, bonuses_of(bonuses, line, full)), full))
        },
    }
}

/// The result `m` of scoring, as a spec value.
pub open spec fn match_view(m: MatchResult) -> Option<(i64, Seq<usize>)> {
    match m {
        None => None,
        Some((s, idx)) => Some((s, idx@)),
    }
}

/// Position just after the last `/` of `line`.
fn last_slash_end(line: &str) -> (r: usize)
    ensures
        r == file_name_start(line@),
{
    let n = line.unicode_len();
    let mut i: usize = n;
    proof {
        assert(line@.subrange(0, n as int) =~= line@);
    }
    while i > 0 && line.get_char(i - 1) != '/'
        invariant
            n == line@.len(),
            i <= n,
            file_name_start(line@) == file_name_start(line@.subrange(0, i as int)),
        decreases i,
    {
        proof {
            assert(line@.subrange(0, i as int).drop_last() =~= line@.subrange(0, i - 1));
        }
        i = i - 1;
    }
    i
}

/// How many of `idx` are at least `from`.
fn count_at_least(idx: &Vec<usize>, from: usize) -> (r: usize)
    ensures
        r == count_from(idx@, from as int),
{
    let mut c: usize = 0;
    let mut k: usize = 0;
    while k < idx.len()
        invariant
            k <= idx.len(),
            c == count_from(idx@.subrange(0, k as int), from as int),
            c <= k,
        decreases idx.len() - k,
    {
        proof {
            assert(idx@.subrange(0, k + 1).drop_last() =~= idx@.subrange(0, k as int));
        }
        if idx[k] >= from {
            c = c + 1;
        }
        k = k + 1;
    }
    proof {
        assert(idx@.subrange(0, idx.len() as int) =~= idx@);
    }
    c
}

proof fn lemma_count_from_le(idx: Seq<usize>, from: int)
    ensures
        count_from(idx, from) <= idx.len(),
    decreases idx.len(),
{
    if idx.len() > 0 {
        lemma_count_from_le(idx.drop_last(), from);
    }
}

/// Scores `line` against `query`: the algorithm's result on the part of the
/// line that `match_type` selects, with positions relative to the whole line
/// and the bonuses added to the score (held at `i64::MAX`).
pub fn match_line(
    query: &str,
    line: &str,
    algo: Algo,
    match_type: MatchType,
    bonuses: &Vec<Bonus>,
) -> (r: MatchResult)
    ensures
        match_view(r) == match_of(query@, line@, match_type, bonuses@),
{
    let n = line.unicode_len();
    let start = match match_type {
        MatchType::Full => 0,
        MatchType::IgnoreFilePath => text_start(line),
    };
    let text = line.substring_char(start, n);
    let scored = match algo {
        Algo::Skim => skim_indices(text, query),
    };
    match scored {
        None => None,
        Some((s, idx)) => {
            let mut full: Vec<usize> = Vec::new();
            let mut k: usize = 0;
            while k < idx.len()
                invariant
                    k <= idx.len(),
                    full@.len() == k,
                    start + text@.len() == n,
                    forall|j: int| 0 <= j < idx@.len() ==> #[trigger] idx@[j] < text@.len(),
                    forall|j: int| 0 <= j < k ==> #[trigger] full@[j] == idx@[j] + start,
                decreases idx.len() - k,
            {
                full.push(idx[k] + start);
                k = k + 1;
            }
            assert(full@ =~= shifted(idx@, start as int));
            let name_start = last_slash_end(line);
            let mut score = s;
            let mut b: usize = 0;
            while b < bonuses.len()
                invariant
                    b <= bonuses.len(),
                    score == add_capped(s, bonuses_of(bonuses@.subrange(0, b as int), line@, full@)),
                    name_start == file_name_start(line@),
                decreases bonuses.len() - b,
            {
                let ghost prev = bonuses_of(bonuses@.subrange(0, b as int), line@, full@);
                proof {
                    assert(bonuses@.subrange(0, b + 1).drop_last() =~= bonuses@.subrange(0, b as int));
                }
                let add = match bonuses[b] {
                    Bonus::Neutral => 0,
                    Bonus::FileName => count_at_least(&full, name_start),
                };
                proof {
                    lemma_count_from_le(full@, name_start as int);
                }
                let sum: i128 = score as i128 + add as i128;
                if sum > i64::MAX as i128 {
                    score = i64::MAX;
                } else {
                    score = sum as i64;
                }
                b = b + 1;
            }
            proof {
                assert(bonuses@.subrange(0, bonuses.len() as int) =~= bonuses@);
            }
            Some((score, full))
        },
    }
}

} // verus!
