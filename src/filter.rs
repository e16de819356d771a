//! The batch filter: score every line, rank the matches, keep the top ones.
use vstd::prelude::*;
use crate::matcher::{Algo, Bonus, MatchType, match_line, match_of, match_view};
use crate::rank::{FilterResult, MatchResult, is_ranking, num_matched, rank};

verus! {

/// Number of `lines` that match `query`.
pub open spec fn matched_count(
    query: Seq<char>,
    lines: Seq<String>,
    match_type: MatchType,
    bonuses: Seq<Bonus>,
) -> nat
    decreases lines.len(),
{
    if lines.len() == 0 {
        0
    } else {
        (if match_of(query, lines[0]@, match_type, bonuses) is Some {
            1nat
        } else {
            0nat
        }) + matched_count(query, lines.drop_first(), match_type, bonuses)
    }
}

/// `scored` holds, for each of `lines`, what matching it against `query` gives.
pub open spec fn scores_lines(
    scored: Seq<MatchResult>,
    query: Seq<char>,
    lines: Seq<String>,
    match_type: MatchType,
    bonuses: Seq<Bonus>,
) -> bool {
    &&& scored.len() == lines.len()
    &&& forall|i: int|
        0 <= i < lines.len() ==> match_view(#[trigger] scored[i]) == match_of(
            query,
            lines[i]@,
            match_type,
            bonuses,
        )
}

/// `out` is the stable best-first ranking of the `lines` that match `query`.
pub open spec fn ranks_lines(
    out: Seq<FilterResult>,
    query: Seq<char>,
    lines: Seq<String>,
    match_type: MatchType,
    bonuses: Seq<Bonus>,
) -> bool {
    exists|scored: Seq<MatchResult>|
        scores_lines(scored, query, lines, match_type, bonuses) && is_ranking(out, lines, scored)
}

proof fn lemma_num_matched_is_count(
    scored: Seq<MatchResult>,
    query: Seq<char>,
    lines: Seq<String>,
    match_type: MatchType,
    bonuses: Seq<Bonus>,
)
    requires
        scores_lines(scored, query, lines, match_type, bonuses),
    ensures
        num_matched(scored) == matched_count(query, lines, match_type, bonuses),
    decreases lines.len(),
{
    if lines.len() > 0 {
        assert(match_view(scored[0]) == match_of(query, lines[0]@, match_type, bonuses));
        let s1 = scored.drop_first();
        let l1 = lines.drop_first();
        assert forall|i: int| 0 <= i < l1.len() implies match_view(#[trigger] s1[i]) == match_of(
            query,
            l1[i]@,
            match_type,
            bonuses,
        ) by {
            assert(match_view(scored[i + 1]) == match_of(query, lines[i + 1]@, match_type, bonuses));
        }
        lemma_num_matched_is_count(s1, query, l1, match_type, bonuses);
    }
}

/// Scores each of `lines` against `query` and ranks the matches best first,
/// equal scores in the order of `lines`.
pub fn filter_lines(
    query: &str,
    lines: Vec<String>,
    algo: Algo,
    match_type: MatchType,
    bonuses: &Vec<Bonus>,
) -> (r: Vec<FilterResult>)
    ensures
        ranks_lines(r@, query@, lines@, match_type, bonuses@),
        r.len() == matched_count(query@, lines@, match_type, bonuses@),
{
    let mut scored: Vec<MatchResult> = Vec::new();
    let mut i: usize = 0;
    while i < lines.len()
        invariant
            i <= lines.len(),
            scored.len() == i,
            forall|j: int|
                0 <= j < i ==> match_view(#[trigger] scored@[j]) == match_of(
                    query@,
                    lines@[j]@,
                    match_type,
                    bonuses@,
                ),
        decreases lines.len() - i,
    {
        let m = match_line(query, lines[i].as_str(), algo, match_type, bonuses);
        scored.push(m);
        i = i + 1;
    }
    let ghost sc = scored@;
    let ghost ls = lines@;
    proof {
        lemma_num_matched_is_count(sc, query@, ls, match_type, bonuses@);
    }
    let r = rank(lines, scored);
    assert(scores_lines(sc, query@, ls, match_type, bonuses@) && is_ranking(r@, ls, sc));
    r
}

/// Ranks `lines` by how well they match `query`, each line scored whole and
/// with no bonus.
pub fn sync_run(query: &str, lines: Vec<String>, algo: Algo) -> (r: Vec<FilterResult>)
    ensures
        ranks_lines(r@, query@, lines@, MatchType::Full, seq![Bonus::Neutral]),
        r.len() == matched_count(query@, lines@, MatchType::Full, seq![Bonus::Neutral]),
{
    let bonuses = vec![Bonus::Neutral];
    assert(bonuses@ =~= seq![Bonus::Neutral]);
    filter_lines(query, lines, algo, MatchType::Full, &bonuses)
}

/// What a filter run hands back: the number of matches, and the lines and
/// matched positions of the best of them.
pub struct FilterOutput {
    pub total: usize,
    pub lines: Vec<String>,
    pub indices: Vec<Vec<usize>>,
}

/// How many of `total` results a cap of `number` keeps.
pub open spec fn kept(total: int, number: Option<usize>) -> int {
    match number {
        Some(n) => if n < total { n as int } else { total },
        None => total,
    }
}

/// The first `number` of `ranked` (all of them without a cap), with `total`
/// the number of results before the cap.
pub fn take_top(ranked: Vec<FilterResult>, number: Option<usize>) -> (r: FilterOutput)
    ensures
        r.total == ranked.len(),
        r.lines.len() == kept(ranked.len() as int, number),
        r.indices.len() == r.lines.len(),
        forall|k: int| 0 <= k < r.lines.len() ==> #[trigger] r.lines@[k] == ranked@[k].0,
        forall|k: int| 0 <= k < r.indices.len() ==> #[trigger] r.indices@[k] == ranked@[k].2,
{
    let total = ranked.len();
    let ghost orig = ranked@;
    let mut rest = ranked;
    match number {
        Some(n) => rest.truncate(n),
        None => {},
    }
    let ghost top = rest@;
    assert(top.len() == kept(orig.len() as int, number));
    assert(forall|k: int| 0 <= k < top.len() ==> #[trigger] top[k] == orig[k]);
    let mut rev: Vec<FilterResult> = Vec::new();
    while rest.len() > 0
        invariant
            rest.len() + rev.len() == top.len(),
            rest@ == top.subrange(0, rest.len() as int),
            forall|k: int| 0 <= k < rev.len() ==> #[trigger] rev@[k] == top[top.len() - 1 - k],
        decreases rest.len(),
    {
        let e = rest.pop().unwrap();
        rev.push(e);
    }
    let mut lines: Vec<String> = Vec::new();
    let mut indices: Vec<Vec<usize>> = Vec::new();
    while rev.len() > 0
        invariant
            lines.len() + rev.len() == top.len(),
            indices.len() == lines.len(),
            top.len() <= orig.len(),
            forall|k: int| 0 <= k < top.len() ==> #[trigger] top[k] == orig[k],
            forall|k: int| 0 <= k < rev.len() ==> #[trigger] rev@[k] == top[top.len() - 1 - k],
            forall|k: int| 0 <= k < lines.len() ==> #[trigger] lines@[k] == top[k].0,
            forall|k: int| 0 <= k < indices.len() ==> #[trigger] indices@[k] == top[k].2,
        decreases rev.len(),
    {
        let (line, _score, idx) = rev.pop().unwrap();
        lines.push(line);
        indices.push(idx);
    }
    FilterOutput { total, lines, indices }
}

/// Filters `lines` by `query` and keeps the best `number` of the matches;
/// `total` counts every match, whatever the cap.
pub fn run_filter(query: &str, lines: Vec<String>, algo: Algo, number: Option<usize>) -> (r:
    FilterOutput)
    ensures
        r.total == matched_count(query@, lines@, MatchType::Full, seq![Bonus::Neutral]),
        r.lines.len() == kept(r.total as int, number),
        r.indices.len() == r.lines.len(),
        exists|ranked: Seq<FilterResult>|
            ranks_lines(ranked, query@, lines@, MatchType::Full, seq![Bonus::Neutral])
                && r.lines.len() == kept(ranked.len() as int, number) && r.indices.len()
                == r.lines.len() && (forall|k: int|
                0 <= k < r.lines.len() ==> #[trigger] r.lines@[k] == ranked[k].0) && (forall|k: int|
                0 <= k < r.indices.len() ==> #[trigger] r.indices@[k] == ranked[k].2),
{
    let ranked = sync_run(query, lines, algo);
    let ghost rk = ranked@;
    let r = take_top(ranked, number);
    assert(ranks_lines(rk, query@, lines@, MatchType::Full, seq![Bonus::Neutral]));
    r
}

} // verus!
