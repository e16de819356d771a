//! Best-first ordering of the candidates that matched a query.
use vstd::prelude::*;

verus! {

/// What scoring one candidate gives: `None` when it does not match, else the
/// score and the positions of the matched characters.
pub type MatchResult = Option<(i64, Vec<usize>)>;

/// A matched line, its score and the positions of its matched characters.
pub type FilterResult = (String, i64, Vec<usize>);

/// Number of candidates that matched.
pub open spec fn num_matched(scored: Seq<MatchResult>) -> nat
    decreases scored.len(),
{
    if scored.len() == 0 {
        0
    } else {
        (if scored[0] is Some { 1nat } else { 0nat }) + num_matched(scored.drop_first())
    }
}

/// The entry of the ranking that candidate `j` gives.
pub open spec fn entry_of(lines: Seq<String>, scored: Seq<MatchResult>, j: int) -> FilterResult {
    (lines[j], (scored[j]->0).0, (scored[j]->0).1)
}

/// `out` lists the matched candidates whose indices `p` names, in that order:
/// each matched candidate exactly once, no other.
pub open spec fn lists_matches(
    p: Seq<int>,
    out: Seq<FilterResult>,
    lines: Seq<String>,
    scored: Seq<MatchResult>,
) -> bool {
    &&& p.len() == out.len()
    &&& forall|k: int|
        0 <= k < p.len() ==> 0 <= #[trigger] p[k] < scored.len() && scored[p[k]] is Some && out[k]
            == entry_of(lines, scored, p[k])
    &&& forall|k: int, l: int| 0 <= k < l < p.len() ==> p[k] != p[l]
    &&& forall|j: int|
        0 <= j < scored.len() && #[trigger] scored[j] is Some ==> exists|k: int|
            0 <= k < p.len() && p[k] == j
}

/// Higher score first; on equal scores, earlier candidate first.
pub open spec fn ordered_by(p: Seq<int>, out: Seq<FilterResult>) -> bool {
    forall|k: int, l: int|
        0 <= k < l < out.len() ==> #[trigger] out[k].1 > #[trigger] out[l].1 || (out[k].1
            == out[l].1 && p[k] < p[l])
}

/// `out` is the stable best-first ranking of the candidates that matched.
pub open spec fn is_ranking(
    out: Seq<FilterResult>,
    lines: Seq<String>,
    scored: Seq<MatchResult>,
) -> bool {
    exists|p: Seq<int>| lists_matches(p, out, lines, scored) && ordered_by(p, out)
}

proof fn lemma_num_matched_step(scored: Seq<MatchResult>, i: int)
    requires
        0 <= i < scored.len(),
    ensures
        num_matched(scored.subrange(i, scored.len() as int)) == (if scored[i] is Some {
            1nat
        } else {
            0nat
        }) + num_matched(scored.subrange(i + 1, scored.len() as int)),
{
    assert(scored.subrange(i, scored.len() as int).drop_first() =~= scored.subrange(
        i + 1,
        scored.len() as int,
    ));
}

/// Ranks the candidates `lines` by their scores `scored` (one per line): the
/// matched ones, best score first, ties kept in the order of `lines`.
pub fn rank(lines: Vec<String>, scored: Vec<MatchResult>) -> (r: Vec<FilterResult>)
    requires
        lines.len() == scored.len(),
    ensures
        is_ranking(r@, lines@, scored@),
        r.len() == num_matched(scored@),
{
    let ghost all_lines = lines@;
    let ghost all_scored = scored@;
    let ghost n = scored.len() as int;
    let mut lines = lines;
    let mut scored = scored;
    let mut out: Vec<FilterResult> = Vec::new();
    let ghost mut p: Seq<int> = Seq::empty();
    proof {
        assert(all_scored.subrange(n, n) =~= Seq::<MatchResult>::empty());
    }
    while scored.len() > 0
        invariant
            lines.len() == scored.len(),
            scored.len() <= n,
            n == all_scored.len(),
            all_lines.len() == all_scored.len(),
            lines@ == all_lines.subrange(0, scored.len() as int),
            scored@ == all_scored.subrange(0, scored.len() as int),
            p.len() == out.len(),
            out.len() == num_matched(all_scored.subrange(scored.len() as int, n)),
            forall|k: int|
                0 <= k < p.len() ==> scored.len() <= #[trigger] p[k] < n && all_scored[p[k]] is Some
                    && out@[k] == entry_of(all_lines, all_scored, p[k]),
            forall|k: int, l: int| 0 <= k < l < p.len() ==> p[k] != p[l],
            forall|j: int|
                scored.len() <= j < n && #[trigger] all_scored[j] is Some ==> exists|k: int|
                    0 <= k < p.len() && p[k] == j,
            ordered_by(p, out@),
        decreases scored.len(),
    {
        let line = lines.pop().unwrap();
        let m = scored.pop().unwrap();
        let ghost i = scored.len() as int;
        proof {
            lemma_num_matched_step(all_scored, i);
        }
        match m {
            None => {
                assert forall|j: int|
                    i <= j < n && #[trigger] all_scored[j] is Some implies exists|k: int|
                        0 <= k < p.len() && p[k] == j by {
                    if j == i {
                    } else {
                    }
                }
            },
            Some((s, idx)) => {
                let mut pos: usize = 0;
                while pos < out.len() && out[pos].1 > s
                    invariant
                        pos <= out.len(),
                        forall|k: int| 0 <= k < pos ==> #[trigger] out@[k].1 > s,
                    decreases out.len() - pos,
                {
                    pos = pos + 1;
                }
                let ghost old_out = out@;
                let ghost old_p = p;
                out.insert(pos, (line, s, idx));
                proof {
                    p = old_p.insert(pos as int, i);
                    assert forall|k: int| pos <= k < old_out.len() implies #[trigger] old_out[k].1
                        <= s by {
                        if k > pos {
                            assert(old_out[pos as int].1 > old_out[k].1 || old_out[pos as int].1
                                == old_out[k].1);
                        }
                    }
                    assert forall|k: int|
                        0 <= k < p.len() implies i <= #[trigger] p[k] < n && all_scored[p[k]] is Some
                            && out@[k] == entry_of(all_lines, all_scored, p[k]) by {
                        if k < pos {
                            assert(p[k] == old_p[k]);
                        } else if k == pos {
                        } else {
                            assert(p[k] == old_p[k - 1]);
                        }
                    }
                    assert forall|k: int, l: int| 0 <= k < l < p.len() implies p[k] != p[l] by {
                        if k != pos && l != pos {
                            let k0 = if k < pos { k } else { k - 1 };
                            let l0 = if l < pos { l } else { l - 1 };
                            assert(p[k] == old_p[k0]);
                            assert(p[l] == old_p[l0]);
                        } else if k == pos {
                            assert(p[l] == old_p[l - 1]);
                        } else {
                            assert(p[k] == old_p[k]);
                        }
                    }
                    assert forall|j: int|
                        i <= j < n && #[trigger] all_scored[j] is Some implies exists|k: int|
                            0 <= k < p.len() && p[k] == j by {
                        if j == i {
                            assert(p[pos as int] == i);
                        } else {
                            let k0 = choose|k: int| 0 <= k < old_p.len() && old_p[k] == j;
                            if k0 < pos {
                                assert(p[k0] == j);
                            } else {
                                assert(p[k0 + 1] == j);
                            }
                        }
                    }
                    assert forall|k: int, l: int| 0 <= k < l < out@.len() implies #[trigger] out@[k].1
                        > #[trigger] out@[l].1 || (out@[k].1 == out@[l].1 && p[k] < p[l]) by {
                        if k != pos && l != pos {
                            let k0 = if k < pos { k } else { k - 1 };
                            let l0 = if l < pos { l } else { l - 1 };
                            assert(out@[k] == old_out[k0] && p[k] == old_p[k0]);
                            assert(out@[l] == old_out[l0] && p[l] == old_p[l0]);
                        } else if k == pos {
                            assert(out@[l] == old_out[l - 1] && p[l] == old_p[l - 1]);
                        } else {
                            assert(out@[k] == old_out[k] && p[k] == old_p[k]);
                        }
                    }
                }
            },
        }
    }
    proof {
        assert(all_scored.subrange(0, n) =~= all_scored);
        assert(lists_matches(p, out@, all_lines, all_scored));
    }
    out
}

} // verus!
