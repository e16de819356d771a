//! The streaming filter: lines arrive one at a time, the best ones are kept
//! as they come, and snapshots of them are emitted along the way.
use vstd::prelude::*;
use crate::filter::FilterOutput;
use crate::matcher::{Algo, Bonus, MatchType, match_line, match_of};
use crate::rank::FilterResult;
use crate::truncate::copy_indices;

verus! {

/// What the source of a streaming run does next.
pub enum Event {
    /// It produced a line.
    Line(String),
    /// It is exhausted.
    End,
    /// The run was abandoned.
    Cancel,
}

/// What the driver of a streaming run is to do after an event.
pub enum Action {
    /// Read the next line.
    Continue,
    /// Show this snapshot, then read the next line.
    Emit(FilterOutput),
    /// Show this final snapshot; store the whole output if `write_cache`.
    Finish { snapshot: FilterOutput, write_cache: bool },
    /// Stop the source and release it, showing nothing more.
    Terminate,
    /// The run is over: do nothing.
    Ignore,
}

/// `top` is ordered by score, best first.
pub open spec fn sorted_desc(top: Seq<FilterResult>) -> bool {
    forall|i: int, j: int| 0 <= i < j < top.len() ==> #[trigger] top[i].1 >= #[trigger] top[j].1
}

/// `top` with at most `cap` items kept, the first ones.
pub open spec fn capped(top: Seq<FilterResult>, cap: Option<usize>) -> Seq<FilterResult> {
    match cap {
        Some(k) => if top.len() > k { top.take(k as int) } else { top },
        None => top,
    }
}

/// `p` is where an item of score `s` goes in `top`: after every item that
/// scores as much or more.
pub open spec fn insert_at(top: Seq<FilterResult>, s: i64, p: int) -> bool {
    &&& 0 <= p <= top.len()
    &&& forall|k: int| 0 <= k < p ==> #[trigger] top[k].1 >= s
    &&& p < top.len() ==> top[p].1 < s
}

/// `s` shows the state of `st`: its number of matches, and the lines and
/// matched positions of its best matches, in order.
pub open spec fn shows(s: FilterOutput, st: DynRunner) -> bool {
    &&& s.total == st.total
    &&& s.lines.len() == st.top.len()
    &&& s.indices.len() == st.top.len()
    &&& forall|k: int| 0 <= k < s.lines.len() ==> #[trigger] s.lines@[k] == st.top@[k].0
    &&& forall|k: int| 0 <= k < s.indices.len() ==> #[trigger] s.indices@[k]@ == st.top@[k].2@
}

/// A streaming run over one source.
pub struct DynRunner {
    pub query: String,
    pub algo: Algo,
    pub match_type: MatchType,
    pub bonuses: Vec<Bonus>,
    /// How many results are kept, if capped.
    pub cap: Option<usize>,
    /// A snapshot is emitted after every `batch` lines.
    pub batch: usize,
    /// Whether the whole output is stored when the source ends.
    pub cacheable: bool,
    /// Lines seen so far.
    pub seen: usize,
    /// Lines that matched so far.
    pub total: usize,
    /// The best matches so far, best first, ties in arrival order.
    pub top: Vec<FilterResult>,
    /// Whether the run is over, by cancellation or exhaustion.
    pub done: bool,
}

impl DynRunner {
    /// The runner's state is consistent: its best matches are ordered and
    /// within the cap.
    pub open spec fn wf(&self) -> bool {
        &&& sorted_desc(self.top@)
        &&& self.cap matches Some(k) ==> self.top.len() <= k
        &&& self.total <= self.seen
        &&& self.batch > 0
    }

    /// A run of `query` over a source that has produced nothing yet.
    pub fn new(
        query: String,
        algo: Algo,
        match_type: MatchType,
        bonuses: Vec<Bonus>,
        cap: Option<usize>,
        batch: usize,
        cacheable: bool,
    ) -> (r: DynRunner)
        requires
            batch > 0,
        ensures
            r.wf(),
            r.query == query && r.algo == algo && r.match_type == match_type && r.bonuses@
                == bonuses@,
            r.cap == cap && r.batch == batch && r.cacheable == cacheable,
            r.seen == 0 && r.total == 0 && r.top.len() == 0 && !r.done,
    {
        DynRunner {
            query,
            algo,
            match_type,
            bonuses,
            cap,
            batch,
            cacheable,
            seen: 0,
            total: 0,
            top: Vec::new(),
            done: false,
        }
    }

    /// The current best matches: the number of matches so far, and the lines
    /// and matched positions of the best ones.
    pub fn snapshot(&self) -> (r: FilterOutput)
        ensures
            shows(r, *self),
            r.total == self.total,
            r.lines.len() == self.top.len(),
            r.indices.len() == self.top.len(),
            forall|k: int| 0 <= k < r.lines.len() ==> #[trigger] r.lines@[k] == self.top@[k].0,
            forall|k: int|
                0 <= k < r.indices.len() ==> #[trigger] r.indices@[k]@ == self.top@[k].2@,
    {
        let mut lines: Vec<String> = Vec::new();
        let mut indices: Vec<Vec<usize>> = Vec::new();
        let mut k: usize = 0;
        while k < self.top.len()
            invariant
                k <= self.top.len(),
                lines.len() == k,
                indices.len() == k,
                forall|j: int| 0 <= j < k ==> #[trigger] lines@[j] == self.top@[j].0,
                forall|j: int| 0 <= j < k ==> #[trigger] indices@[j]@ == self.top@[j].2@,
            decreases self.top.len() - k,
        {
            lines.push(self.top[k].0.clone());
            indices.push(copy_indices(&self.top[k].2));
            k = k + 1;
        }
        FilterOutput { total: self.total, lines, indices }
    }

    /// Puts the match `e` among the best ones, after those that score as
    /// much or more, and drops what passes the cap.
    fn insert(&mut self, e: FilterResult)
        requires
            old(self).wf(),
        ensures
            final(self).wf(),
            exists|p: int|
                insert_at(old(self).top@, e.1, p) && final(self).top@ == capped(
                    old(self).top@.insert(p, e),
                    old(self).cap,
                ),
            final(self).top.len() >= old(self).top.len(),
            forall|k: int|
                0 <= k < old(self).top.len() ==> #[trigger] final(self).top@[k].1 >= old(
                    self,
                ).top@[k].1,
            final(self).query == old(self).query,
            final(self).algo == old(self).algo,
            final(self).match_type == old(self).match_type,
            final(self).bonuses == old(self).bonuses,
            final(self).cap == old(self).cap,
            final(self).batch == old(self).batch,
            final(self).cacheable == old(self).cacheable,
            final(self).seen == old(self).seen,
            final(self).total == old(self).total,
            final(self).done == old(self).done,
    {
        let s = e.1;
        let mut pos: usize = 0;
        while pos < self.top.len() && self.top[pos].1 >= s
            invariant
                pos <= self.top.len(),
                forall|k: int| 0 <= k < pos ==> #[trigger] self.top@[k].1 >= s,
            decreases self.top.len() - pos,
        {
            pos = pos + 1;
        }
        let ghost old_top = self.top@;
        assert(insert_at(old_top, s, pos as int));
        self.top.insert(pos, e);
        let ghost ins = self.top@;
        proof {
            assert forall|k: int| pos < k < ins.len() implies #[trigger] ins[k].1 < s by {
                assert(old_top[pos as int].1 >= old_top[k - 1].1);
            }
            assert forall|i: int, j: int| 0 <= i < j < ins.len() implies #[trigger] ins[i].1
                >= #[trigger] ins[j].1 by {
                if i < pos && j < pos {
                    assert(ins[i] == old_top[i] && ins[j] == old_top[j]);
                } else if i < pos && j > pos {
                    assert(ins[i] == old_top[i] && ins[j] == old_top[j - 1]);
                } else if i > pos {
                    assert(ins[i] == old_top[i - 1] && ins[j] == old_top[j - 1]);
                }
            }
            assert forall|k: int| 0 <= k < old_top.len() implies #[trigger] ins[k].1
                >= old_top[k].1 by {
                if k > pos {
                    assert(ins[k] == old_top[k - 1]);
                }
            }
        }
        match self.cap {
            Some(c) => {
                if self.top.len() > c {
                    self.top.truncate(c);
                }
            },
            None => {},
        }
    }

    /// Handles the next event of the source. A line is scored; a match
    /// counts, joins the best ones, and a snapshot is emitted after every
    /// `batch` lines. The end of the source gives the final snapshot and,
    /// for a cacheable source, the order to store its output. A cancellation
    /// stops the source. Once the run is over, every event is ignored.
    pub fn step(&mut self, event: Event) -> (r: Action)
        requires
            old(self).wf(),
            old(self).seen < usize::MAX,
        ensures
            final(self).wf(),
            old(self).done ==> r is Ignore && *final(self) == *old(self),
            r matches Action::Emit(s) ==> shows(s, *final(self)),
            r matches Action::Finish { snapshot, .. } ==> shows(snapshot, *final(self)),
            final(self).cap matches Some(k) ==> final(self).top.len() <= k,
            final(self).cap == old(self).cap,
            final(self).total >= old(self).total,
            final(self).seen >= old(self).seen,
            final(self).top.len() >= old(self).top.len(),
            forall|k: int|
                0 <= k < old(self).top.len() ==> #[trigger] final(self).top@[k].1 >= old(
                    self,
                ).top@[k].1,
            !old(self).done ==> match event {
                Event::Line(line) => {
                    let m = match_of(
                        old(self).query@,
                        line@,
                        old(self).match_type,
                        old(self).bonuses@,
                    );
                    &&& final(self).seen == old(self).seen + 1
                    &&& final(self).total == old(self).total + (if m is Some {
                        1int
                    } else {
                        0int
                    })
                    &&& m is None ==> final(self).top@ == old(self).top@
                    &&& m matches Some(v) ==> exists|p: int, e: FilterResult|
                        e.0 == line && e.1 == v.0 && e.2@ == v.1 && insert_at(old(self).top@, v.0, p)
                            && final(self).top@ == capped(old(self).top@.insert(p, e), old(self).cap)
                    &&& !final(self).done
                    &&& (r is Emit <==> final(self).seen % old(self).batch == 0)
                    &&& (r is Emit || r is Continue)
                },
                Event::End => final(self).done && final(self).top@ == old(self).top@
                    && final(self).seen == old(self).seen && final(self).total == old(self).total && (r matches Action::Finish { snapshot, write_cache }
                    && write_cache == old(self).cacheable && snapshot.total == old(self).total),
                Event::Cancel => final(self).done && final(self).top@ == old(self).top@
                    && final(self).seen == old(self).seen && final(self).total == old(self).total
                    && r is Terminate,
            },
    {
        if self.done {
            return Action::Ignore;
        }
        match event {
            Event::Line(line) => {
                self.seen = self.seen + 1;
                let m = match_line(
                    self.query.as_str(),
                    line.as_str(),
                    self.algo,
                    self.match_type,
                    &self.bonuses,
                );
                match m {
                    Some((s, idx)) => {
                        self.total = self.total + 1;
                        let e = (line, s, idx);
                        let ghost ge = e;
                        let ghost before = self.top@;
                        self.insert(e);
                        proof {
                            let p = choose|p: int|
                                insert_at(before, s, p) && self.top@ == capped(before.insert(p, ge), self.cap);
                            assert(insert_at(before, s, p) && self.top@ == capped(before.insert(p, ge), self.cap));
                        }
                    },
                    None => {},
                }
                if self.seen % self.batch == 0 {
                    Action::Emit(self.snapshot())
                } else {
                    Action::Continue
                }
            },
            Event::End => {
                self.done = true;
                Action::Finish { snapshot: self.snapshot(), write_cache: self.cacheable }
            },
            Event::Cancel => {
                self.done = true;
                Action::Terminate
            },
        }
    }
}

} // verus!
