//! The index of captured command outputs, keyed by the command's words and
//! working directory.
use vstd::prelude::*;
use crate::command::{count_byte, count_newlines, lemma_split_bytes_len, split_bytes, texts};

verus! {

/// What identifies a command run: its words and its working directory.
pub struct Signature {
    pub args: Vec<String>,
    pub dir: String,
}

impl Signature {
    /// The words and directory as text.
    pub open spec fn key(&self) -> (Seq<Seq<char>>, Seq<char>) {
        (texts(self.args@), self.dir@)
    }
}

/// One captured output: the file that holds it and its number of lines.
pub struct CacheEntry {
    pub signature: Signature,
    pub path: String,
    pub total: usize,
}

/// The captured outputs recorded so far, oldest first.
pub struct Cache {
    pub entries: Vec<CacheEntry>,
}

/// What the latest entry of `entries` for `key` records.
pub open spec fn lookup_in(entries: Seq<CacheEntry>, key: (Seq<Seq<char>>, Seq<char>)) -> Option<
    (Seq<char>, usize),
>
    decreases entries.len(),
{
    if entries.len() == 0 {
        None
    } else if entries.last().signature.key() == key {
        Some((entries.last().path@, entries.last().total))
    } else {
        lookup_in(entries.drop_last(), key)
    }
}

fn same_args(a: &Vec<String>, b: &Vec<String>) -> (r: bool)
    ensures
        r == (texts(a@) == texts(b@)),
{
    if a.len() != b.len() {
        proof {
            assert(texts(a@).len() != texts(b@).len());
        }
        return false;
    }
    let mut k: usize = 0;
    while k < a.len()
        invariant
            a.len() == b.len(),
            k <= a.len(),
            forall|j: int| 0 <= j < k ==> #[trigger] a@[j]@ == b@[j]@,
        decreases a.len() - k,
    {
        if a[k] != b[k] {
            proof {
                assert(texts(a@)[k as int] != texts(b@)[k as int]);
            }
            return false;
        }
        k = k + 1;
    }
    assert(texts(a@) =~= texts(b@));
    true
}

impl Cache {
    /// What the latest record for each signature says.
    pub open spec fn lookup_spec(&self, key: (Seq<Seq<char>>, Seq<char>)) -> Option<
        (Seq<char>, usize),
    > {
        lookup_in(self.entries@, key)
    }

    /// An index with no record.
    pub fn new() -> (r: Cache)
        ensures
            forall|key: (Seq<Seq<char>>, Seq<char>)| r.lookup_spec(key) is None,
    {
        Cache { entries: Vec::new() }
    }

    /// The file and line count last recorded for `signature`, if any.
    pub fn lookup(&self, signature: &Signature) -> (r: Option<(String, usize)>)
        ensures
            match r {
                None => self.lookup_spec(signature.key()) is None,
                Some((p, t)) => self.lookup_spec(signature.key()) == Some((p@, t)),
            },
    {
        let mut k: usize = self.entries.len();
        proof {
            assert(self.entries@.subrange(0, k as int) =~= self.entries@);
        }
        while k > 0
            invariant
                k <= self.entries.len(),
                lookup_in(self.entries@, signature.key()) == lookup_in(
                    self.entries@.subrange(0, k as int),
                    signature.key(),
                ),
            decreases k,
        {
            let e = &self.entries[k - 1];
            proof {
                assert(self.entries@.subrange(0, k as int).drop_last() =~= self.entries@.subrange(
                    0,
                    k - 1,
                ));
            }
            if same_args(&e.signature.args, &signature.args) && e.signature.dir == signature.dir {
                return Some((e.path.clone(), e.total));
            }
            k = k - 1;
        }
        None
    }

    /// Records that the run `signature` has an output of `total` lines kept
    /// at `path`.
    pub fn record(&mut self, signature: Signature, path: String, total: usize)
        ensures
            final(self).entries@ == old(self).entries@.push(
                (CacheEntry { signature, path, total }),
            ),
            final(self).lookup_spec(signature.key()) == Some((path@, total)),
            forall|key: (Seq<Seq<char>>, Seq<char>)|
                key != signature.key() ==> #[trigger] final(self).lookup_spec(key) == old(
                    self,
                ).lookup_spec(key),
    {
        let ghost before = self.entries@;
        self.entries.push(CacheEntry { signature, path, total });
        proof {
            assert(self.entries@.drop_last() =~= before);
        }
    }

    /// Records that the output `raw` of the run `signature` is kept at
    /// `path`; returns the path and the output's line count.
    pub fn store(&mut self, signature: Signature, path: String, raw: &Vec<u8>) -> (r: (
        String,
        usize,
    ))
        ensures
            r.0@ == path@,
            r.1 == count_byte(raw@, 10u8),
            final(self).entries@ == old(self).entries@.push(
                (CacheEntry { signature, path, total: r.1 }),
            ),
            final(self).lookup_spec(signature.key()) == Some((r.0@, r.1)),
            forall|key: (Seq<Seq<char>>, Seq<char>)|
                key != signature.key() ==> #[trigger] final(self).lookup_spec(key) == old(
                    self,
                ).lookup_spec(key),
    {
        let total = count_newlines(raw);
        let kept = path.clone();
        let ghost before = self.entries@;
        self.entries.push(CacheEntry { signature, path, total });
        proof {
            assert(self.entries@.drop_last() =~= before);
        }
        (kept, total)
    }
}

/// Storing the output `raw` of a run and looking its signature up at once
/// gives back the path it was stored at and its exact line count, one less
/// than the pieces that splitting `raw` on newlines gives.
pub proof fn lemma_store_then_lookup(
    entries: Seq<CacheEntry>,
    signature: Signature,
    path: String,
    raw: Seq<u8>,
    total: usize,
)
    requires
        total == count_byte(raw, 10u8),
    ensures
        lookup_in(entries.push((CacheEntry { signature, path, total })), signature.key()) == Some(
            (path@, total),
        ),
        split_bytes(raw).len() == total + 1,
{
    let e = CacheEntry { signature, path, total };
    assert(entries.push(e).last() == e);
    lemma_split_bytes_len(raw);
}

} // verus!
