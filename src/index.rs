//! The lifecycle of the nearest-neighbour index: entries are inserted, the
//! index is built once, and only then searched. Distances are compared as
//! integer keys whose order is the order of the distances.
use vstd::prelude::*;
use vstd::set_lib::{lemma_int_range, lemma_len_subset, set_int_range};

verus! {

/// The embedding dimension used when none is given.
pub const DIMENSION: usize = 1536;

/// Why an index operation was refused.
#[derive(Debug, Clone, Copy, PartialEq, Eq, Structural)]
pub enum IndexStateError {
    /// An insert came after `build`.
    InsertAfterBuild,
    /// `build` was called a second time.
    AlreadyBuilt,
    /// A search came before `build`.
    SearchBeforeBuild,
    /// The embedding does not have the index's dimension.
    DimensionMismatch,
    /// The id is already in the index.
    DuplicateId,
    /// The number of distances given is not the number of entries.
    DistanceCountMismatch,
}

#[derive(Debug, Clone, Copy, PartialEq, Eq, Structural)]
pub enum IndexPhase {
    Empty,
    Building,
    Queryable,
}

/// Entry `p` comes before entry `q`: it is nearer, or as near and inserted earlier.
pub open spec fn ranks_before(keys: Seq<u64>, p: int, q: int) -> bool {
    keys[p] < keys[q] || (keys[p] == keys[q] && p < q)
}

/// `r` lists the `min(k, keys.len())` nearest positions of `keys`, nearest
/// first, ties broken by position.
pub open spec fn is_nearest(keys: Seq<u64>, k: nat, r: Seq<usize>) -> bool {
    &&& r.len() == if k < keys.len() { k } else { keys.len() }
    &&& forall|i: int| 0 <= i < r.len() ==> #[trigger] r[i] < keys.len()
    &&& forall|i: int, j: int|
        0 <= i < j < r.len() ==> ranks_before(keys, #[trigger] r[i] as int, #[trigger] r[j] as int)
    &&& forall|q: usize, i: int|
        q < keys.len() && !#[trigger] r.contains(q) && 0 <= i < r.len() ==> ranks_before(
            keys,
            #[trigger] r[i] as int,
            q as int,
        )
}

proof fn lemma_positions_bound(r: Seq<usize>, n: usize)
    requires
        forall|i: int| 0 <= i < r.len() ==> #[trigger] r[i] < n,
        forall|i: int, j: int| 0 <= i < j < r.len() ==> #[trigger] r[i] != #[trigger] r[j],
    ensures
        r.len() <= n,
        (forall|q: usize| q < n ==> #[trigger] r.contains(q)) ==> r.len() == n,
{
    let s = r.map_values(|p: usize| p as int);
    assert forall|i: int, j: int| 0 <= i < s.len() && 0 <= j < s.len() && i != j implies s[i]
        != s[j] by {
        if i < j {
            assert(r[i] != r[j]);
        } else {
            assert(r[j] != r[i]);
        }
    }
    assert(s.no_duplicates());
    s.unique_seq_to_set();
    lemma_int_range(0, n as int);
    assert(s.to_set().subset_of(set_int_range(0, n as int))) by {
        assert forall|x: int| s.to_set().contains(x) implies set_int_range(0, n as int).contains(
            x,
        ) by {
            let i = choose|i: int| 0 <= i < s.len() && s[i] == x;
            assert(r[i] < n);
        }
    }
    lemma_len_subset(s.to_set(), set_int_range(0, n as int));
    if forall|q: usize| q < n ==> #[trigger] r.contains(q) {
        assert(set_int_range(0, n as int).subset_of(s.to_set())) by {
            assert forall|x: int| set_int_range(0, n as int).contains(x) implies s.to_set().contains(
                x,
            ) by {
                let q = x as usize;
                assert(r.contains(q));
                let i = choose|i: int| 0 <= i < r.len() && r[i] == q;
                assert(s[i] == x);
            }
        }
        lemma_len_subset(set_int_range(0, n as int), s.to_set());
    }
}

/// The positions of the `k` smallest keys (all of them if there are fewer),
/// smallest first; equal keys keep their order of position.
pub fn nearest_positions(keys: &Vec<u64>, k: usize) -> (r: Vec<usize>)
    ensures
        is_nearest(keys@, k as nat, r@),
{
    let n = keys.len();
    let mut chosen: Vec<bool> = Vec::new();
    while chosen.len() < n
        invariant
            n == keys@.len(),
            chosen@.len() <= n,
            forall|q: int| 0 <= q < chosen@.len() ==> !#[trigger] chosen@[q],
        decreases n - chosen@.len(),
    {
        chosen.push(false);
    }
    let mut out: Vec<usize> = Vec::new();
    while out.len() < k
        invariant
            n == keys@.len(),
            chosen@.len() == n,
            forall|q: int| 0 <= q < n ==> (#[trigger] chosen@[q] <==> out@.contains(q as usize)),
            forall|i: int| 0 <= i < out@.len() ==> #[trigger] out@[i] < n,
            forall|i: int, j: int|
                0 <= i < j < out@.len() ==> ranks_before(
                    keys@,
                    #[trigger] out@[i] as int,
                    #[trigger] out@[j] as int,
                ),
            forall|q: usize, i: int|
                q < n && !#[trigger] out@.contains(q) && 0 <= i < out@.len() ==> ranks_before(
                    keys@,
                    #[trigger] out@[i] as int,
                    q as int,
                ),
            out@.len() <= k,
        ensures
            out@.len() == k || forall|q: usize| q < n ==> #[trigger] chosen@[q as int],
        decreases k - out@.len(),
    {
        let mut best: usize = n;
        let mut j: usize = 0;
        while j < n
            invariant
                n == keys@.len(),
                chosen@.len() == n,
                j <= n,
                best == n || (best < j && !chosen@[best as int]),
                forall|q: int|
                    0 <= q < j && !#[trigger] chosen@[q] ==> best != n && (q == best
                        || ranks_before(keys@, best as int, q)),
            decreases n - j,
        {
            if !chosen[j] && (best == n || keys[j] < keys[best]) {
                best = j;
            }
            j = j + 1;
        }
        if best == n {
            break;
        }
        let ghost old_out = out@;
        proof {
            assert(!old_out.contains(best));
            assert forall|i: int| 0 <= i < old_out.len() implies ranks_before(
                keys@,
                #[trigger] old_out[i] as int,
                best as int,
            ) by {}
        }
        out.push(best);
        chosen.set(best, true);
        proof {
            assert forall|q: int| 0 <= q < n implies (#[trigger] chosen@[q] <==> out@.contains(
                q as usize,
            )) by {
                if q == best {
                    assert(out@[old_out.len() as int] == best);
                } else {
                    if out@.contains(q as usize) {
                        let i = choose|i: int| 0 <= i < out@.len() && out@[i] == q as usize;
                        assert(i < old_out.len());
                        assert(old_out[i] == q as usize);
                    }
                    if old_out.contains(q as usize) {
                        let i = choose|i: int| 0 <= i < old_out.len() && old_out[i] == q as usize;
                        assert(out@[i] == q as usize);
                    }
                }
            }
            assert forall|q: usize, i: int|
                q < n && !#[trigger] out@.contains(q) && 0 <= i < out@.len() implies ranks_before(
                keys@,
                #[trigger] out@[i] as int,
                q as int,
            ) by {
                assert(!chosen@[q as int]);
                if i < old_out.len() {
                    assert(out@[i] == old_out[i]);
                    assert(!old_out.contains(q)) by {
                        if old_out.contains(q) {
                            let t = choose|t: int| 0 <= t < old_out.len() && old_out[t] == q;
                            assert(out@[t] == q);
                        }
                    }
                }
            }
        }
    }
    proof {
        assert forall|i: int, j: int| 0 <= i < j < out@.len() implies #[trigger] out@[i]
            != #[trigger] out@[j] by {
            assert(ranks_before(keys@, out@[i] as int, out@[j] as int));
        }
        lemma_positions_bound(out@, n);
        if out@.len() < k {
            assert forall|q: usize| q < n implies #[trigger] out@.contains(q) by {
                assert(chosen@[q as int]);
            }
        }
    }
    out
}

fn contains_id(ids: &Vec<usize>, id: usize) -> (r: bool)
    ensures
        r == ids@.contains(id),
{
    let mut i: usize = 0;
    while i < ids.len()
        invariant
            0 <= i <= ids@.len(),
            forall|j: int| 0 <= j < i ==> ids@[j] != id,
        decreases ids@.len() - i,
    {
        if ids[i] == id {
            return true;
        }
        i = i + 1;
    }
    false
}

/// The index's bookkeeping: its dimension, the ids in order of insertion, and
/// whether it has been built.
pub struct VectorIndex {
    dimension: usize,
    ids: Vec<usize>,
    built: bool,
}

impl VectorIndex {
    pub closed spec fn dim(&self) -> nat {
        self.dimension as nat
    }

    /// The ids inserted, in order of insertion.
    pub closed spec fn entries(&self) -> Seq<usize> {
        self.ids@
    }

    pub closed spec fn is_built(&self) -> bool {
        self.built
    }

    pub open spec fn phase(&self) -> IndexPhase {
        if self.is_built() {
            IndexPhase::Queryable
        } else if self.entries().len() == 0 {
            IndexPhase::Empty
        } else {
            IndexPhase::Building
        }
    }

    /// Each id is in the index at most once.
    pub open spec fn wf(&self) -> bool {
        self.entries().no_duplicates()
    }

    /// An empty index for embeddings of `dimension` numbers.
    pub fn new(dimension: usize) -> (r: VectorIndex)
        ensures
            r.wf(),
            r.dim() == dimension,
            r.entries() == Seq::<usize>::empty(),
            r.phase() == IndexPhase::Empty,
    {
        VectorIndex { dimension, ids: Vec::new(), built: false }
    }

    /// An empty index for embeddings of `dimension` numbers, or of `DIMENSION`.
    pub fn init(dimension: Option<usize>) -> (r: VectorIndex)
        ensures
            r.wf(),
            r.dim() == match dimension {
                Some(d) => d,
                None => DIMENSION,
            },
            r.entries() == Seq::<usize>::empty(),
            r.phase() == IndexPhase::Empty,
    {
        match dimension {
            Some(d) => VectorIndex::new(d),
            None => VectorIndex::new(DIMENSION),
        }
    }

    pub fn dimension(&self) -> (r: usize)
        ensures
            r == self.dim(),
    {
        self.dimension
    }

    pub fn phase_now(&self) -> (r: IndexPhase)
        ensures
            r == self.phase(),
    {
        if self.built {
            IndexPhase::Queryable
        } else if self.ids.len() == 0 {
            IndexPhase::Empty
        } else {
            IndexPhase::Building
        }
    }

    pub fn len(&self) -> (r: usize)
        ensures
            r == self.entries().len(),
    {
        self.ids.len()
    }

    /// Admits the entry `id` with an embedding of `embedding_len` numbers.
    pub fn upsert_embedding(&mut self, embedding_len: usize, id: usize) -> (r: Result<
        (),
        IndexStateError,
    >)
        requires
            old(self).wf(),
        ensures
            final(self).wf(),
            final(self).dim() == old(self).dim(),
            final(self).is_built() == old(self).is_built(),
            old(self).is_built() ==> r == Err::<(), IndexStateError>(
                IndexStateError::InsertAfterBuild,
            ),
            !old(self).is_built() && embedding_len != old(self).dim() ==> r == Err::<
                (),
                IndexStateError,
            >(IndexStateError::DimensionMismatch),
            !old(self).is_built() && embedding_len == old(self).dim() && old(
                self,
            ).entries().contains(id) ==> r == Err::<(), IndexStateError>(
                IndexStateError::DuplicateId,
            ),
            r is Ok <==> !old(self).is_built() && embedding_len == old(self).dim() && !old(
                self,
            ).entries().contains(id),
            r is Ok ==> final(self).entries() == old(self).entries().push(id),
            r is Err ==> final(self).entries() == old(self).entries(),
    {
        if self.built {
            return Err(IndexStateError::InsertAfterBuild);
        }
        if embedding_len != self.dimension {
            return Err(IndexStateError::DimensionMismatch);
        }
        if contains_id(&self.ids, id) {
            return Err(IndexStateError::DuplicateId);
        }
        let ghost old_ids = self.ids@;
        self.ids.push(id);
        proof {
            assert forall|a: int, b: int|
                0 <= a < self.ids@.len() && 0 <= b < self.ids@.len() && a != b implies self.ids@[a]
                != self.ids@[b] by {
                if a < old_ids.len() && b < old_ids.len() {
                    assert(old_ids[a] != old_ids[b]);
                }
            }
        }
        Ok(())
    }

    /// Makes the index queryable; it accepts no inserts after this.
    pub fn build_index(&mut self) -> (r: Result<(), IndexStateError>)
        requires
            old(self).wf(),
        ensures
            final(self).wf(),
            final(self).dim() == old(self).dim(),
            final(self).entries() == old(self).entries(),
            final(self).is_built(),
            old(self).is_built() <==> r == Err::<(), IndexStateError>(
                IndexStateError::AlreadyBuilt,
            ),
            !old(self).is_built() <==> r is Ok,
    {
        if self.built {
            return Err(IndexStateError::AlreadyBuilt);
        }
        self.built = true;
        Ok(())
    }

    /// The ids of the `k` nearest entries, nearest first, where
    /// `distance_keys[p]` orders the distance of the `p`-th inserted entry.
    pub fn search(&self, distance_keys: &Vec<u64>, k: usize) -> (r: Result<
        Vec<usize>,
        IndexStateError,
    >)
        requires
            self.wf(),
        ensures
            !self.is_built() ==> r == Err::<Vec<usize>, IndexStateError>(
                IndexStateError::SearchBeforeBuild,
            ),
            self.is_built() && distance_keys@.len() != self.entries().len() ==> r == Err::<
                Vec<usize>,
                IndexStateError,
            >(IndexStateError::DistanceCountMismatch),
            r is Ok <==> self.is_built() && distance_keys@.len() == self.entries().len(),
            r matches Ok(ids) ==> exists|pos: Seq<usize>|
                #![trigger is_nearest(distance_keys@, k as nat, pos)]
                is_nearest(distance_keys@, k as nat, pos) && ids@ == pos.map_values(
                    |p: usize| self.entries()[p as int],
                ),
    {
        if !self.built {
            return Err(IndexStateError::SearchBeforeBuild);
        }
        if distance_keys.len() != self.ids.len() {
            return Err(IndexStateError::DistanceCountMismatch);
        }
        let pos = nearest_positions(distance_keys, k);
        let mut out: Vec<usize> = Vec::new();
        let mut i: usize = 0;
        while i < pos.len()
            invariant
                is_nearest(distance_keys@, k as nat, pos@),
                distance_keys@.len() == self.ids@.len(),
                0 <= i <= pos@.len(),
                out@ == pos@.take(i as int).map_values(|p: usize| self.entries()[p as int]),
            decreases pos@.len() - i,
        {
            assert(pos@[i as int] < distance_keys@.len());
            out.push(self.ids[pos[i]]);
            i = i + 1;
            assert(out@ =~= pos@.take(i as int).map_values(|p: usize| self.entries()[p as int]));
        }
        assert(pos@.take(pos@.len() as int) =~= pos@);
        Ok(out)
    }
}

} // verus!
