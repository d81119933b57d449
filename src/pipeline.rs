//! The steps that write fetched and embedded results into the store and the
//! index: scraped content, and embedded chunks under fresh ids.
use vstd::prelude::*;

use crate::index::{IndexStateError, VectorIndex};
use crate::store::{source_key, ChunkJob, Request, SearchResult, StoreError};

verus! {

/// Why embedded chunks could not be recorded.
#[derive(Debug, Clone, Copy, PartialEq, Eq, Structural)]
pub enum PipelineError {
    /// There is not one embedding length per job.
    EmbeddingCountMismatch,
    Index(IndexStateError),
    Store(StoreError),
    /// The chunk ids would run past the largest `usize`.
    IdsExhausted,
}

/// Hands out chunk ids: each one is one more than the one before.
pub struct ChunkIdCounter {
    last: usize,
}

impl ChunkIdCounter {
    /// The id handed out last; 0 before the first.
    pub closed spec fn last_id(&self) -> nat {
        self.last as nat
    }

    pub fn new() -> (r: ChunkIdCounter)
        ensures
            r.last_id() == 0,
    {
        ChunkIdCounter { last: 0 }
    }

    pub fn last(&self) -> (r: usize)
        ensures
            r == self.last_id(),
    {
        self.last
    }
}

/// Every id in the index names a recorded chunk, and every recorded chunk id
/// has been handed out by the counter.
pub open spec fn linked(request: Request, index: VectorIndex, counter: ChunkIdCounter) -> bool {
    &&& request.wf()
    &&& index.wf()
    &&& forall|i: int|
        0 <= i < index.entries().len() ==> request.chunk_texts().contains_key(
            #[trigger] index.entries()[i],
        )
    &&& forall|id: usize| #[trigger] request.chunk_texts().contains_key(id) ==> id <= counter.last_id()
}

/// Records embedded chunks: job `i` gets the id `last + 1 + i`, its text and
/// source go into the store, and then its id goes into the index.
/// The batch is checked first and is recorded whole or not at all.
pub fn commit_all(
    request: &mut Request,
    index: &mut VectorIndex,
    counter: &mut ChunkIdCounter,
    jobs: &Vec<ChunkJob>,
    embedding_lens: &Vec<usize>,
) -> (r: Result<Vec<usize>, PipelineError>)
    requires
        linked(*old(request), *old(index), *old(counter)),
    ensures
        linked(*final(request), *final(index), *final(counter)),
        embedding_lens@.len() != jobs@.len() ==> r == Err::<Vec<usize>, PipelineError>(
            PipelineError::EmbeddingCountMismatch,
        ),
        embedding_lens@.len() == jobs@.len() && old(index).is_built() ==> r == Err::<
            Vec<usize>,
            PipelineError,
        >(PipelineError::Index(IndexStateError::InsertAfterBuild)),
        embedding_lens@.len() == jobs@.len() && !old(index).is_built() && (exists|i: int|
            0 <= i < jobs@.len() && #[trigger] embedding_lens@[i] != old(index).dim()) ==> r
            == Err::<Vec<usize>, PipelineError>(
            PipelineError::Index(IndexStateError::DimensionMismatch),
        ),
        embedding_lens@.len() == jobs@.len() && !old(index).is_built() && (forall|i: int|
            0 <= i < jobs@.len() ==> #[trigger] embedding_lens@[i] == old(index).dim()) && (exists|
            i: int,
        |
            0 <= i < jobs@.len() && !old(request).sources().contains_key(
                #[trigger] jobs@[i].source_id@,
            )) ==> r == Err::<Vec<usize>, PipelineError>(
            PipelineError::Store(StoreError::UnknownSource),
        ),
        r is Ok <==> embedding_lens@.len() == jobs@.len() && !old(index).is_built() && (forall|
            i: int,
        |
            0 <= i < jobs@.len() ==> #[trigger] embedding_lens@[i] == old(index).dim()) && (forall|
            i: int,
        |
            0 <= i < jobs@.len() ==> old(request).sources().contains_key(
                #[trigger] jobs@[i].source_id@,
            )) && old(counter).last_id() + jobs@.len() <= usize::MAX,
        r is Err ==> *final(request) == *old(request) && *final(index) == *old(index)
            && *final(counter) == *old(counter),
        r matches Ok(ids) ==> {
            &&& ids@.len() == jobs@.len()
            &&& ids@.no_duplicates()
            &&& forall|i: int| 0 <= i < ids@.len() ==> #[trigger] ids@[i] == old(counter).last_id() + 1 + i
            &&& final(counter).last_id() == old(counter).last_id() + jobs@.len()
            &&& final(index).entries() == old(index).entries() + ids@
            &&& final(index).dim() == old(index).dim()
            &&& final(index).is_built() == old(index).is_built()
            &&& final(request).sources() == old(request).sources()
            &&& final(request).source_order() == old(request).source_order()
            &&& final(request).query_text() == old(request).query_text()
            &&& forall|i: int|
                0 <= i < ids@.len() ==> #[trigger] final(request).chunk_texts()[ids@[i]]
                    == jobs@[i].text@ && final(request).chunk_sources()[ids@[i]]
                    == jobs@[i].source_id@
            &&& forall|id: usize| #[trigger]
                final(request).chunk_texts().contains_key(id) <==> (old(
                    request,
                ).chunk_texts().contains_key(id) || ids@.contains(id))
            &&& forall|id: usize| #[trigger]
                old(request).chunk_texts().contains_key(id) ==> final(request).chunk_texts()[id]
                    == old(request).chunk_texts()[id] && final(request).chunk_sources()[id]
                    == old(request).chunk_sources()[id]
        },
{
    let n = jobs.len();
    if embedding_lens.len() != n {
        return Err(PipelineError::EmbeddingCountMismatch);
    }
    if index.phase_now() == crate::index::IndexPhase::Queryable {
        return Err(PipelineError::Index(IndexStateError::InsertAfterBuild));
    }
    let dim = index.dimension();
    let mut i: usize = 0;
    while i < n
        invariant
            n == jobs@.len(),
            embedding_lens@.len() == n,
            dim == index.dim(),
            0 <= i <= n,
            *index == *old(index),
            *request == *old(request),
            *counter == *old(counter),
            linked(*request, *index, *counter),
            !old(index).is_built(),
            forall|j: int| 0 <= j < i ==> #[trigger] embedding_lens@[j] == dim,
        decreases n - i,
    {
        if embedding_lens[i] != dim {
            return Err(PipelineError::Index(IndexStateError::DimensionMismatch));
        }
        i = i + 1;
    }
    i = 0;
    while i < n
        invariant
            n == jobs@.len(),
            embedding_lens@.len() == n,
            0 <= i <= n,
            *index == *old(index),
            *request == *old(request),
            *counter == *old(counter),
            linked(*request, *index, *counter),
            !old(index).is_built(),
            forall|j: int| 0 <= j < n ==> #[trigger] embedding_lens@[j] == old(index).dim(),
            forall|j: int|
                0 <= j < i ==> request.sources().contains_key(#[trigger] jobs@[j].source_id@),
        decreases n - i,
    {
        if !request.has_source(jobs[i].source_id.as_str()) {
            return Err(PipelineError::Store(StoreError::UnknownSource));
        }
        i = i + 1;
    }
    if counter.last > usize::MAX - n {
        return Err(PipelineError::IdsExhausted);
    }
    let ghost start = counter.last_id();
    let ghost old_request = *request;
    let ghost old_index = *index;
    let mut ids: Vec<usize> = Vec::new();
    i = 0;
    while i < n
        invariant
            n == jobs@.len(),
            embedding_lens@.len() == n,
            0 <= i <= n,
            start + n <= usize::MAX,
            counter.last_id() == start + i,
            linked(*request, *index, *counter),
            !index.is_built(),
            index.dim() == old_index.dim(),
            forall|j: int| 0 <= j < n ==> #[trigger] embedding_lens@[j] == index.dim(),
            forall|j: int|
                0 <= j < n ==> old_request.sources().contains_key(#[trigger] jobs@[j].source_id@),
            forall|id: usize| #[trigger]
                old_request.chunk_texts().contains_key(id) ==> id <= start,
            ids@.len() == i,
            forall|j: int| 0 <= j < i ==> #[trigger] ids@[j] == start + 1 + j,
            index.entries() == old_index.entries() + ids@,
            request.sources() == old_request.sources(),
            request.source_order() == old_request.source_order(),
            request.query_text() == old_request.query_text(),
            forall|j: int|
                0 <= j < i ==> #[trigger] request.chunk_texts()[ids@[j]] == jobs@[j].text@
                    && request.chunk_sources()[ids@[j]] == jobs@[j].source_id@,
            forall|id: usize| #[trigger]
                request.chunk_texts().contains_key(id) <==> (old_request.chunk_texts().contains_key(
                    id,
                ) || ids@.contains(id)),
            forall|id: usize| #[trigger]
                old_request.chunk_texts().contains_key(id) ==> request.chunk_texts()[id]
                    == old_request.chunk_texts()[id] && request.chunk_sources()[id]
                    == old_request.chunk_sources()[id],
        decreases n - i,
    {
        let id = counter.last + 1;
        counter.last = id;
        let job = &jobs[i];
        assert(!request.chunk_texts().contains_key(id)) by {
            if ids@.contains(id) {
                let t = choose|t: int| 0 <= t < ids@.len() && ids@[t] == id;
                assert(ids@[t] == start + 1 + t);
            }
        }
        let ghost prev_ids = ids@;
        let ghost prev_texts = request.chunk_texts();
        let ghost prev_sources = request.chunk_sources();
        let ghost prev_entries = index.entries();
        match request.add_id_to_chunk(job.text.as_str(), job.source_id.as_str(), id) {
            Ok(()) => {},
            Err(e) => {
                return Err(PipelineError::Store(e));
            },
        }
        assert(!index.entries().contains(id)) by {
            if index.entries().contains(id) {
                let t = choose|t: int|
                    0 <= t < index.entries().len() && index.entries()[t] == id;
                assert(prev_texts.contains_key(index.entries()[t]));
            }
        }
        match index.upsert_embedding(embedding_lens[i], id) {
            Ok(()) => {},
            Err(e) => {
                return Err(PipelineError::Index(e));
            },
        }
        ids.push(id);
        i = i + 1;
        proof {
            assert(index.entries() =~= old_index.entries() + ids@);
            assert forall|j: int| 0 <= j < i implies #[trigger] request.chunk_texts()[ids@[j]]
                == jobs@[j].text@ && request.chunk_sources()[ids@[j]] == jobs@[j].source_id@ by {
                if j < i - 1 {
                    assert(ids@[j] == prev_ids[j]);
                    assert(ids@[j] != id);
                    assert(prev_texts[prev_ids[j]] == jobs@[j].text@);
                    assert(prev_sources[prev_ids[j]] == jobs@[j].source_id@);
                }
            }
            assert forall|id2: usize| #[trigger]
                request.chunk_texts().contains_key(id2) <==> (
                old_request.chunk_texts().contains_key(id2) || ids@.contains(id2)) by {
                if ids@.contains(id2) && id2 != id {
                    let t = choose|t: int| 0 <= t < ids@.len() && ids@[t] == id2;
                    assert(prev_ids[t] == id2);
                }
                if prev_ids.contains(id2) {
                    let t = choose|t: int| 0 <= t < prev_ids.len() && prev_ids[t] == id2;
                    assert(ids@[t] == id2);
                }
                if id2 == id {
                    assert(ids@[i - 1] == id);
                }
            }
            assert forall|t: int| 0 <= t < index.entries().len() implies request.chunk_texts().contains_key(
                #[trigger] index.entries()[t],
            ) by {
                if t < index.entries().len() - 1 {
                    assert(index.entries()[t] == prev_entries[t]);
                }
            }
        }
    }
    proof {
        assert forall|a: int, b: int| 0 <= a < ids@.len() && 0 <= b < ids@.len() && a != b implies ids@[a]
            != ids@[b] by {
            assert(ids@[a] == start + 1 + a);
            assert(ids@[b] == start + 1 + b);
        }
    }
    Ok(ids)
}

/// What the sources are after the scrape outcomes `pages[i]` for `urls[i]`
/// are recorded in order: a page sets its source's content, a failure
/// (`None`) leaves it as it was, and a URL with no source is ignored.
pub open spec fn scraped(
    sources: Map<Seq<char>, SearchResult>,
    urls: Seq<Seq<char>>,
    pages: Seq<Option<String>>,
) -> Map<Seq<char>, SearchResult>
    decreases urls.len(),
{
    if urls.len() == 0 || pages.len() != urls.len() {
        sources
    } else {
        let prev = scraped(sources, urls.drop_last(), pages.drop_last());
        let k = source_key(urls.last());
        match pages.last() {
            Some(c) => if prev.contains_key(k) {
                prev.insert(
                    k,
                    SearchResult { name: prev[k].name, url: prev[k].url, content: Some(c) },
                )
            } else {
                prev
            },
            None => prev,
        }
    }
}

/// Records the outcome of scraping each of `urls`: `pages[i]` is the content
/// fetched from `urls[i]`, or `None` where that fetch failed.
pub fn record_scrape_results(request: &mut Request, urls: &Vec<String>, pages: Vec<Option<String>>)
    requires
        old(request).wf(),
        urls@.len() == pages@.len(),
    ensures
        final(request).wf(),
        final(request).sources() == scraped(
            old(request).sources(),
            urls@.map_values(|u: String| u@),
            pages@,
        ),
        final(request).source_order() == old(request).source_order(),
        final(request).query_text() == old(request).query_text(),
        final(request).chunk_texts() == old(request).chunk_texts(),
        final(request).chunk_sources() == old(request).chunk_sources(),
{
    let ghost us = urls@.map_values(|u: String| u@);
    let ghost ps = pages@;
    let ghost start = *request;
    let mut i: usize = 0;
    while i < urls.len()
        invariant
            urls@.len() == pages@.len(),
            us == urls@.map_values(|u: String| u@),
            ps == pages@,
            0 <= i <= urls@.len(),
            request.wf(),
            request.sources() == scraped(start.sources(), us.take(i as int), ps.take(i as int)),
            request.source_order() == start.source_order(),
            request.query_text() == start.query_text(),
            request.chunk_texts() == start.chunk_texts(),
            request.chunk_sources() == start.chunk_sources(),
        decreases urls@.len() - i,
    {
        assert(us.take(i + 1).drop_last() =~= us.take(i as int));
        assert(ps.take(i + 1).drop_last() =~= ps.take(i as int));
        assert(us.take(i + 1).last() == urls@[i as int]@);
        assert(ps.take(i + 1).last() == pages@[i as int]);
        match &pages[i] {
            Some(content) => {
                request.add_webpage_content(urls[i].as_str(), content.clone());
            },
            None => {},
        }
        i = i + 1;
    }
    assert(us.take(urls@.len() as int) =~= us);
    assert(ps.take(urls@.len() as int) =~= ps);
}

} // verus!
