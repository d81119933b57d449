//! Properties that relate several operations of the store.
use vstd::prelude::*;

use crate::pipeline::scraped;
use crate::store::{normalized_url, source_key, ChunkJob, Request, SearchResult};

verus! {

/// Two sources added one after the other whose URLs normalize alike (they
/// differ only in letter case, query string or fragment) leave one record,
/// the one added last.
pub proof fn lemma_url_dedup(r0: Request, r1: Request, r2: Request, a: SearchResult, b: SearchResult)
    requires
        r1.sources() == r0.sources().insert(source_key(a.url@), a),
        r2.sources() == r1.sources().insert(source_key(b.url@), b),
        normalized_url(a.url@) == normalized_url(b.url@),
    ensures
        r2.sources().dom() == r0.sources().dom().insert(source_key(a.url@)),
        r2.sources()[source_key(a.url@)] == b,
        r0.sources() == Map::<Seq<char>, SearchResult>::empty() ==> r2.sources().len() == 1,
{
    assert(r2.sources().dom() =~= r0.sources().dom().insert(source_key(a.url@)));
    if r0.sources() == Map::<Seq<char>, SearchResult>::empty() {
        assert(r0.sources().dom() =~= Set::<Seq<char>>::empty());
        assert(r2.sources().dom() =~= set![source_key(a.url@)]);
        assert(set![source_key(a.url@)].len() == 1) by {
            assert(set![source_key(a.url@)] =~= Set::<Seq<char>>::empty().insert(source_key(a.url@)));
        }
    }
}

/// Every recorded chunk id resolves to exactly one record: the chunk's text
/// with the name and URL of the source it was recorded under.
pub proof fn lemma_chunk_resolves(r: Request, id: usize)
    requires
        r.wf(),
        r.chunk_texts().contains_key(id),
    ensures
        r.sources().contains_key(r.chunk_sources()[id]),
        r.resolved(seq![id]).len() == 1,
        r.resolved(seq![id])[0].content == r.chunk_texts()[id],
        r.resolved(seq![id])[0].name == r.sources()[r.chunk_sources()[id]].name@,
        r.resolved(seq![id])[0].url == r.sources()[r.chunk_sources()[id]].url@,
{
    assert(seq![id].drop_last() =~= Seq::<usize>::empty());
    assert(seq![id].last() == id);
    assert(r.resolved(Seq::<usize>::empty()) == Seq::<crate::store::ChunkView>::empty());
    assert(r.chunk_sources().contains_key(id));
}

/// Recording scrape outcomes keeps every source; a source that had no content
/// has content afterwards exactly when some fetch of a URL with its id
/// succeeded, so failed fetches leave nothing behind.
pub proof fn lemma_scrape_failures_leave_no_content(
    sources: Map<Seq<char>, SearchResult>,
    urls: Seq<Seq<char>>,
    pages: Seq<Option<String>>,
    k: Seq<char>,
)
    requires
        urls.len() == pages.len(),
        sources.contains_key(k),
        sources[k].content is None,
    ensures
        scraped(sources, urls, pages).dom() == sources.dom(),
        scraped(sources, urls, pages)[k].content is Some <==> exists|i: int|
            0 <= i < urls.len() && source_key(#[trigger] urls[i]) == k && pages[i] is Some,
    decreases urls.len(),
{
    if urls.len() > 0 {
        let us = urls.drop_last();
        let ps = pages.drop_last();
        lemma_scrape_failures_leave_no_content(sources, us, ps, k);
        let prev = scraped(sources, us, ps);
        let last = urls.len() - 1;
        assert(scraped(sources, urls, pages).dom() =~= sources.dom());
        if exists|i: int| 0 <= i < us.len() && source_key(#[trigger] us[i]) == k && ps[i] is Some {
            let i = choose|i: int| 0 <= i < us.len() && source_key(#[trigger] us[i]) == k && ps[i] is Some;
            assert(urls[i] == us[i]);
        }
        if exists|i: int| 0 <= i < urls.len() && source_key(#[trigger] urls[i]) == k && pages[i] is Some {
            let i = choose|i: int| 0 <= i < urls.len() && source_key(#[trigger] urls[i]) == k && pages[i] is Some;
            if i < last {
                assert(us[i] == urls[i]);
            }
        }
    }
}

/// Recording `N` embedded chunks into a store that has none leaves exactly
/// `N` chunks, each under its own id and each with a source id.
pub proof fn lemma_batch_chunk_count(r0: Request, r1: Request, jobs: Seq<ChunkJob>, ids: Seq<usize>)
    requires
        r1.wf(),
        r0.chunk_texts() == Map::<usize, Seq<char>>::empty(),
        ids.len() == jobs.len(),
        ids.no_duplicates(),
        forall|id: usize| #[trigger]
            r1.chunk_texts().contains_key(id) <==> (r0.chunk_texts().contains_key(id)
                || ids.contains(id)),
    ensures
        r1.chunk_texts().len() == jobs.len(),
        r1.chunk_sources().len() == jobs.len(),
{
    assert(r1.chunk_texts().dom() =~= ids.to_set());
    ids.unique_seq_to_set();
}

/// The number of fetches that succeeded.
pub open spec fn count_fetched(pages: Seq<Option<String>>) -> nat
    decreases pages.len(),
{
    if pages.len() == 0 {
        0
    } else {
        count_fetched(pages.drop_last()) + if pages.last() is Some {
            1nat
        } else {
            0nat
        }
    }
}

/// The ids of the sources that have content.
pub open spec fn with_content(m: Map<Seq<char>, SearchResult>) -> Set<Seq<char>> {
    Set::new(|k: Seq<char>| m.contains_key(k) && m[k].content is Some)
}

/// Scraping sources that have no content yet, one fetch per source, leaves
/// content on exactly as many sources as there were successful fetches.
pub proof fn lemma_scrape_content_count(
    sources: Map<Seq<char>, SearchResult>,
    urls: Seq<Seq<char>>,
    pages: Seq<Option<String>>,
)
    requires
        sources.dom().finite(),
        urls.len() == pages.len(),
        forall|k: Seq<char>| #[trigger] sources.contains_key(k) ==> sources[k].content is None,
        forall|i: int| 0 <= i < urls.len() ==> sources.contains_key(source_key(#[trigger] urls[i])),
        forall|i: int, j: int|
            0 <= i < j < urls.len() ==> source_key(#[trigger] urls[i]) != source_key(
                #[trigger] urls[j],
            ),
    ensures
        with_content(scraped(sources, urls, pages)).finite(),
        with_content(scraped(sources, urls, pages)).len() == count_fetched(pages),
    decreases urls.len(),
{
    let after = scraped(sources, urls, pages);
    assert forall|k: Seq<char>| sources.contains_key(k) implies after.contains_key(k) by {
        lemma_scrape_failures_leave_no_content(sources, urls, pages, k);
    }
    if urls.len() == 0 {
        assert(with_content(after) =~= Set::<Seq<char>>::empty());
    } else {
        let us = urls.drop_last();
        let ps = pages.drop_last();
        let prev = scraped(sources, us, ps);
        let k = source_key(urls.last());
        lemma_scrape_content_count(sources, us, ps);
        lemma_scrape_failures_leave_no_content(sources, us, ps, k);
        lemma_scrape_failures_leave_no_content(sources, urls, pages, k);
        assert(sources.contains_key(source_key(urls[urls.len() - 1])));
        assert(!(prev[k].content is Some)) by {
            if prev[k].content is Some {
                let i = choose|i: int|
                    0 <= i < us.len() && source_key(#[trigger] us[i]) == k && ps[i] is Some;
                assert(us[i] == urls[i]);
                assert(source_key(urls[i]) != source_key(urls[urls.len() - 1]));
            }
        }
        assert(pages.last() is Some ==> after == prev.insert(
            k,
            SearchResult { name: prev[k].name, url: prev[k].url, content: pages.last() },
        ));
        if pages.last() is Some {
            assert(with_content(after) =~= with_content(prev).insert(k));
        } else {
            assert(with_content(after) =~= with_content(prev));
        }
    }
}

} // verus!
