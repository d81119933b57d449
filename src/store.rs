//! The per-query store: the sources found by search, their scraped content,
//! and the linkage from chunk ids to chunk text and to the source each chunk
//! was cut from.
use sha2::Digest;
use std::collections::HashMap;
use vstd::hash_map::StringHashMap;
use vstd::prelude::*;

use crate::chunking::{chunk, chunk_pieces, words_of};

verus! {

broadcast use vstd::std_specs::hash::group_hash_axioms;

/// The lowercase hexadecimal SHA-256 digest of the UTF-8 encoding of a text.
pub uninterp spec fn sha256_hex(s: Seq<char>) -> Seq<char>;

pub open spec fn is_lower_hex_digit(c: char) -> bool {
    ('0' <= c && c <= '9') || ('a' <= c && c <= 'f')
}

/// Relies on `sha2::Sha256` (`update` then `finalize`) and on the lower-hex
/// formatting of the 32-byte digest, two digits per byte: the result depends
/// on the input text alone.
#[verifier::external_body]
pub fn hash_string(input: &str) -> (r: String)
    ensures
        r@ == sha256_hex(input@),
        r@.len() == 64,
        forall|i: int| 0 <= i < r@.len() ==> is_lower_hex_digit(#[trigger] r@[i]),
{
    let mut hasher = sha2::Sha256::new();
    hasher.update(input.as_bytes());
    let result = hasher.finalize();
    format!("{:x}", result)
}

/// A character that starts the query string or the fragment of a URL.
pub open spec fn is_url_suffix_mark(c: char) -> bool {
    c == '?' || c == '#'
}

/// The number of leading characters of a URL before its query string or fragment.
pub open spec fn url_base_len(s: Seq<char>) -> nat
    decreases s.len(),
{
    if s.len() == 0 || is_url_suffix_mark(s[0]) {
        0
    } else {
        1 + url_base_len(s.drop_first())
    }
}

pub open spec fn ascii_lower(c: char) -> char {
    if 'A' <= c && c <= 'Z' {
        ((c as u32) + 32) as char
    } else {
        c
    }
}

/// A URL without query string and fragment, with ASCII letters lowercased.
pub open spec fn normalized_url(s: Seq<char>) -> Seq<char> {
    s.take(url_base_len(s) as int).map_values(|c: char| ascii_lower(c))
}

/// The id of the source found at a URL.
pub open spec fn source_key(url: Seq<char>) -> Seq<char> {
    sha256_hex(normalized_url(url))
}

proof fn lemma_url_base_len(s: Seq<char>, i: int)
    requires
        0 <= i <= s.len(),
        forall|j: int| 0 <= j < i ==> !is_url_suffix_mark(#[trigger] s[j]),
        i == s.len() || is_url_suffix_mark(s[i]),
    ensures
        url_base_len(s) == i,
    decreases s.len(),
{
    if s.len() > 0 && !is_url_suffix_mark(s[0]) {
        let t = s.drop_first();
        assert forall|j: int| 0 <= j < i - 1 implies !is_url_suffix_mark(#[trigger] t[j]) by {
            assert(t[j] == s[j + 1]);
        }
        if i - 1 < t.len() {
            assert(t[i - 1] == s[i]);
        }
        lemma_url_base_len(t, i - 1);
    }
}

fn ascii_lower_char(c: char) -> (r: char)
    ensures
        r == ascii_lower(c),
{
    if 'A' <= c && c <= 'Z' {
        ((c as u8) + 32) as char
    } else {
        c
    }
}

/// Relies on `String::push`: the character is appended at the end.
#[verifier::external_body]
pub(crate) fn push_char(s: &mut String, c: char)
    ensures
        final(s)@ == old(s)@.push(c),
{
    s.push(c);
}

/// Drops the query string and the fragment of a URL and lowercases its ASCII
/// letters, so that spellings of one page share one source id.
pub fn normalize_url(url: &str) -> (r: String)
    ensures
        r@ == normalized_url(url@),
{
    let n = url.unicode_len();
    let mut out = String::new();
    let mut i: usize = 0;
    while i < n && !(url.get_char(i) == '?' || url.get_char(i) == '#')
        invariant
            n == url@.len(),
            0 <= i <= n,
            forall|j: int| 0 <= j < i ==> !is_url_suffix_mark(#[trigger] url@[j]),
            out@ == url@.take(i as int).map_values(|c: char| ascii_lower(c)),
        decreases n - i,
    {
        let c = url.get_char(i);
        push_char(&mut out, ascii_lower_char(c));
        i = i + 1;
        assert(out@ =~= url@.take(i as int).map_values(|c: char| ascii_lower(c)));
    }
    proof {
        lemma_url_base_len(url@, i as int);
    }
    out
}

/// The id of the source found at a URL: the digest of the normalized URL.
pub fn source_id(url: &str) -> (r: String)
    ensures
        r@ == source_key(url@),
{
    let normalized = normalize_url(url);
    hash_string(normalized.as_str())
}

/// A page found by search, with its content once it has been scraped.
#[derive(Clone)]
pub struct SearchResult {
    pub name: String,
    pub url: String,
    pub content: Option<String>,
}

impl SearchResult {
    /// The name and URL of the page, as one line.
    pub fn to_string(&self) -> (r: String)
        ensures
            r@ == "name: "@ + self.name@ + ", url: "@ + self.url@,
    {
        proof {
            reveal_strlit("name: ");
            reveal_strlit(", url: ");
        }
        let mut out = String::new();
        out.append("name: ");
        out.append(self.name.as_str());
        out.append(", url: ");
        out.append(self.url.as_str());
        assert(out@ =~= "name: "@ + self.name@ + ", url: "@ + self.url@);
        out
    }
}

/// A chunk of text together with the source it was cut from.
#[derive(Clone)]
pub struct Chunk {
    pub content: String,
    pub name: String,
    pub url: String,
}

pub struct ChunkView {
    pub content: Seq<char>,
    pub name: Seq<char>,
    pub url: Seq<char>,
}

impl View for Chunk {
    type V = ChunkView;

    open spec fn view(&self) -> ChunkView {
        ChunkView { content: self.content@, name: self.name@, url: self.url@ }
    }
}

pub struct User {
    pub id: i32,
    pub username: String,
    pub password_hash: String,
}

/// Why a chunk could not be recorded.
#[derive(Debug, Clone, Copy, PartialEq, Eq, Structural)]
pub enum StoreError {
    /// The chunk id has been used before.
    DuplicateChunkId,
    /// No source is stored under the given source id.
    UnknownSource,
}

/// The sources after each of `rs` is added in order.
pub open spec fn sources_after(sources: Map<Seq<char>, SearchResult>, rs: Seq<SearchResult>) -> Map<
    Seq<char>,
    SearchResult,
>
    decreases rs.len(),
{
    if rs.len() == 0 {
        sources
    } else {
        sources_after(sources, rs.drop_last()).insert(source_key(rs.last().url@), rs.last())
    }
}

/// The source order after each of `rs` is added in order: a source id is
/// listed when it is first seen.
pub open spec fn order_after(
    sources: Map<Seq<char>, SearchResult>,
    order: Seq<Seq<char>>,
    rs: Seq<SearchResult>,
) -> Seq<Seq<char>>
    decreases rs.len(),
{
    if rs.len() == 0 {
        order
    } else {
        let prev = order_after(sources, order, rs.drop_last());
        let k = source_key(rs.last().url@);
        if sources_after(sources, rs.drop_last()).contains_key(k) {
            prev
        } else {
            prev.push(k)
        }
    }
}

/// The first `limit` search results, or all of them if there are fewer.
pub fn first_results(results: Vec<SearchResult>, limit: usize) -> (r: Vec<SearchResult>)
    ensures
        r@ == results@.take(if limit < results@.len() { limit as int } else { results@.len() as int }),
{
    let mut results = results;
    let ghost all = results@;
    results.truncate(limit);
    assert(all.take(all.len() as int) =~= all);
    results
}

/// A piece of a source's content waiting to be embedded.
pub struct ChunkJob {
    pub source_id: String,
    pub text: String,
}

impl View for ChunkJob {
    type V = (Seq<char>, Seq<char>);

    open spec fn view(&self) -> (Seq<char>, Seq<char>) {
        (self.source_id@, self.text@)
    }
}

/// The jobs for one source: one per piece of its content, if it has any.
pub open spec fn source_jobs(key: Seq<char>, src: SearchResult, size: nat) -> Seq<
    (Seq<char>, Seq<char>),
> {
    match src.content {
        Some(c) => chunk_pieces(words_of(c@), size).map_values(|t: Seq<char>| (key, t)),
        None => Seq::empty(),
    }
}

/// The jobs for the sources listed in `order`, source after source.
pub open spec fn planned_jobs(
    sources: Map<Seq<char>, SearchResult>,
    order: Seq<Seq<char>>,
    size: nat,
) -> Seq<(Seq<char>, Seq<char>)>
    decreases order.len(),
{
    if order.len() == 0 {
        Seq::empty()
    } else {
        planned_jobs(sources, order.drop_last(), size) + source_jobs(
            order.last(),
            sources[order.last()],
            size,
        )
    }
}

/// Everything gathered for one query.
pub struct Request {
    query: String,
    search_map: StringHashMap<SearchResult>,
    search_order: Vec<String>,
    chunk_id_chunk_map: HashMap<usize, String>,
    chunk_id_to_search_id: HashMap<usize, String>,
}

impl Request {
    pub closed spec fn query_text(&self) -> Seq<char> {
        self.query@
    }

    /// The sources, by source id.
    pub closed spec fn sources(&self) -> Map<Seq<char>, SearchResult> {
        self.search_map@
    }

    /// The source ids, in the order in which the sources were first added.
    pub closed spec fn source_order(&self) -> Seq<Seq<char>> {
        self.search_order@.map_values(|s: String| s@)
    }

    /// The text of each chunk, by chunk id.
    pub closed spec fn chunk_texts(&self) -> Map<usize, Seq<char>> {
        self.chunk_id_chunk_map@.map_values(|s: String| s@)
    }

    /// The source id of each chunk, by chunk id.
    pub closed spec fn chunk_sources(&self) -> Map<usize, Seq<char>> {
        self.chunk_id_to_search_id@.map_values(|s: String| s@)
    }

    /// Source ids are the digests of their sources' normalized URLs and are
    /// listed once each; every chunk has a text, a source id, and a live source.
    pub open spec fn wf(&self) -> bool {
        &&& self.source_order().no_duplicates()
        &&& forall|k: Seq<char>| #[trigger]
            self.sources().contains_key(k) <==> self.source_order().contains(k)
        &&& forall|k: Seq<char>| #[trigger]
            self.sources().contains_key(k) ==> k == source_key(self.sources()[k].url@)
        &&& self.chunk_texts().dom() == self.chunk_sources().dom()
        &&& forall|id: usize| #[trigger]
            self.chunk_sources().contains_key(id) ==> self.sources().contains_key(
                self.chunk_sources()[id],
            )
    }

    /// The record that a known chunk id resolves to.
    pub open spec fn chunk_record(&self, id: usize) -> ChunkView {
        let src = self.sources()[self.chunk_sources()[id]];
        ChunkView { content: self.chunk_texts()[id], name: src.name@, url: src.url@ }
    }

    /// The records of the known ids among `ids`, in order.
    pub open spec fn resolved(&self, ids: Seq<usize>) -> Seq<ChunkView>
        decreases ids.len(),
    {
        if ids.len() == 0 {
            Seq::empty()
        } else {
            let rest = self.resolved(ids.drop_last());
            if self.chunk_texts().contains_key(ids.last()) {
                rest.push(self.chunk_record(ids.last()))
            } else {
                rest
            }
        }
    }

    pub fn init(query: &str) -> (r: Request)
        ensures
            r.wf(),
            r.query_text() == query@,
            r.sources() == Map::<Seq<char>, SearchResult>::empty(),
            r.source_order() == Seq::<Seq<char>>::empty(),
            r.chunk_texts() == Map::<usize, Seq<char>>::empty(),
            r.chunk_sources() == Map::<usize, Seq<char>>::empty(),
    {
        let r = Request {
            query: query.to_owned(),
            search_map: StringHashMap::new(),
            search_order: Vec::new(),
            chunk_id_chunk_map: HashMap::new(),
            chunk_id_to_search_id: HashMap::new(),
        };
        assert(r.source_order() =~= Seq::<Seq<char>>::empty());
        assert(r.chunk_texts() =~= Map::<usize, Seq<char>>::empty());
        assert(r.chunk_sources() =~= Map::<usize, Seq<char>>::empty());
        r
    }

    pub fn query(&self) -> (r: &String)
        ensures
            r@ == self.query_text(),
    {
        &self.query
    }

    pub fn has_source(&self, source_id: &str) -> (r: bool)
        ensures
            r == self.sources().contains_key(source_id@),
    {
        self.search_map.contains_key(source_id)
    }

    /// Adds a source, or replaces the one stored under the same source id.
    pub fn add_search_result(&mut self, search_result: SearchResult)
        requires
            old(self).wf(),
        ensures
            final(self).wf(),
            final(self).sources() == old(self).sources().insert(
                source_key(search_result.url@),
                search_result,
            ),
            final(self).source_order() == if old(self).sources().contains_key(
                source_key(search_result.url@),
            ) {
                old(self).source_order()
            } else {
                old(self).source_order().push(source_key(search_result.url@))
            },
            final(self).query_text() == old(self).query_text(),
            final(self).chunk_texts() == old(self).chunk_texts(),
            final(self).chunk_sources() == old(self).chunk_sources(),
    {
        let key = source_id(search_result.url.as_str());
        let ghost k = key@;
        if !self.search_map.contains_key(key.as_str()) {
            let ghost old_order = self.source_order();
            self.search_order.push(key.clone());
            assert(self.source_order() =~= old_order.push(k));
            assert forall|x: Seq<char>| self.source_order().contains(x) <==> (
            old_order.contains(x) || x == k) by {
                if x == k {
                    assert(self.source_order()[old_order.len() as int] == k);
                }
                if self.source_order().contains(x) {
                    let j = choose|j: int|
                        0 <= j < self.source_order().len() && self.source_order()[j] == x;
                    if j < old_order.len() {
                        assert(old_order[j] == x);
                    }
                }
                if old_order.contains(x) {
                    let j = choose|j: int| 0 <= j < old_order.len() && old_order[j] == x;
                    assert(self.source_order()[j] == x);
                }
            }
        }
        self.search_map.insert(key, search_result);
    }

    /// Adds the search results in order, as `add_search_result` does each.
    pub fn add_search_results(&mut self, results: Vec<SearchResult>)
        requires
            old(self).wf(),
        ensures
            final(self).wf(),
            final(self).sources() == sources_after(old(self).sources(), results@),
            final(self).source_order() == order_after(
                old(self).sources(),
                old(self).source_order(),
                results@,
            ),
            final(self).query_text() == old(self).query_text(),
            final(self).chunk_texts() == old(self).chunk_texts(),
            final(self).chunk_sources() == old(self).chunk_sources(),
    {
        let ghost all = results@;
        let ghost start = *self;
        let mut rest = results;
        let n = rest.len();
        let mut i: usize = 0;
        while rest.len() > 0
            invariant
                all.len() == n,
                all.len() == i + rest@.len(),
                rest@ == all.skip(i as int),
                self.wf(),
                self.sources() == sources_after(start.sources(), all.take(i as int)),
                self.source_order() == order_after(
                    start.sources(),
                    start.source_order(),
                    all.take(i as int),
                ),
                self.query_text() == start.query_text(),
                self.chunk_texts() == start.chunk_texts(),
                self.chunk_sources() == start.chunk_sources(),
            decreases rest@.len(),
        {
            let next = rest.remove(0);
            assert(all.take(i + 1).drop_last() =~= all.take(i as int));
            assert(all.take(i + 1).last() == next);
            self.add_search_result(next);
            i = i + 1;
            assert(rest@ =~= all.skip(i as int));
        }
        assert(all.take(i as int) =~= all);
    }

    /// Sets the content of the source found at `url`. A URL whose source id is
    /// not stored is ignored.
    pub fn add_webpage_content(&mut self, url: &str, content: String)
        requires
            old(self).wf(),
        ensures
            final(self).wf(),
            old(self).sources().contains_key(source_key(url@)) ==> final(self).sources()
                == old(self).sources().insert(
                source_key(url@),
                (SearchResult {
                    name: old(self).sources()[source_key(url@)].name,
                    url: old(self).sources()[source_key(url@)].url,
                    content: Some(content),
                }),
            ),
            !old(self).sources().contains_key(source_key(url@)) ==> final(self).sources()
                == old(self).sources(),
            final(self).source_order() == old(self).source_order(),
            final(self).query_text() == old(self).query_text(),
            final(self).chunk_texts() == old(self).chunk_texts(),
            final(self).chunk_sources() == old(self).chunk_sources(),
    {
        let key = source_id(url);
        let updated = match self.search_map.get(key.as_str()) {
            Some(found) => Some(
                SearchResult { name: found.name.clone(), url: found.url.clone(), content: Some(content) },
            ),
            None => None,
        };
        if let Some(record) = updated {
            self.search_map.insert(key, record);
        }
    }

    /// Records the text of chunk `id` and the source it was cut from.
    pub fn add_id_to_chunk(&mut self, chunk: &str, search_result_id: &str, id: usize) -> (r: Result<
        (),
        StoreError,
    >)
        requires
            old(self).wf(),
        ensures
            final(self).wf(),
            old(self).chunk_texts().contains_key(id) ==> r == Err::<(), StoreError>(
                StoreError::DuplicateChunkId,
            ),
            !old(self).chunk_texts().contains_key(id) && !old(self).sources().contains_key(
                search_result_id@,
            ) ==> r == Err::<(), StoreError>(StoreError::UnknownSource),
            r is Ok <==> !old(self).chunk_texts().contains_key(id) && old(
                self,
            ).sources().contains_key(search_result_id@),
            r is Ok ==> final(self).chunk_texts() == old(self).chunk_texts().insert(id, chunk@),
            r is Ok ==> final(self).chunk_sources() == old(self).chunk_sources().insert(
                id,
                search_result_id@,
            ),
            r is Err ==> final(self).chunk_texts() == old(self).chunk_texts(),
            r is Err ==> final(self).chunk_sources() == old(self).chunk_sources(),
            final(self).sources() == old(self).sources(),
            final(self).source_order() == old(self).source_order(),
            final(self).query_text() == old(self).query_text(),
    {
        if self.chunk_id_chunk_map.contains_key(&id) {
            return Err(StoreError::DuplicateChunkId);
        }
        if !self.search_map.contains_key(search_result_id) {
            return Err(StoreError::UnknownSource);
        }
        let ghost old_texts = self.chunk_texts();
        let ghost old_sources = self.chunk_sources();
        self.chunk_id_chunk_map.insert(id, chunk.to_owned());
        self.chunk_id_to_search_id.insert(id, search_result_id.to_owned());
        assert(self.chunk_texts() =~= old_texts.insert(id, chunk@));
        assert(self.chunk_sources() =~= old_sources.insert(id, search_result_id@));
        Ok(())
    }

    /// The chunk records of `ids`, in order; unknown ids are skipped.
    pub fn get_chunks(&self, ids: Vec<usize>) -> (r: Vec<Chunk>)
        requires
            self.wf(),
        ensures
            r@.map_values(|c: Chunk| c@) == self.resolved(ids@),
    {
        let mut out: Vec<Chunk> = Vec::new();
        let mut i: usize = 0;
        while i < ids.len()
            invariant
                self.wf(),
                0 <= i <= ids@.len(),
                out@.map_values(|c: Chunk| c@) == self.resolved(ids@.take(i as int)),
            decreases ids@.len() - i,
        {
            let id = ids[i];
            let ghost before = out@.map_values(|c: Chunk| c@);
            assert(ids@.take(i + 1).drop_last() =~= ids@.take(i as int));
            if let Some(text) = self.chunk_id_chunk_map.get(&id) {
                assert(self.chunk_texts().contains_key(id));
                assert(self.chunk_sources().contains_key(id));
                if let Some(search_id) = self.chunk_id_to_search_id.get(&id) {
                    if let Some(src) = self.search_map.get(search_id.as_str()) {
                        out.push(
                            Chunk { content: text.clone(), name: src.name.clone(), url: src.url.clone() },
                        );
                        assert(out@.map_values(|c: Chunk| c@) =~= before.push(
                            self.chunk_record(id),
                        ));
                    }
                }
            } else {
                assert(!self.chunk_texts().contains_key(id));
            }
            i = i + 1;
        }
        assert(ids@.take(ids@.len() as int) =~= ids@);
        out
    }
}

impl Request {
    /// One job per piece of content, for the sources that have content, in
    /// the order in which the sources were added.
    pub fn plan_chunks(&self, chunk_size: usize) -> (r: Vec<ChunkJob>)
        requires
            self.wf(),
            chunk_size > 0,
        ensures
            r@.map_values(|j: ChunkJob| j@) == planned_jobs(
                self.sources(),
                self.source_order(),
                chunk_size as nat,
            ),
    {
        let mut jobs: Vec<ChunkJob> = Vec::new();
        let mut i: usize = 0;
        while i < self.search_order.len()
            invariant
                self.wf(),
                chunk_size > 0,
                0 <= i <= self.search_order@.len(),
                jobs@.map_values(|j: ChunkJob| j@) == planned_jobs(
                    self.sources(),
                    self.source_order().take(i as int),
                    chunk_size as nat,
                ),
            decreases self.search_order@.len() - i,
        {
            let key = &self.search_order[i];
            let ghost order = self.source_order().take(i + 1);
            assert(order.drop_last() =~= self.source_order().take(i as int));
            assert(order.last() == key@);
            assert(self.source_order().contains(key@));
            let ghost base = jobs@.map_values(|j: ChunkJob| j@);
            if let Some(src) = self.search_map.get(key.as_str()) {
                if let Some(content) = &src.content {
                    let pieces = chunk(content.as_str(), chunk_size);
                    let ghost added = chunk_pieces(words_of(content@), chunk_size as nat).map_values(
                        |t: Seq<char>| (key@, t),
                    );
                    let mut j: usize = 0;
                    while j < pieces.len()
                        invariant
                            0 <= j <= pieces@.len(),
                            pieces@.map_values(|c: String| c@) == chunk_pieces(
                                words_of(content@),
                                chunk_size as nat,
                            ),
                            added == chunk_pieces(words_of(content@), chunk_size as nat).map_values(
                                |t: Seq<char>| (key@, t),
                            ),
                            jobs@.map_values(|j: ChunkJob| j@) == base + added.take(j as int),
                        decreases pieces@.len() - j,
                    {
                        let ghost before = jobs@.map_values(|j: ChunkJob| j@);
                        jobs.push(ChunkJob { source_id: key.clone(), text: pieces[j].clone() });
                        assert(pieces@.map_values(|c: String| c@)[j as int] == pieces@[j as int]@);
                        assert(added.take(j + 1) =~= added.take(j as int).push(added[j as int]));
                        assert(jobs@.map_values(|j: ChunkJob| j@) =~= before.push(added[j as int]));
                        j = j + 1;
                    }
                    assert(added.take(pieces@.len() as int) =~= added);
                } else {
                    assert(source_jobs(key@, *src, chunk_size as nat) =~= Seq::empty());
                    assert(base + Seq::<(Seq<char>, Seq<char>)>::empty() =~= base);
                }
            }
            i = i + 1;
        }
        assert(self.source_order().take(self.search_order@.len() as int) =~= self.source_order());
        jobs
    }
}

/// The URLs of all stored sources, in the order in which they were added.
pub fn get_urls(request: &Request) -> (r: Vec<String>)
    requires
        request.wf(),
    ensures
        r@.len() == request.source_order().len(),
        forall|i: int|
            0 <= i < r@.len() ==> #[trigger] r@[i]@ == request.sources()[request.source_order()[i]].url@,
{
    let mut urls: Vec<String> = Vec::new();
    let mut i: usize = 0;
    while i < request.search_order.len()
        invariant
            request.wf(),
            0 <= i <= request.search_order@.len(),
            urls@.len() == i,
            forall|j: int|
                0 <= j < i ==> #[trigger] urls@[j]@ == request.sources()[request.source_order()[j]].url@,
        decreases request.search_order@.len() - i,
    {
        let key = &request.search_order[i];
        assert(request.source_order()[i as int] == key@);
        assert(request.source_order().contains(key@));
        if let Some(src) = request.search_map.get(key.as_str()) {
            urls.push(src.url.clone());
        }
        i = i + 1;
    }
    urls
}

} // verus!
