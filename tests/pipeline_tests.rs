use fyin::chunking::CHUNK_SIZE;
use fyin::citation::{answer_prompt, decimal_string};
use fyin::search::{engine_named, same_text, SearchEngine, DEFAULT_BING_ENDPOINT};
use fyin::index::{IndexStateError, VectorIndex};
use fyin::pipeline::{commit_all, record_scrape_results, ChunkIdCounter, PipelineError};
use fyin::store::{get_urls, source_id, Chunk, ChunkJob, Request, SearchResult, StoreError};
use fyin::text::{
    backend_for, base_url_or_default, clean_text, contains_substring, startup_message, Backend,
    DEFAULT_OPENAI_BASE_URL,
};

fn result(name: &str, url: &str) -> SearchResult {
    SearchResult { name: name.to_string(), url: url.to_string(), content: None }
}

fn job(url: &str, text: &str) -> ChunkJob {
    ChunkJob { source_id: source_id(url), text: text.to_string() }
}

#[test]
fn commit_all_assigns_distinct_ids() {
    let mut r = Request::init("q");
    r.add_search_result(result("A", "https://a.com"));
    let mut index = VectorIndex::new(2);
    let mut counter = ChunkIdCounter::new();
    let jobs: Vec<ChunkJob> = (0..50).map(|i| job("https://a.com", &format!("t{}", i))).collect();
    let ids = commit_all(&mut r, &mut index, &mut counter, &jobs, &vec![2; 50]).unwrap();
    assert_eq!(ids.len(), 50);
    let mut sorted = ids.clone();
    sorted.sort();
    sorted.dedup();
    assert_eq!(sorted.len(), 50);
    assert_eq!(ids[0], 1);
    assert_eq!(counter.last(), 50);
    assert_eq!(index.len(), 50);
    assert_eq!(r.get_chunks(vec![ids[7]])[0].content, "t7");
    let more = commit_all(&mut r, &mut index, &mut counter, &vec![job("https://a.com", "x")], &vec![2]);
    assert_eq!(more, Ok(vec![51]));
}

#[test]
fn commit_all_refuses_bad_batches_whole() {
    let mut r = Request::init("q");
    r.add_search_result(result("A", "https://a.com"));
    let mut index = VectorIndex::new(2);
    let mut counter = ChunkIdCounter::new();
    let jobs = vec![job("https://a.com", "one"), job("https://b.com", "two")];
    assert_eq!(
        commit_all(&mut r, &mut index, &mut counter, &jobs, &vec![2]),
        Err(PipelineError::EmbeddingCountMismatch)
    );
    assert_eq!(
        commit_all(&mut r, &mut index, &mut counter, &jobs, &vec![2, 3]),
        Err(PipelineError::Index(IndexStateError::DimensionMismatch))
    );
    assert_eq!(
        commit_all(&mut r, &mut index, &mut counter, &jobs, &vec![2, 2]),
        Err(PipelineError::Store(StoreError::UnknownSource))
    );
    assert_eq!(counter.last(), 0);
    assert_eq!(index.len(), 0);
    assert!(r.get_chunks(vec![1]).is_empty());
    index.build_index().unwrap();
    assert_eq!(
        commit_all(&mut r, &mut index, &mut counter, &vec![job("https://a.com", "x")], &vec![2]),
        Err(PipelineError::Index(IndexStateError::InsertAfterBuild))
    );
}

#[test]
fn scrape_failures_leave_content_absent() {
    let mut r = Request::init("q");
    for i in 0..10 {
        r.add_search_result(result(&format!("S{}", i), &format!("https://s{}.com", i)));
    }
    let urls = get_urls(&r);
    let pages: Vec<Option<String>> = (0..10)
        .map(|i| if i % 3 == 1 { None } else { Some(format!("page {}", i)) })
        .collect();
    record_scrape_results(&mut r, &urls, pages);
    let jobs = r.plan_chunks(CHUNK_SIZE);
    assert_eq!(jobs.len(), 7);
    assert_eq!(get_urls(&r).len(), 10);
    for i in [1, 4, 7] {
        let sid = source_id(&format!("https://s{}.com", i));
        assert!(r.has_source(&sid));
        assert!(jobs.iter().all(|j| j.source_id != sid));
    }
    assert_eq!(jobs[0].text, "page 0");
}

#[test]
fn capital_of_france_scenario() {
    let mut r = Request::init("capital of France");
    r.add_search_result(result("A", "https://a.com"));
    r.add_search_result(result("B", "https://b.com"));
    let urls = get_urls(&r);
    assert_eq!(urls.len(), 2);
    let long_text: Vec<String> = (0..1500).map(|i| format!("paris{}", i)).collect();
    let pages = vec![Some(long_text.join(" ")), None];
    record_scrape_results(&mut r, &urls, pages);

    let jobs = r.plan_chunks(CHUNK_SIZE);
    assert_eq!(jobs.len(), 2);
    let a = source_id("https://a.com");
    assert!(jobs.iter().all(|j| j.source_id == a));

    let mut index = VectorIndex::new(2);
    let mut counter = ChunkIdCounter::new();
    let ids = commit_all(&mut r, &mut index, &mut counter, &jobs, &vec![2, 2]).unwrap();
    index.build_index().unwrap();
    assert_eq!(index.len(), 2);

    let embeddings = [[1.0f64, 0.0], [0.0, 1.0]];
    let query = [0.9f64, 0.1];
    let keys: Vec<u64> = embeddings
        .iter()
        .map(|e| {
            let d: f64 = e.iter().zip(query.iter()).map(|(x, y)| (x - y) * (x - y)).sum();
            d.to_bits()
        })
        .collect();
    let found = index.search(&keys, 5).unwrap();
    assert!(found.len() <= 2);
    assert_eq!(found, vec![ids[0], ids[1]]);
    let records = r.get_chunks(found);
    assert!(records.len() <= 2);
    assert!(records.iter().all(|c| c.name == "A" && c.url == "https://a.com"));
}

#[test]
fn clean_text_collapses_whitespace() {
    assert_eq!(clean_text("a \n\t b   c"), "a b c");
    assert_eq!(clean_text("plain"), "plain");
}

#[test]
fn base_url_defaults_when_blank() {
    assert_eq!(base_url_or_default(None), DEFAULT_OPENAI_BASE_URL);
    assert_eq!(base_url_or_default(Some("   ".to_string())), DEFAULT_OPENAI_BASE_URL);
    assert_eq!(base_url_or_default(Some("http://localhost:11434".to_string())), "http://localhost:11434");
}

#[test]
fn backend_follows_base_url() {
    assert_eq!(backend_for("http://localhost:11434/v1"), Backend::Ollama);
    assert_eq!(backend_for(DEFAULT_OPENAI_BASE_URL), Backend::OpenAi);
    assert_eq!(startup_message(Backend::Ollama), "Running in local mode using ollama");
    assert_eq!(startup_message(Backend::OpenAi), "Running using openai");
}

#[test]
fn contains_substring_cases() {
    assert!(contains_substring("abcabd", "abd"));
    assert!(!contains_substring("abcab", "abd"));
    assert!(contains_substring("x", ""));
    assert!(!contains_substring("", "x"));
}

#[test]
fn search_engine_selection() {
    assert_eq!(engine_named("searxng"), SearchEngine::Searxng);
    assert_eq!(engine_named("duckduckgo"), SearchEngine::DuckDuckGo);
    assert_eq!(engine_named("bing"), SearchEngine::Bing);
    assert_eq!(engine_named("other"), SearchEngine::Bing);
    assert_eq!(SearchEngine::Bing.default_endpoint(), DEFAULT_BING_ENDPOINT);
    assert_eq!(SearchEngine::Searxng.endpoint_setting(), "SEARXNG_ENDPOINT");
    assert!(SearchEngine::Bing.needs_subscription_key());
    assert!(!SearchEngine::DuckDuckGo.needs_subscription_key());
    assert!(same_text("ab", "ab"));
    assert!(!same_text("ab", "abc"));
}

#[test]
fn search_params_per_engine() {
    let bing = SearchEngine::Bing.search_params("capital of France", 10);
    let expected: Vec<(String, String)> = vec![
        ("mkt".to_string(), "en-US".to_string()),
        ("q".to_string(), "capital of France".to_string()),
        ("count".to_string(), "10".to_string()),
    ];
    assert_eq!(bing, expected);
    let searx = SearchEngine::Searxng.search_params("x", 3);
    let expected: Vec<(String, String)> =
        vec![("q".to_string(), "x".to_string()), ("format".to_string(), "json".to_string())];
    assert_eq!(searx, expected);
}

#[test]
fn decimal_and_prompt() {
    assert_eq!(decimal_string(0), "0");
    assert_eq!(decimal_string(1205), "1205");
    let chunks = vec![Chunk { content: "Paris".to_string(), name: "A".to_string(), url: "u".to_string() }];
    let p = answer_prompt("capital?", &chunks);
    assert!(p.starts_with("SOURCES:\nName: A\nurl: u\nfact: Paris\nid: 1\n\n\nQUESTION:\ncapital?\n\nINSTRUCTIONS:\n"));
    assert!(p.ends_with("[citation number] Name - URL."));
}
