use fyin::chunking::{chunk, chunk_words, CHUNK_SIZE};
use fyin::citation::chunks_to_yaml;
use fyin::store::{
    get_urls, hash_string, normalize_url, source_id, Chunk, Request, SearchResult, StoreError,
};

fn result(name: &str, url: &str) -> SearchResult {
    SearchResult { name: name.to_string(), url: url.to_string(), content: None }
}

#[test]
fn hash_string_is_sha256_hex() {
    assert_eq!(
        hash_string("abc"),
        "ba7816bf8f01cfea414140de5dae2223b00361a396177a9cb410ff61f20015ad"
    );
}

#[test]
fn normalize_url_drops_query_and_lowercases() {
    assert_eq!(normalize_url("https://Example.COM/Path?utm=1#top"), "https://example.com/path");
    assert_eq!(normalize_url("https://a.com/x#frag?no"), "https://a.com/x");
    assert_eq!(normalize_url(""), "");
}

#[test]
fn source_id_hashes_normalized_url() {
    assert_eq!(source_id("https://A.com/?q=1"), hash_string("https://a.com/"));
    assert_eq!(source_id("https://a.com/x"), source_id("HTTPS://A.COM/X#part"));
    assert_ne!(source_id("https://a.com/x"), source_id("https://a.com/y"));
}

#[test]
fn init_is_empty() {
    let r = Request::init("capital of France");
    assert_eq!(r.query(), "capital of France");
    assert!(get_urls(&r).is_empty());
    assert!(r.get_chunks(vec![1, 2]).is_empty());
}

#[test]
fn same_normalized_url_gives_one_record() {
    let mut r = Request::init("q");
    r.add_search_result(result("First", "https://A.com/page?ref=1"));
    r.add_search_result(result("Second", "https://a.com/page"));
    r.add_search_result(result("Third", "https://a.com/PAGE#section"));
    let urls = get_urls(&r);
    assert_eq!(urls.len(), 1);
    assert_eq!(urls[0], "https://a.com/PAGE#section");
}

#[test]
fn distinct_urls_keep_insertion_order() {
    let mut r = Request::init("q");
    r.add_search_result(result("B", "https://b.com"));
    r.add_search_result(result("A", "https://a.com"));
    r.add_search_result(result("C", "https://c.com"));
    assert_eq!(get_urls(&r), vec!["https://b.com", "https://a.com", "https://c.com"]);
}

#[test]
fn content_for_unknown_url_is_dropped() {
    let mut r = Request::init("q");
    r.add_search_result(result("A", "https://a.com"));
    r.add_webpage_content("https://elsewhere.com", "text".to_string());
    assert!(!r.has_source(&source_id("https://elsewhere.com")));
    let jobs = r.plan_chunks(CHUNK_SIZE);
    assert!(jobs.is_empty());
}

#[test]
fn content_is_last_writer_wins() {
    let mut r = Request::init("q");
    r.add_search_result(result("A", "https://a.com"));
    r.add_webpage_content("https://a.com", "first".to_string());
    r.add_webpage_content("https://A.com?again", "second version".to_string());
    let jobs = r.plan_chunks(CHUNK_SIZE);
    assert_eq!(jobs.len(), 1);
    assert_eq!(jobs[0].text, "second version");
    assert_eq!(jobs[0].source_id, source_id("https://a.com"));
}

#[test]
fn chunk_ids_are_linked_to_sources() {
    let mut r = Request::init("q");
    r.add_search_result(result("A", "https://a.com"));
    let sid = source_id("https://a.com");
    assert_eq!(r.add_id_to_chunk("some text", &sid, 7), Ok(()));
    let chunks = r.get_chunks(vec![7]);
    assert_eq!(chunks.len(), 1);
    assert_eq!(chunks[0].content, "some text");
    assert_eq!(chunks[0].name, "A");
    assert_eq!(chunks[0].url, "https://a.com");
}

#[test]
fn duplicate_chunk_id_is_refused() {
    let mut r = Request::init("q");
    r.add_search_result(result("A", "https://a.com"));
    let sid = source_id("https://a.com");
    assert_eq!(r.add_id_to_chunk("one", &sid, 1), Ok(()));
    assert_eq!(r.add_id_to_chunk("two", &sid, 1), Err(StoreError::DuplicateChunkId));
    assert_eq!(r.get_chunks(vec![1])[0].content, "one");
}

#[test]
fn chunk_of_unknown_source_is_refused() {
    let mut r = Request::init("q");
    assert_eq!(r.add_id_to_chunk("one", "nope", 1), Err(StoreError::UnknownSource));
    assert!(r.get_chunks(vec![1]).is_empty());
}

#[test]
fn get_chunks_skips_unknown_ids_and_keeps_order() {
    let mut r = Request::init("q");
    r.add_search_result(result("A", "https://a.com"));
    r.add_search_result(result("B", "https://b.com"));
    let a = source_id("https://a.com");
    let b = source_id("https://b.com");
    r.add_id_to_chunk("alpha", &a, 1).unwrap();
    r.add_id_to_chunk("beta", &b, 2).unwrap();
    let chunks = r.get_chunks(vec![2, 99, 1, 2]);
    let texts: Vec<&str> = chunks.iter().map(|c| c.content.as_str()).collect();
    assert_eq!(texts, vec!["beta", "alpha", "beta"]);
    assert_eq!(chunks[1].name, "A");
    assert_eq!(chunks[0].url, "https://b.com");
}

#[test]
fn chunk_splits_on_whitespace() {
    assert_eq!(chunk("a b  c\nd\te", 2), vec!["a b", "c d", "e"]);
    assert_eq!(chunk("   ", 3), Vec::<String>::new());
    assert_eq!(chunk("one", 1000), vec!["one"]);
}

#[test]
fn chunk_words_bounds_pieces() {
    let words: Vec<String> = (0..2500).map(|i| format!("w{}", i)).collect();
    let pieces = chunk_words(&words, CHUNK_SIZE);
    assert_eq!(pieces.len(), 3);
    assert_eq!(pieces[0].split(' ').count(), 1000);
    assert_eq!(pieces[2].split(' ').count(), 500);
    assert!(pieces[1].starts_with("w1000 w1001"));
    assert!(pieces[2].ends_with("w2499"));
}

#[test]
fn plan_chunks_follows_source_order() {
    let mut r = Request::init("q");
    r.add_search_result(result("A", "https://a.com"));
    r.add_search_result(result("B", "https://b.com"));
    r.add_search_result(result("C", "https://c.com"));
    r.add_webpage_content("https://c.com", "c1 c2 c3".to_string());
    r.add_webpage_content("https://a.com", "a1 a2".to_string());
    let jobs = r.plan_chunks(2);
    let texts: Vec<&str> = jobs.iter().map(|j| j.text.as_str()).collect();
    assert_eq!(texts, vec!["a1 a2", "c1 c2", "c3"]);
    assert_eq!(jobs[1].source_id, source_id("https://c.com"));
}

#[test]
fn chunks_to_yaml_numbers_from_one() {
    let chunks = vec![
        Chunk { content: "Paris".to_string(), name: "A".to_string(), url: "https://a.com".to_string() },
        Chunk { content: "Lyon".to_string(), name: "B".to_string(), url: "https://b.com".to_string() },
    ];
    assert_eq!(
        chunks_to_yaml(&chunks),
        "Name: A\nurl: https://a.com\nfact: Paris\nid: 1\n\nName: B\nurl: https://b.com\nfact: Lyon\nid: 2\n\n"
    );
    assert_eq!(chunks_to_yaml(&vec![]), "");
}

#[test]
fn chunks_to_yaml_writes_multi_digit_numbers() {
    let chunks: Vec<Chunk> = (0..12)
        .map(|i| Chunk { content: format!("f{}", i), name: "N".to_string(), url: "u".to_string() })
        .collect();
    let text = chunks_to_yaml(&chunks);
    assert!(text.ends_with("Name: N\nurl: u\nfact: f11\nid: 12\n\n"));
    assert!(text.contains("fact: f9\nid: 10\n"));
}

#[test]
fn search_result_to_string() {
    let r = SearchResult { name: "A".to_string(), url: "https://a.com".to_string(), content: None };
    assert_eq!(r.to_string(), "name: A, url: https://a.com");
}

#[test]
fn assemble_numbers_citations_in_order() {
    let mut r = Request::init("q");
    r.add_search_result(result("A", "https://a.com"));
    r.add_search_result(result("B", "https://b.com"));
    r.add_id_to_chunk("alpha", &source_id("https://a.com"), 3).unwrap();
    r.add_id_to_chunk("beta", &source_id("https://b.com"), 5).unwrap();
    let cites = fyin::citation::assemble(&r, vec![5, 8, 3]);
    assert_eq!(cites.len(), 2);
    assert_eq!(cites[0].number, 1);
    assert_eq!(cites[0].name, "B");
    assert_eq!(cites[0].content, "beta");
    assert_eq!(cites[1].number, 2);
    assert_eq!(cites[1].url, "https://a.com");
}

#[test]
fn first_results_keeps_at_most_limit() {
    let rs: Vec<SearchResult> = (0..5).map(|i| result(&format!("N{}", i), &format!("https://n{}.com", i))).collect();
    let kept = fyin::store::first_results(rs.clone(), 3);
    assert_eq!(kept.len(), 3);
    assert_eq!(kept[2].name, "N2");
    assert_eq!(fyin::store::first_results(rs.clone(), 10).len(), 5);
    assert_eq!(fyin::store::first_results(rs, 0).len(), 0);
}

#[test]
fn add_search_results_adds_in_order_with_dedup() {
    let mut r = Request::init("q");
    r.add_search_results(vec![
        result("A", "https://a.com"),
        result("B", "https://b.com"),
        result("A again", "https://A.com?x"),
    ]);
    assert_eq!(get_urls(&r), vec!["https://A.com?x", "https://b.com"]);
}

#[test]
fn search_limit_reaches_the_store() {
    let mut r = Request::init("q");
    let rs: Vec<SearchResult> = (0..20).map(|i| result("S", &format!("https://s{}.com", i))).collect();
    r.add_search_results(fyin::store::first_results(rs, 10));
    assert_eq!(get_urls(&r).len(), 10);
}

#[test]
fn hash_string_is_64_lower_hex_digits() {
    let h = hash_string("https://a.com");
    assert_eq!(h.len(), 64);
    assert!(h.chars().all(|c| c.is_ascii_digit() || ('a'..='f').contains(&c)));
}

#[test]
fn chunk_of_unicode_whitespace() {
    assert_eq!(chunk("a\u{00A0}b\u{3000}\u{2028}c", 2), vec!["a b", "c"]);
    assert_eq!(chunk("\u{2003}\n", 2), Vec::<String>::new());
}
