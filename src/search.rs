//! The search request: which engine is asked, at which endpoint, with which
//! query parameters.
use vstd::prelude::*;

use crate::citation::{decimal, decimal_string};

verus! {

#[derive(Debug, Clone, Copy, PartialEq, Eq, Structural)]
pub enum SearchEngine {
    Bing,
    Searxng,
    DuckDuckGo,
}

pub const DEFAULT_BING_ENDPOINT: &'static str = "https://api.bing.microsoft.com/v7.0/search";

pub const DEFAULT_SEARXNG_ENDPOINT: &'static str = "https://searxng.example.com/search";

pub const DEFAULT_DUCKDUCKGO_ENDPOINT: &'static str = "https://api.duckduckgo.com/";

/// Whether two texts are equal.
pub fn same_text(a: &str, b: &str) -> (r: bool)
    ensures
        r == (a@ == b@),
{
    let n = a.unicode_len();
    if n != b.unicode_len() {
        return false;
    }
    let mut i: usize = 0;
    while i < n
        invariant
            n == a@.len(),
            n == b@.len(),
            0 <= i <= n,
            forall|j: int| 0 <= j < i ==> a@[j] == b@[j],
        decreases n - i,
    {
        if a.get_char(i) != b.get_char(i) {
            return false;
        }
        i = i + 1;
    }
    assert(a@ =~= b@);
    true
}

/// The engine a configured name selects; any other name selects Bing.
pub open spec fn engine_of(name: Seq<char>) -> SearchEngine {
    if name == "searxng"@ {
        SearchEngine::Searxng
    } else if name == "duckduckgo"@ {
        SearchEngine::DuckDuckGo
    } else {
        SearchEngine::Bing
    }
}

pub fn engine_named(name: &str) -> (r: SearchEngine)
    ensures
        r == engine_of(name@),
{
    if same_text(name, "searxng") {
        SearchEngine::Searxng
    } else if same_text(name, "duckduckgo") {
        SearchEngine::DuckDuckGo
    } else {
        SearchEngine::Bing
    }
}

impl SearchEngine {
    /// The endpoint used when none is configured.
    pub fn default_endpoint(&self) -> (r: &'static str)
        ensures
            *self == SearchEngine::Bing ==> r@ == DEFAULT_BING_ENDPOINT@,
            *self == SearchEngine::Searxng ==> r@ == DEFAULT_SEARXNG_ENDPOINT@,
            *self == SearchEngine::DuckDuckGo ==> r@ == DEFAULT_DUCKDUCKGO_ENDPOINT@,
    {
        match self {
            SearchEngine::Bing => DEFAULT_BING_ENDPOINT,
            SearchEngine::Searxng => DEFAULT_SEARXNG_ENDPOINT,
            SearchEngine::DuckDuckGo => DEFAULT_DUCKDUCKGO_ENDPOINT,
        }
    }

    /// The name of the setting that overrides the endpoint.
    pub fn endpoint_setting(&self) -> (r: &'static str)
        ensures
            *self == SearchEngine::Bing ==> r@ == "BING_ENDPOINT"@,
            *self == SearchEngine::Searxng ==> r@ == "SEARXNG_ENDPOINT"@,
            *self == SearchEngine::DuckDuckGo ==> r@ == "DUCKDUCKGO_ENDPOINT"@,
    {
        match self {
            SearchEngine::Bing => "BING_ENDPOINT",
            SearchEngine::Searxng => "SEARXNG_ENDPOINT",
            SearchEngine::DuckDuckGo => "DUCKDUCKGO_ENDPOINT",
        }
    }

    /// Only Bing is called with a subscription key.
    pub fn needs_subscription_key(&self) -> (r: bool)
        ensures
            r == (*self == SearchEngine::Bing),
    {
        match self {
            SearchEngine::Bing => true,
            _ => false,
        }
    }

    /// The query parameters of a search for `query` asking for `count` results.
    pub open spec fn params_spec(&self, query: Seq<char>, count: nat) -> Seq<(Seq<char>, Seq<char>)> {
        match self {
            SearchEngine::Bing => seq![("mkt"@, "en-US"@), ("q"@, query), ("count"@, decimal(count))],
            _ => seq![("q"@, query), ("format"@, "json"@)],
        }
    }

    pub fn search_params(&self, query: &str, count: usize) -> (r: Vec<(String, String)>)
        ensures
            r@.map_values(|p: (String, String)| (p.0@, p.1@)) == self.params_spec(
                query@,
                count as nat,
            ),
    {
        let mut params: Vec<(String, String)> = Vec::new();
        match self {
            SearchEngine::Bing => {
                params.push(("mkt".to_owned(), "en-US".to_owned()));
                params.push(("q".to_owned(), query.to_owned()));
                params.push(("count".to_owned(), decimal_string(count)));
            },
            _ => {
                params.push(("q".to_owned(), query.to_owned()));
                params.push(("format".to_owned(), "json".to_owned()));
            },
        }
        assert(params@.map_values(|p: (String, String)| (p.0@, p.1@)) =~= self.params_spec(
            query@,
            count as nat,
        ));
        params
    }
}

} // verus!
