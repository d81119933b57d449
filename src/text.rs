//! Text helpers: whitespace cleaning of extracted page text, and the choice
//! of model backend from the configured base URL.
use vstd::prelude::*;

verus! {

/// Whether `regex` accepts a pattern.
pub uninterp spec fn regex_compiles(pattern: Seq<char>) -> bool;

/// What `regex` gives when every match of `pattern` in `text` is replaced by `rep`.
pub uninterp spec fn regex_replaced(pattern: Seq<char>, text: Seq<char>, rep: Seq<char>) -> Seq<
    char,
>;

/// Relies on `regex::Regex::new`, which accepts or refuses a pattern by its
/// text alone, and on `Regex::replace_all`, whose result depends on the
/// pattern, the text and the replacement alone.
#[verifier::external_body]
fn regex_replace_all(pattern: &str, text: &str, rep: &str) -> (r: Option<String>)
    ensures
        r is Some <==> regex_compiles(pattern@),
        r matches Some(s) ==> s@ == regex_replaced(pattern@, text@, rep@),
{
    match regex::Regex::new(pattern) {
        Ok(re) => Some(re.replace_all(text, rep).to_string()),
        Err(_) => None,
    }
}

/// The pattern of a run of whitespace.
pub const WHITESPACE_RUN: &'static str = "\\s+";

/// Replaces each run of whitespace by a single space.
pub fn clean_text(text: &str) -> (r: String)
    ensures
        regex_compiles(WHITESPACE_RUN@) ==> r@ == regex_replaced(WHITESPACE_RUN@, text@, " "@),
        !regex_compiles(WHITESPACE_RUN@) ==> r@ == text@,
{
    match regex_replace_all(WHITESPACE_RUN, text, " ") {
        Some(cleaned) => cleaned,
        None => text.to_owned(),
    }
}

/// The base URL of the hosted model API.
pub const DEFAULT_OPENAI_BASE_URL: &'static str = "https://api.openai.com/v1";

/// The marker of a base URL served on this machine.
pub const LOCAL_HOST: &'static str = "localhost";

/// A character with the Unicode `White_Space` property, which is what
/// `char::is_whitespace` tests.
pub open spec fn is_white_space(c: char) -> bool {
    let u = c as u32;
    (0x9 <= u && u <= 0xd) || u == 0x20 || u == 0x85 || u == 0xa0 || u == 0x1680 || (0x2000 <= u
        && u <= 0x200a) || u == 0x2028 || u == 0x2029 || u == 0x202f || u == 0x205f || u == 0x3000
}

/// The number of whitespace characters that start `s`.
pub open spec fn leading_white(s: Seq<char>) -> nat
    decreases s.len(),
{
    if s.len() == 0 || !is_white_space(s[0]) {
        0
    } else {
        1 + leading_white(s.drop_first())
    }
}

/// The number of whitespace characters that end `s`.
pub open spec fn trailing_white(s: Seq<char>) -> nat
    decreases s.len(),
{
    if s.len() == 0 || !is_white_space(s.last()) {
        0
    } else {
        1 + trailing_white(s.drop_last())
    }
}

/// The text with leading and trailing whitespace removed.
pub open spec fn trimmed(s: Seq<char>) -> Seq<char> {
    if leading_white(s) >= s.len() {
        Seq::empty()
    } else {
        s.subrange(leading_white(s) as int, s.len() - trailing_white(s))
    }
}

/// Relies on `str::trim`, which removes the leading and trailing characters
/// that have the `White_Space` property.
#[verifier::external_body]
fn trim(s: &str) -> (r: &str)
    ensures
        r@ == trimmed(s@),
{
    s.trim()
}

#[derive(Debug, Clone, Copy, PartialEq, Eq, Structural)]
pub enum Backend {
    /// The hosted API.
    OpenAi,
    /// A model server on this machine.
    Ollama,
}

/// `p` occurs in `s` as a contiguous piece.
pub open spec fn has_substring(s: Seq<char>, p: Seq<char>) -> bool {
    exists|i: int| 0 <= i && i + p.len() <= s.len() && #[trigger] s.subrange(i, i + p.len()) == p
}

fn occurs_at(s: &str, p: &str, at: usize) -> (r: bool)
    requires
        at + p@.len() <= s@.len(),
    ensures
        r == (s@.subrange(at as int, at + p@.len()) == p@),
{
    let n = s.unicode_len();
    let m = p.unicode_len();
    let mut j: usize = 0;
    while j < m
        invariant
            n == s@.len(),
            m == p@.len(),
            at + m <= s@.len(),
            0 <= j <= m,
            forall|t: int| 0 <= t < j ==> s@[at + t] == p@[t],
        decreases m - j,
    {
        if s.get_char(at + j) != p.get_char(j) {
            assert(s@.subrange(at as int, at + m)[j as int] != p@[j as int]);
            return false;
        }
        j = j + 1;
    }
    assert(s@.subrange(at as int, at + m) =~= p@);
    true
}

/// Whether `p` occurs in `s`.
pub fn contains_substring(s: &str, p: &str) -> (r: bool)
    ensures
        r == has_substring(s@, p@),
{
    let n = s.unicode_len();
    let m = p.unicode_len();
    if m > n {
        return false;
    }
    if m == 0 {
        assert(s@.subrange(0int, 0int + p@.len()) =~= p@);
        return true;
    }
    let mut i: usize = 0;
    while i <= n - m
        invariant
            n == s@.len(),
            m == p@.len(),
            1 <= m <= n,
            0 <= i <= n - m + 1,
            forall|t: int| 0 <= t < i ==> #[trigger] s@.subrange(t, t + m) != p@,
        decreases n - m + 1 - i,
    {
        if occurs_at(s, p, i) {
            return true;
        }
        i = i + 1;
    }
    false
}

/// The configured base URL, or the hosted API's when none is set or it is blank.
pub fn base_url_or_default(setting: Option<String>) -> (r: String)
    ensures
        r@ == match setting {
            Some(v) => if trimmed(v@).len() != 0 {
                v@
            } else {
                DEFAULT_OPENAI_BASE_URL@
            },
            None => DEFAULT_OPENAI_BASE_URL@,
        },
{
    match setting {
        Some(v) => {
            if trim(v.as_str()).unicode_len() != 0 {
                v
            } else {
                DEFAULT_OPENAI_BASE_URL.to_owned()
            }
        },
        None => DEFAULT_OPENAI_BASE_URL.to_owned(),
    }
}

/// A base URL on this machine is served by the local model server.
pub fn backend_for(base_url: &str) -> (r: Backend)
    ensures
        r == if has_substring(base_url@, LOCAL_HOST@) {
            Backend::Ollama
        } else {
            Backend::OpenAi
        },
{
    if contains_substring(base_url, LOCAL_HOST) {
        Backend::Ollama
    } else {
        Backend::OpenAi
    }
}

/// The line shown once at startup to say which backend answers.
pub fn startup_message(backend: Backend) -> (r: &'static str)
    ensures
        backend == Backend::Ollama ==> r@ == "Running in local mode using ollama"@,
        backend == Backend::OpenAi ==> r@ == "Running using openai"@,
{
    match backend {
        Backend::Ollama => "Running in local mode using ollama",
        Backend::OpenAi => "Running using openai",
    }
}

} // verus!
