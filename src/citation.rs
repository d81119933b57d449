//! The text that hands the retrieved chunks to the answer generator, each
//! with its citation number.
use vstd::prelude::*;

use crate::store::{push_char, Chunk, ChunkView, Request};

verus! {

pub open spec fn digit_char(d: nat) -> char {
    ((d + 48) as u32) as char
}

/// The decimal digits of `n`, most significant first.
pub open spec fn decimal(n: nat) -> Seq<char>
    decreases n,
{
    if n < 10 {
        seq![digit_char(n)]
    } else {
        decimal(n / 10).push(digit_char(n % 10))
    }
}

/// The entry of one chunk, cited under `number`.
pub open spec fn citation_entry(c: ChunkView, number: nat) -> Seq<char> {
    "Name: "@ + c.name + "\nurl: "@ + c.url + "\nfact: "@ + c.content + "\nid: "@ + decimal(number)
        + "\n\n"@
}

/// The entries of all chunks, numbered from 1 in order.
pub open spec fn citations_text(cs: Seq<ChunkView>) -> Seq<char>
    decreases cs.len(),
{
    if cs.len() == 0 {
        Seq::empty()
    } else {
        citations_text(cs.drop_last()) + citation_entry(cs.last(), cs.len())
    }
}

pub(crate) fn push_decimal(out: &mut String, n: usize)
    ensures
        final(out)@ == old(out)@ + decimal(n as nat),
    decreases n,
{
    if n >= 10 {
        push_decimal(out, n / 10);
    }
    push_char(out, ((n % 10) as u8 + 48) as char);
    assert(final(out)@ =~= old(out)@ + decimal(n as nat)) by {
        if n < 10 {
        }
    }
}

/// The decimal digits of `n`.
pub fn decimal_string(n: usize) -> (r: String)
    ensures
        r@ == decimal(n as nat),
{
    let mut out = String::new();
    push_decimal(&mut out, n);
    assert(out@ =~= decimal(n as nat));
    out
}

/// Lists the chunks as numbered sources: name, url, text and citation number.
pub fn chunks_to_yaml(chunks: &Vec<Chunk>) -> (r: String)
    ensures
        r@ == citations_text(chunks@.map_values(|c: Chunk| c@)),
{
    let ghost cs = chunks@.map_values(|c: Chunk| c@);
    let mut out = String::new();
    let mut i: usize = 0;
    while i < chunks.len()
        invariant
            cs == chunks@.map_values(|c: Chunk| c@),
            0 <= i <= chunks@.len(),
            out@ == citations_text(cs.take(i as int)),
        decreases chunks@.len() - i,
    {
        let c = &chunks[i];
        let ghost before = out@;
        proof {
            reveal_strlit("Name: ");
            reveal_strlit("\nurl: ");
            reveal_strlit("\nfact: ");
            reveal_strlit("\nid: ");
            reveal_strlit("\n\n");
        }
        out.append("Name: ");
        out.append(c.name.as_str());
        out.append("\nurl: ");
        out.append(c.url.as_str());
        out.append("\nfact: ");
        out.append(c.content.as_str());
        out.append("\nid: ");
        push_decimal(&mut out, i + 1);
        out.append("\n\n");
        proof {
            let t = cs.take(i + 1);
            assert(t.drop_last() =~= cs.take(i as int));
            assert(t.last() == c@);
            assert(out@ =~= before + citation_entry(c@, (i + 1) as nat));
        }
        i = i + 1;
    }
    assert(cs.take(chunks@.len() as int) =~= cs);
    out
}

/// The opening of the answer prompt, before the sources.
pub const PROMPT_SOURCES: &'static str = "SOURCES:\n";

/// What stands between the sources and the question.
pub const PROMPT_QUESTION: &'static str = "\nQUESTION:\n";

/// The instructions that close the answer prompt.
pub const PROMPT_INSTRUCTIONS: &'static str = "\n\nINSTRUCTIONS:\nYou are a helpful AI assistant that helps users answer questions using the provided sources. If answer is not in sources, say you don't know rather than making up an answer.\nPlease provide a detailed answer to the question above only using the sources provided.\nInclude in-text citations like this [1] for each significant fact or statement at the end of the sentence.\nAt the end of your response, list all sources in a citation section with the format: [citation number] Name - URL.";

/// The prompt that asks for an answer to `query` from the numbered chunks.
pub fn answer_prompt(query: &str, chunks: &Vec<Chunk>) -> (r: String)
    ensures
        r@ == PROMPT_SOURCES@ + citations_text(chunks@.map_values(|c: Chunk| c@)) + PROMPT_QUESTION@
            + query@ + PROMPT_INSTRUCTIONS@,
{
    let mut out = String::new();
    out.append(PROMPT_SOURCES);
    let sources = chunks_to_yaml(chunks);
    out.append(sources.as_str());
    out.append(PROMPT_QUESTION);
    out.append(query);
    out.append(PROMPT_INSTRUCTIONS);
    assert(out@ =~= PROMPT_SOURCES@ + citations_text(chunks@.map_values(|c: Chunk| c@))
        + PROMPT_QUESTION@ + query@ + PROMPT_INSTRUCTIONS@);
    out
}

/// A retrieved chunk with its source, cited under `number`.
pub struct Citation {
    pub number: usize,
    pub name: String,
    pub url: String,
    pub content: String,
}

/// The citation records of `ids`, in the order given (nearest first when the
/// ids come from a search), numbered from 1; unknown ids are skipped.
pub fn assemble(request: &Request, ids: Vec<usize>) -> (r: Vec<Citation>)
    requires
        request.wf(),
    ensures
        r@.len() == request.resolved(ids@).len(),
        forall|i: int|
            0 <= i < r@.len() ==> {
                &&& #[trigger] r@[i].number == i + 1
                &&& r@[i].name@ == request.resolved(ids@)[i].name
                &&& r@[i].url@ == request.resolved(ids@)[i].url
                &&& r@[i].content@ == request.resolved(ids@)[i].content
            },
{
    let chunks = request.get_chunks(ids);
    let ghost cs = chunks@.map_values(|c: Chunk| c@);
    let mut out: Vec<Citation> = Vec::new();
    let mut i: usize = 0;
    while i < chunks.len()
        invariant
            cs == chunks@.map_values(|c: Chunk| c@),
            0 <= i <= chunks@.len(),
            out@.len() == i,
            forall|j: int|
                0 <= j < i ==> {
                    &&& #[trigger] out@[j].number == j + 1
                    &&& out@[j].name@ == cs[j].name
                    &&& out@[j].url@ == cs[j].url
                    &&& out@[j].content@ == cs[j].content
                },
        decreases chunks@.len() - i,
    {
        let c = &chunks[i];
        out.push(
            Citation {
                number: i + 1,
                name: c.name.clone(),
                url: c.url.clone(),
                content: c.content.clone(),
            },
        );
        i = i + 1;
    }
    out
}

} // verus!
