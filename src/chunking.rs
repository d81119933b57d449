//! Splitting content into pieces of a bounded number of words.
use vstd::prelude::*;

use crate::text::is_white_space;

verus! {

/// The number of words in a chunk.
pub const CHUNK_SIZE: usize = 1000;

/// The maximal runs of non-whitespace characters of a text, in order.
pub open spec fn words_of(s: Seq<char>) -> Seq<Seq<char>>
    decreases s.len(),
{
    if s.len() == 0 {
        Seq::empty()
    } else {
        let prev = words_of(s.drop_last());
        let c = s.last();
        if is_white_space(c) {
            prev
        } else if s.len() >= 2 && !is_white_space(s[s.len() - 2]) {
            prev.drop_last().push(prev.last().push(c))
        } else {
            prev.push(seq![c])
        }
    }
}

/// Relies on `str::split_whitespace`, which splits a text at runs of
/// characters with the `White_Space` property and drops empty pieces.
#[verifier::external_body]
fn split_words(s: &str) -> (r: Vec<String>)
    ensures
        r@.map_values(|w: String| w@) == words_of(s@),
{
    s.split_whitespace().map(|w| w.to_string()).collect()
}

/// Words joined by single spaces.
pub open spec fn join_words(ws: Seq<Seq<char>>) -> Seq<char>
    decreases ws.len(),
{
    if ws.len() == 0 {
        Seq::empty()
    } else if ws.len() == 1 {
        ws[0]
    } else {
        join_words(ws.drop_last()) + seq![' '] + ws.last()
    }
}

/// Consecutive groups of `size` words (the last one may be shorter), each
/// joined by single spaces.
pub open spec fn chunk_pieces(ws: Seq<Seq<char>>, size: nat) -> Seq<Seq<char>>
    decreases ws.len(),
{
    if ws.len() == 0 || size == 0 {
        Seq::empty()
    } else if ws.len() <= size {
        seq![join_words(ws)]
    } else {
        seq![join_words(ws.take(size as int))] + chunk_pieces(ws.skip(size as int), size)
    }
}

/// Joins `words[from..to]` with single spaces.
fn join_range(words: &Vec<String>, from: usize, to: usize) -> (r: String)
    requires
        from <= to <= words@.len(),
    ensures
        r@ == join_words(words@.map_values(|w: String| w@).subrange(from as int, to as int)),
{
    let ghost ws = words@.map_values(|w: String| w@);
    let mut out = String::new();
    let mut j: usize = from;
    while j < to
        invariant
            from <= j <= to <= words@.len(),
            ws == words@.map_values(|w: String| w@),
            out@ == join_words(ws.subrange(from as int, j as int)),
        decreases to - j,
    {
        let ghost prev = out@;
        let ghost sub = ws.subrange(from as int, j + 1);
        assert(sub.drop_last() =~= ws.subrange(from as int, j as int));
        assert(sub.last() == words@[j as int]@);
        if j > from {
            proof {
                reveal_strlit(" ");
            }
            out.append(" ");
        }
        out.append(words[j].as_str());
        proof {
            if j == from {
                assert(out@ =~= sub[0]);
            } else {
                assert(out@ =~= prev + seq![' '] + sub.last());
            }
        }
        j = j + 1;
    }
    out
}

/// Groups words into pieces of `chunk_size` words joined by single spaces.
pub fn chunk_words(words: &Vec<String>, chunk_size: usize) -> (r: Vec<String>)
    requires
        chunk_size > 0,
    ensures
        r@.map_values(|c: String| c@) == chunk_pieces(
            words@.map_values(|w: String| w@),
            chunk_size as nat,
        ),
{
    let ghost ws = words@.map_values(|w: String| w@);
    let n = words.len();
    let mut out: Vec<String> = Vec::new();
    let mut i: usize = 0;
    assert(ws.skip(0) =~= ws);
    assert(out@.map_values(|c: String| c@) + ws.skip(0) =~= ws.skip(0));
    while i < n
        invariant
            n == words@.len(),
            chunk_size > 0,
            ws == words@.map_values(|w: String| w@),
            0 <= i <= n,
            out@.map_values(|c: String| c@) + chunk_pieces(ws.skip(i as int), chunk_size as nat)
                == chunk_pieces(ws, chunk_size as nat),
        decreases n - i,
    {
        let end = if n - i <= chunk_size {
            n
        } else {
            i + chunk_size
        };
        let piece = join_range(words, i, end);
        let ghost before = out@.map_values(|c: String| c@);
        let ghost rest = ws.skip(i as int);
        proof {
            if rest.len() <= chunk_size {
                assert(rest =~= ws.subrange(i as int, end as int));
                assert(ws.skip(end as int) =~= Seq::<Seq<char>>::empty());
                assert(chunk_pieces(rest, chunk_size as nat) == seq![piece@]);
            } else {
                assert(rest.take(chunk_size as int) =~= ws.subrange(i as int, end as int));
                assert(rest.skip(chunk_size as int) =~= ws.skip(end as int));
                assert(chunk_pieces(rest, chunk_size as nat) == seq![piece@] + chunk_pieces(
                    ws.skip(end as int),
                    chunk_size as nat,
                ));
            }
        }
        out.push(piece);
        i = end;
        proof {
            assert(out@.map_values(|c: String| c@) =~= before.push(piece@));
            assert(before.push(piece@) + chunk_pieces(ws.skip(i as int), chunk_size as nat)
                =~= before + (seq![piece@] + chunk_pieces(ws.skip(i as int), chunk_size as nat)));
        }
    }
    assert(ws.skip(n as int) =~= Seq::<Seq<char>>::empty());
    assert(out@.map_values(|c: String| c@) + Seq::<Seq<char>>::empty() =~= out@.map_values(
        |c: String| c@,
    ));
    out
}

/// The content cut into pieces of at most `chunk_size` words.
pub fn chunk(content: &str, chunk_size: usize) -> (r: Vec<String>)
    requires
        chunk_size > 0,
    ensures
        r@.map_values(|c: String| c@) == chunk_pieces(words_of(content@), chunk_size as nat),
{
    let words = split_words(content);
    chunk_words(&words, chunk_size)
}

} // verus!
