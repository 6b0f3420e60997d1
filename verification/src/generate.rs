//! The two target-string generation strategies.
//!
//! Random: draw `n` distinct entries of the word set, in the sampler's order,
//! joined by single spaces. Permutation: shuffle the whole set once, cut the
//! shuffled order into consecutive chunks of `combination` words (the last
//! chunk may be shorter), and turn each chunk into one target string — the
//! chunk's phrase repeated `repetition` times, joined by single spaces.

use vstd::prelude::*;

use rand::seq::SliceRandom;

use crate::text::{
    join_range, join_spec, lemma_views_push, push_all, repeat_phrase, repeat_spec, views_of,
};

verus! {

use vstd::arithmetic::div_mod::{lemma_div_plus_one, lemma_basic_div};

/// Why generation can refuse a request.
#[derive(Debug, PartialEq, Eq, Structural)]
pub enum GenError {
    /// More random words were asked for than the word set holds.
    NotEnoughWords,
}

/// `idx` picks `n` pairwise distinct positions of a sequence of length `len`.
pub open spec fn selection_of(idx: Seq<int>, len: int, n: nat) -> bool {
    &&& idx.len() == n
    &&& forall|i: int| 0 <= i < idx.len() ==> 0 <= #[trigger] idx[i] < len
    &&& forall|i: int, j: int| 0 <= i < j < idx.len() ==> idx[i] != idx[j]
}

/// The words of `ws` at the positions `idx`, in that order.
pub open spec fn select(ws: Seq<Seq<char>>, idx: Seq<int>) -> Seq<Seq<char>> {
    Seq::new(idx.len(), |i: int| ws[idx[i]])
}

/// Consecutive chunks of `c` words each; the last chunk holds what is left.
pub open spec fn chunks_spec(ws: Seq<Seq<char>>, c: int) -> Seq<Seq<Seq<char>>>
    recommends
        c >= 1,
    decreases ws.len(),
        when c >= 1
{
    if ws.len() == 0 {
        Seq::empty()
    } else if ws.len() <= c {
        seq![ws]
    } else {
        seq![ws.take(c)] + chunks_spec(ws.skip(c), c)
    }
}

/// The target string of each chunk of `ws`: the chunk's words joined by
/// single spaces, repeated `rep` times, joined by single spaces.
pub open spec fn tests_spec(ws: Seq<Seq<char>>, c: int, rep: nat) -> Seq<Seq<char>>
    recommends
        c >= 1,
    decreases ws.len(),
        when c >= 1
{
    if ws.len() == 0 {
        Seq::empty()
    } else if ws.len() <= c {
        seq![repeat_spec(join_spec(ws), rep)]
    } else {
        seq![repeat_spec(join_spec(ws.take(c)), rep)] + tests_spec(ws.skip(c), c, rep)
    }
}

/// Chunking produces exactly the ceiling of `len / c` chunks.
pub proof fn lemma_chunks_count(ws: Seq<Seq<char>>, c: int)
    requires
        c >= 1,
    ensures
        chunks_spec(ws, c).len() == (ws.len() + c - 1) / c,
    decreases ws.len(),
{
    if ws.len() == 0 {
        lemma_basic_div(c - 1, c);
    } else if ws.len() <= c {
        lemma_basic_div(ws.len() - 1, c);
        lemma_div_plus_one(ws.len() - 1, c);
    } else {
        lemma_chunks_count(ws.skip(c), c);
        assert(chunks_spec(ws, c).len() == 1 + (ws.len() - c + c - 1) / c);
        lemma_div_plus_one(ws.len() - 1, c);
    }
}

/// The chunks partition the sequence: laid end to end they give it back, so
/// every word stands in exactly one chunk, exactly once.
pub proof fn lemma_chunks_flatten(ws: Seq<Seq<char>>, c: int)
    requires
        c >= 1,
    ensures
        chunks_spec(ws, c).flatten() == ws,
    decreases ws.len(),
{
    if ws.len() == 0 {
        assert(chunks_spec(ws, c).flatten() =~= ws);
    } else if ws.len() <= c {
        let ch = chunks_spec(ws, c);
        ch.lemma_flatten_one_element();
        assert(ch.first() == ws);
    } else {
        let head = seq![ws.take(c)];
        let tail = chunks_spec(ws.skip(c), c);
        lemma_chunks_flatten(ws.skip(c), c);
        vstd::seq_lib::lemma_flatten_concat(head, tail);
        head.lemma_flatten_one_element();
        assert(head.first() == ws.take(c));
        assert(ws.take(c) + ws.skip(c) =~= ws);
    }
}

/// Each produced target string is its chunk's phrase repeated `rep` times:
/// the tests are exactly the chunks, each joined and repeated.
pub proof fn lemma_tests_follow_chunks(ws: Seq<Seq<char>>, c: int, rep: nat)
    requires
        c >= 1,
    ensures
        tests_spec(ws, c, rep) == chunks_spec(ws, c).map_values(
            |ch: Seq<Seq<char>>| repeat_spec(join_spec(ch), rep),
        ),
    decreases ws.len(),
{
    let f = |ch: Seq<Seq<char>>| repeat_spec(join_spec(ch), rep);
    if ws.len() == 0 {
        assert(tests_spec(ws, c, rep) =~= chunks_spec(ws, c).map_values(f));
    } else if ws.len() <= c {
        assert(tests_spec(ws, c, rep) =~= chunks_spec(ws, c).map_values(f));
    } else {
        lemma_tests_follow_chunks(ws.skip(c), c, rep);
        assert(tests_spec(ws, c, rep) =~= chunks_spec(ws, c).map_values(f));
    }
}

/// Relies on rand::seq::index::sample: exactly `n` distinct indices drawn
/// from `0..len` in random order; it panics only when `n > len`.
#[verifier::external_body]
fn sample_indices(len: usize, n: usize) -> (r: Vec<usize>)
    requires
        n <= len,
    ensures
        r@.len() == n,
        forall|i: int| 0 <= i < r@.len() ==> #[trigger] r@[i] < len,
        forall|i: int, j: int| 0 <= i < j < r@.len() ==> r@[i] != r@[j],
{
    rand::seq::index::sample(&mut rand::thread_rng(), len, n).into_vec()
}

/// Relies on rand::seq::SliceRandom::shuffle: an in-place Fisher–Yates
/// permutation — the same words, rearranged.
#[verifier::external_body]
fn shuffle_words(words: &mut Vec<Vec<char>>)
    ensures
        final(words)@.len() == old(words)@.len(),
        views_of(final(words)@).to_multiset() == views_of(old(words)@).to_multiset(),
{
    words.shuffle(&mut rand::thread_rng());
}

/// Join the words of `ws` at the positions `idx`, in that order.
pub fn join_selected(ws: &Vec<Vec<char>>, idx: &Vec<usize>) -> (r: Vec<char>)
    requires
        forall|i: int| 0 <= i < idx@.len() ==> #[trigger] idx@[i] < ws@.len(),
    ensures
        r@ == join_spec(select(views_of(ws@), idx@.map_values(|u: usize| u as int))),
{
    let ghost sel = select(views_of(ws@), idx@.map_values(|u: usize| u as int));
    let mut out: Vec<char> = Vec::new();
    let mut k: usize = 0;
    proof {
        assert(sel.take(0) =~= Seq::<Seq<char>>::empty());
    }
    while k < idx.len()
        invariant
            k <= idx@.len(),
            forall|i: int| 0 <= i < idx@.len() ==> #[trigger] idx@[i] < ws@.len(),
            sel == select(views_of(ws@), idx@.map_values(|u: usize| u as int)),
            out@ == join_spec(sel.take(k as int)),
        decreases idx@.len() - k,
    {
        if k > 0 {
            out.push(' ');
        }
        let wi = idx[k];
        push_all(&mut out, &ws[wi]);
        k = k + 1;
        proof {
            let done = sel.take(k as int);
            assert(done.last() == ws@[idx@[k - 1] as int]@);
            if k == 1 {
                assert(out@ == done[0]);
            } else {
                assert(done.drop_last() =~= sel.take(k - 1));
                assert(out@ == join_spec(done.drop_last()) + seq![' '] + done.last());
            }
        }
    }
    proof {
        assert(sel.take(idx@.len() as int) =~= sel);
    }
    out
}

/// Random strategy: `n` distinct words of the set, in the sampler's order,
/// joined by single spaces; refused outright when the set is too small.
pub fn random(words: &Vec<Vec<char>>, n: usize) -> (r: Result<Vec<char>, GenError>)
    ensures
        n > words@.len() ==> r == Err::<Vec<char>, GenError>(GenError::NotEnoughWords),
        n <= words@.len() ==> (r matches Ok(t) && exists|idx: Seq<int>|
            #[trigger] selection_of(idx, words@.len() as int, n as nat)
                && t@ == join_spec(select(views_of(words@), idx))),
{
    if n > words.len() {
        return Err(GenError::NotEnoughWords);
    }
    let idx = sample_indices(words.len(), n);
    let t = join_selected(words, &idx);
    proof {
        let iidx = idx@.map_values(|u: usize| u as int);
        assert(selection_of(iidx, words@.len() as int, n as nat));
        assert(t@ == join_spec(select(views_of(words@), iidx)));
    }
    Ok(t)
}

/// One target string per consecutive chunk of `c` words, in chunk order.
pub fn chunk_tests(ws: &Vec<Vec<char>>, c: usize, rep: usize) -> (out: Vec<Vec<char>>)
    requires
        c >= 1,
    ensures
        views_of(out@) == tests_spec(views_of(ws@), c as int, rep as nat),
{
    let ghost v = views_of(ws@);
    let len = ws.len();
    let mut out: Vec<Vec<char>> = Vec::new();
    let mut s: usize = 0;
    proof {
        assert(v.skip(0) =~= v);
        assert(views_of(out@) =~= Seq::<Seq<char>>::empty());
    }
    while s < len
        invariant
            c >= 1,
            s <= len,
            len == ws@.len(),
            v == views_of(ws@),
            tests_spec(v, c as int, rep as nat) == views_of(out@) + tests_spec(
                v.skip(s as int),
                c as int,
                rep as nat,
            ),
        decreases len - s,
    {
        let e = if len - s <= c {
            len
        } else {
            s + c
        };
        let phrase = join_range(ws, s, e);
        let test = repeat_phrase(&phrase, rep);
        proof {
            let rem = v.skip(s as int);
            if len - s <= c {
                assert(rem =~= v.subrange(s as int, e as int));
                assert(tests_spec(rem, c as int, rep as nat) =~= seq![test@]);
                assert(v.skip(e as int) =~= Seq::<Seq<char>>::empty());
            } else {
                assert(rem.take(c as int) =~= v.subrange(s as int, e as int));
                assert(rem.skip(c as int) =~= v.skip(e as int));
                assert(tests_spec(rem, c as int, rep as nat) =~= seq![test@] + tests_spec(
                    v.skip(e as int),
                    c as int,
                    rep as nat,
                ));
            }
            lemma_views_push(out@, test);
            assert(views_of(out@).push(test@) + tests_spec(v.skip(e as int), c as int, rep as nat)
                =~= views_of(out@) + (seq![test@] + tests_spec(
                v.skip(e as int),
                c as int,
                rep as nat,
            )));
        }
        out.push(test);
        s = e;
    }
    proof {
        assert(v.skip(len as int) =~= Seq::<Seq<char>>::empty());
        assert(views_of(out@) =~= views_of(out@) + tests_spec(
            v.skip(len as int),
            c as int,
            rep as nat,
        ));
    }
    out
}

/// Permutation strategy: shuffle the whole word set once, then hand back one
/// target string per chunk of the shuffled order.
pub fn permutate(words: Vec<Vec<char>>, combination: usize, repetition: usize) -> (out: Vec<Vec<char>>)
    requires
        combination >= 1,
        repetition >= 1,
    ensures
        out@.len() == (words@.len() + combination - 1) / (combination as int),
        exists|sh: Seq<Seq<char>>|
            {
                &&& #[trigger] sh.to_multiset() == views_of(words@).to_multiset()
                &&& sh.len() == words@.len()
                &&& views_of(out@) == tests_spec(sh, combination as int, repetition as nat)
            },
{
    let mut ws = words;
    shuffle_words(&mut ws);
    let out = chunk_tests(&ws, combination, repetition);
    proof {
        let sh = views_of(ws@);
        assert(sh.to_multiset() == views_of(words@).to_multiset());
        assert(sh.len() == words@.len());
        assert(views_of(out@) == tests_spec(sh, combination as int, repetition as nat));
        lemma_tests_follow_chunks(sh, combination as int, repetition as nat);
        lemma_chunks_count(sh, combination as int);
        assert(out@.len() == views_of(out@).len());
    }
    out
}

} // verus!
