//! Character-level text building blocks: splitting an input stream into
//! words, joining words with single spaces, and repeating a phrase.
//!
//! All text is `Vec<char>`; the specifications speak of `Seq<char>`.

use vstd::prelude::*;

verus! {

/// The character sequences of a sequence of words.
pub open spec fn views_of(ws: Seq<Vec<char>>) -> Seq<Seq<char>> {
    ws.map_values(|w: Vec<char>| w@)
}

/// Words joined by single spaces, with no leading or trailing separator.
pub open spec fn join_spec(ws: Seq<Seq<char>>) -> Seq<char>
    decreases ws.len(),
{
    if ws.len() == 0 {
        Seq::empty()
    } else if ws.len() == 1 {
        ws[0]
    } else {
        join_spec(ws.drop_last()) + seq![' '] + ws.last()
    }
}

/// `n` copies of one phrase.
pub open spec fn rep_seq(p: Seq<char>, n: nat) -> Seq<Seq<char>> {
    Seq::new(n, |i: int| p)
}

/// A phrase repeated `n` times, the copies joined by single spaces.
pub open spec fn repeat_spec(p: Seq<char>, n: nat) -> Seq<char> {
    join_spec(rep_seq(p, n))
}

/// The non-empty lines of `s`, in order: characters accumulate into the
/// current line, a newline closes it (an empty line is dropped), and a last
/// unterminated line counts.
pub open spec fn split_acc(s: Seq<char>, cur: Seq<char>, acc: Seq<Seq<char>>) -> Seq<Seq<char>>
    decreases s.len(),
{
    if s.len() == 0 {
        if cur.len() > 0 {
            acc.push(cur)
        } else {
            acc
        }
    } else if s[0] == '\n' {
        split_acc(s.skip(1), Seq::empty(), if cur.len() > 0 {
            acc.push(cur)
        } else {
            acc
        })
    } else {
        split_acc(s.skip(1), cur.push(s[0]), acc)
    }
}

/// The word set carried by an input stream: its non-empty lines.
pub open spec fn words_spec(s: Seq<char>) -> Seq<Seq<char>> {
    split_acc(s, Seq::empty(), Seq::empty())
}

proof fn lemma_push_nonempty(acc: Seq<Seq<char>>, cur: Seq<char>)
    requires
        forall|i: int| 0 <= i < acc.len() ==> #[trigger] acc[i].len() > 0,
        cur.len() > 0,
    ensures
        forall|i: int| 0 <= i < acc.push(cur).len() ==> #[trigger] acc.push(cur)[i].len() > 0,
{
    assert forall|i: int| 0 <= i < acc.push(cur).len() implies #[trigger] acc.push(cur)[i].len()
        > 0 by {
        if i < acc.len() {
            assert(acc[i].len() > 0);
        }
    }
}

proof fn lemma_split_acc_nonempty(s: Seq<char>, cur: Seq<char>, acc: Seq<Seq<char>>)
    requires
        forall|i: int| 0 <= i < acc.len() ==> #[trigger] acc[i].len() > 0,
    ensures
        forall|i: int|
            0 <= i < split_acc(s, cur, acc).len() ==> #[trigger] split_acc(s, cur, acc)[i].len()
                > 0,
    decreases s.len(),
{
    if s.len() == 0 {
        if cur.len() > 0 {
            lemma_push_nonempty(acc, cur);
            assert(split_acc(s, cur, acc) == acc.push(cur));
        } else {
            assert(split_acc(s, cur, acc) == acc);
        }
    } else if s[0] == '\n' {
        let closed = if cur.len() > 0 {
            acc.push(cur)
        } else {
            acc
        };
        if cur.len() > 0 {
            lemma_push_nonempty(acc, cur);
        }
        lemma_split_acc_nonempty(s.skip(1), Seq::empty(), closed);
        assert(split_acc(s, cur, acc) == split_acc(s.skip(1), Seq::empty(), closed));
    } else {
        lemma_split_acc_nonempty(s.skip(1), cur.push(s[0]), acc);
        assert(split_acc(s, cur, acc) == split_acc(s.skip(1), cur.push(s[0]), acc));
    }
}

/// The word set never holds an empty word: splitting drops empty lines.
pub proof fn lemma_words_nonempty(s: Seq<char>)
    ensures
        forall|i: int| 0 <= i < words_spec(s).len() ==> #[trigger] words_spec(s)[i].len() > 0,
{
    lemma_split_acc_nonempty(s, Seq::empty(), Seq::empty());
}

/// Pushing a word commutes with taking the views.
pub proof fn lemma_views_push(a: Seq<Vec<char>>, x: Vec<char>)
    ensures
        views_of(a.push(x)) == views_of(a).push(x@),
{
    assert(views_of(a.push(x)) =~= views_of(a).push(x@));
}

/// Append every character of `w` to `out`.
pub(crate) fn push_all(out: &mut Vec<char>, w: &Vec<char>)
    ensures
        final(out)@ == old(out)@ + w@,
{
    let mut j: usize = 0;
    while j < w.len()
        invariant
            j <= w@.len(),
            out@ == old(out)@ + w@.take(j as int),
        decreases w@.len() - j,
    {
        let c = w[j];
        out.push(c);
        j = j + 1;
        proof {
            assert(w@.take(j as int) =~= w@.take(j - 1).push(w@[j - 1]));
        }
    }
    proof {
        assert(w@.take(w@.len() as int) =~= w@);
    }
}

/// Join the words `ws[s..e]` with single spaces.
pub fn join_range(ws: &Vec<Vec<char>>, s: usize, e: usize) -> (r: Vec<char>)
    requires
        s <= e,
        e <= ws@.len(),
    ensures
        r@ == join_spec(views_of(ws@).subrange(s as int, e as int)),
{
    let mut out: Vec<char> = Vec::new();
    let mut k: usize = s;
    proof {
        assert(views_of(ws@).subrange(s as int, s as int) =~= Seq::<Seq<char>>::empty());
    }
    while k < e
        invariant
            s <= k <= e,
            e <= ws@.len(),
            out@ == join_spec(views_of(ws@).subrange(s as int, k as int)),
        decreases e - k,
    {
        if k > s {
            out.push(' ');
        }
        push_all(&mut out, &ws[k]);
        k = k + 1;
        proof {
            let v = views_of(ws@);
            let done = v.subrange(s as int, k as int);
            assert(done.last() == ws@[k - 1]@);
            if k - 1 == s {
                assert(done.len() == 1);
                assert(out@ == done[0]);
            } else {
                assert(done.drop_last() =~= v.subrange(s as int, k - 1));
                assert(out@ == join_spec(done.drop_last()) + seq![' '] + done.last());
            }
        }
    }
    out
}

/// The phrase `p` repeated `n` times, joined by single spaces.
pub fn repeat_phrase(p: &Vec<char>, n: usize) -> (r: Vec<char>)
    ensures
        r@ == repeat_spec(p@, n as nat),
{
    let mut out: Vec<char> = Vec::new();
    let mut k: usize = 0;
    proof {
        assert(rep_seq(p@, 0).len() == 0);
    }
    while k < n
        invariant
            k <= n,
            out@ == repeat_spec(p@, k as nat),
        decreases n - k,
    {
        if k > 0 {
            out.push(' ');
        }
        push_all(&mut out, p);
        k = k + 1;
        proof {
            let done = rep_seq(p@, k as nat);
            assert(done.last() == p@);
            if k == 1 {
                assert(out@ == done[0]);
            } else {
                assert(done.drop_last() =~= rep_seq(p@, (k - 1) as nat));
                assert(out@ == join_spec(done.drop_last()) + seq![' '] + done.last());
            }
        }
    }
    out
}

/// Split an input stream into its word set: the non-empty lines, in order.
pub fn split_words(input: &Vec<char>) -> (r: Vec<Vec<char>>)
    ensures
        views_of(r@) == words_spec(input@),
        forall|i: int| 0 <= i < r@.len() ==> #[trigger] r@[i]@.len() > 0,
{
    proof {
        lemma_words_nonempty(input@);
    }
    let mut acc: Vec<Vec<char>> = Vec::new();
    let mut cur: Vec<char> = Vec::new();
    let mut i: usize = 0;
    proof {
        assert(input@.skip(0) =~= input@);
        assert(views_of(acc@) =~= Seq::<Seq<char>>::empty());
    }
    while i < input.len()
        invariant
            i <= input@.len(),
            words_spec(input@) == split_acc(input@.skip(i as int), cur@, views_of(acc@)),
        decreases input@.len() - i,
    {
        let ghost s = input@.skip(i as int);
        proof {
            assert(s.len() > 0);
            assert(s[0] == input@[i as int]);
            assert(s.skip(1) =~= input@.skip(i as int + 1));
        }
        let c = input[i];
        if c == '\n' {
            if cur.len() > 0 {
                let finished = cur;
                cur = Vec::new();
                proof {
                    lemma_views_push(acc@, finished);
                }
                acc.push(finished);
            } else {
                proof {
                    assert(cur@ =~= Seq::<char>::empty());
                }
            }
        } else {
            cur.push(c);
        }
        i = i + 1;
    }
    proof {
        assert(input@.skip(i as int) =~= Seq::<char>::empty());
    }
    if cur.len() > 0 {
        proof {
            lemma_views_push(acc@, cur);
        }
        acc.push(cur);
    } else {
        proof {
            assert(cur@ =~= Seq::<char>::empty());
        }
    }
    proof {
        assert(views_of(acc@) == words_spec(input@));
        assert forall|i: int| 0 <= i < acc@.len() implies #[trigger] acc@[i]@.len() > 0 by {
            assert(views_of(acc@)[i] == acc@[i]@);
            assert(words_spec(input@)[i].len() > 0);
        }
    }
    acc
}

} // verus!
