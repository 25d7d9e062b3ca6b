use vstd::prelude::*;
use crate::text::{chars_of, string_of};

verus! {

/// The stored form of a history: each entry followed by a newline.
pub open spec fn encoded(es: Seq<Seq<char>>) -> Seq<char>
    decreases es.len(),
{
    if es.len() == 0 {
        Seq::empty()
    } else {
        encoded(es.drop_last()) + es.last().push('\n')
    }
}

/// The pieces of `t` between newlines; there is one more piece than there are
/// newlines.
pub open spec fn split_lines(t: Seq<char>) -> Seq<Seq<char>>
    decreases t.len(),
{
    if t.len() == 0 {
        seq![Seq::empty()]
    } else {
        let w = split_lines(t.drop_last());
        if t.last() == '\n' {
            w.push(Seq::empty())
        } else {
            w.update(w.len() - 1, w.last().push(t.last()))
        }
    }
}

/// The entries read back from stored text: its lines, where a final newline
/// ends the last line rather than starting an empty one.
pub open spec fn decoded(t: Seq<char>) -> Seq<Seq<char>> {
    let p = split_lines(t);
    if p.last().len() == 0 {
        p.drop_last()
    } else {
        p
    }
}

/// No entry holds a newline.
pub open spec fn single_lines(es: Seq<Seq<char>>) -> bool {
    forall|i: int, j: int| 0 <= i < es.len() && 0 <= j < es[i].len() ==> es[i][j] != '\n'
}

proof fn lemma_split_lines_nonempty(t: Seq<char>)
    ensures
        split_lines(t).len() > 0,
    decreases t.len(),
{
    if t.len() > 0 {
        lemma_split_lines_nonempty(t.drop_last());
    }
}

proof fn lemma_split_lines_extend(a: Seq<char>, b: Seq<char>)
    requires
        forall|j: int| 0 <= j < b.len() ==> b[j] != '\n',
    ensures
        split_lines(a + b) == split_lines(a).update(
            split_lines(a).len() - 1,
            split_lines(a).last() + b,
        ),
    decreases b.len(),
{
    lemma_split_lines_nonempty(a);
    if b.len() == 0 {
        assert(a + b =~= a);
        assert(split_lines(a).last() + b =~= split_lines(a).last());
        assert(split_lines(a).update(split_lines(a).len() - 1, split_lines(a).last())
            =~= split_lines(a));
    } else {
        let b0 = b.drop_last();
        assert((a + b).drop_last() =~= a + b0);
        lemma_split_lines_extend(a, b0);
        assert(b[b.len() - 1] != '\n');
        assert((a + b).last() == b.last());
        let s = split_lines(a);
        let w = split_lines(a + b0);
        assert(w.len() == s.len());
        assert(w.last() == s.last() + b0);
        assert(split_lines(a + b) == w.update(w.len() - 1, w.last().push(b.last())));
        assert((s.last() + b0).push(b.last()) =~= s.last() + b);
        assert(split_lines(a + b) =~= split_lines(a).update(
            split_lines(a).len() - 1,
            split_lines(a).last() + b,
        ));
    }
}

proof fn lemma_split_encoded(es: Seq<Seq<char>>)
    requires
        single_lines(es),
    ensures
        split_lines(encoded(es)) == es.push(Seq::empty()),
    decreases es.len(),
{
    if es.len() > 0 {
        let init = es.drop_last();
        let e = es.last();
        assert(single_lines(init)) by {
            assert forall|i: int, j: int| 0 <= i < init.len() && 0 <= j < init[i].len() implies init[i][j]
                != '\n' by {
                assert(init[i] == es[i]);
            }
        }
        lemma_split_encoded(init);
        assert forall|j: int| 0 <= j < e.len() implies e[j] != '\n' by {
            assert(es[es.len() - 1] == e);
        }
        lemma_split_lines_extend(encoded(init), e);
        let t = encoded(es);
        assert(t == (encoded(init) + e).push('\n'));
        assert(t.drop_last() =~= encoded(init) + e);
        assert(Seq::<char>::empty() + e =~= e);
        assert(init.push(Seq::empty()).update(init.len() as int, e) =~= es);
        assert(split_lines(t) =~= es.push(Seq::empty()));
    }
}

/// Stored entries read back as they were, provided that none holds a newline.
pub proof fn lemma_decode_encode(es: Seq<Seq<char>>)
    requires
        single_lines(es),
    ensures
        decoded(encoded(es)) == es,
{
    lemma_split_encoded(es);
    assert(es.push(Seq::empty()).drop_last() =~= es);
}

/// The text that stores `entries`.
pub fn encode_history(entries: &Vec<String>) -> (r: String)
    ensures
        r@ == encoded(entries.deep_view()),
{
    let mut out: Vec<char> = Vec::new();
    let mut i: usize = 0;
    while i < entries.len()
        invariant
            i <= entries@.len(),
            out@ == encoded(entries.deep_view().subrange(0, i as int)),
        decreases entries.len() - i,
    {
        let cs = chars_of(entries[i].as_str());
        let mut k: usize = 0;
        let ghost start = out@;
        while k < cs.len()
            invariant
                k <= cs@.len(),
                out@ == start + cs@.subrange(0, k as int),
            decreases cs.len() - k,
        {
            out.push(cs[k]);
            k = k + 1;
            assert(out@ =~= start + cs@.subrange(0, k as int));
        }
        out.push('\n');
        let ghost done = entries.deep_view().subrange(0, i + 1);
        assert(done.drop_last() =~= entries.deep_view().subrange(0, i as int));
        assert(cs@.subrange(0, k as int) =~= cs@);
        i = i + 1;
        assert(out@ =~= encoded(done));
    }
    assert(entries.deep_view().subrange(0, i as int) =~= entries.deep_view());
    string_of(&out)
}

/// The entries stored in `text`.
pub fn decode_history(text: &str) -> (r: Vec<String>)
    ensures
        r.deep_view() == decoded(text@),
{
    let t = chars_of(text);
    let mut done: Vec<String> = Vec::new();
    let mut cur: Vec<char> = Vec::new();
    let mut i: usize = 0;
    while i < t.len()
        invariant
            i <= t@.len(),
            done.deep_view().push(cur@) == split_lines(t@.subrange(0, i as int)),
        decreases t.len() - i,
    {
        let ghost p = t@.subrange(0, i as int);
        assert(t@.subrange(0, i + 1).drop_last() =~= p);
        let ghost before = done.deep_view();
        if t[i] == '\n' {
            let line = string_of(&cur);
            done.push(line);
            cur = Vec::new();
            assert(done.deep_view() =~= before.push(split_lines(p).last()));
            assert(done.deep_view().push(cur@) =~= split_lines(p).push(Seq::empty()));
        } else {
            cur.push(t[i]);
            assert(done.deep_view().push(cur@) =~= split_lines(p).update(
                split_lines(p).len() - 1,
                split_lines(p).last().push(t@[i as int]),
            ));
        }
        i = i + 1;
    }
    assert(t@.subrange(0, t@.len() as int) =~= t@);
    if cur.len() > 0 {
        let ghost before = done.deep_view();
        done.push(string_of(&cur));
        assert(done.deep_view() =~= before.push(cur@));
    } else {
        assert(done.deep_view() =~= done.deep_view().push(cur@).drop_last());
    }
    done
}

} // verus!
