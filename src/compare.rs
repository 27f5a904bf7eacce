//! Whitespace-insensitive comparison of program output with expected output.
use vstd::prelude::*;

verus! {

/// Bytes that separate output tokens: space, tab, line feed, vertical tab,
/// form feed and carriage return.
pub open spec fn is_space_byte(b: u8) -> bool {
    b == 32u8 || b == 9u8 || b == 10u8 || b == 11u8 || b == 12u8 || b == 13u8
}

/// The maximal runs of non-whitespace bytes of `s`, in order.
///
/// Comparing two texts by their tokens is the same as comparing them after
/// collapsing each run of whitespace to one space and trimming both ends.
pub open spec fn tokens(s: Seq<u8>) -> Seq<Seq<u8>>
    decreases s.len(),
{
    if s.len() == 0 {
        Seq::empty()
    } else {
        let prev = tokens(s.drop_last());
        let b = s.last();
        if is_space_byte(b) {
            prev
        } else if s.len() >= 2 && !is_space_byte(s[s.len() - 2]) {
            prev.drop_last().push(prev.last().push(b))
        } else {
            prev.push(seq![b])
        }
    }
}

/// Two outputs are equal under the normalization rule.
pub open spec fn same_output(actual: Seq<u8>, expected: Seq<u8>) -> bool {
    tokens(actual) == tokens(expected)
}

/// A non-empty run of non-whitespace bytes.
pub open spec fn is_word(w: Seq<u8>) -> bool {
    w.len() > 0 && forall|i: int| 0 <= i < w.len() ==> !is_space_byte(#[trigger] w[i])
}

/// The words of `ws` separated by single spaces.
pub open spec fn join_words(ws: Seq<Seq<u8>>) -> Seq<u8>
    decreases ws.len(),
{
    if ws.len() == 0 {
        Seq::empty()
    } else if ws.len() == 1 {
        ws[0]
    } else {
        join_words(ws.drop_last()) + seq![32u8] + ws.last()
    }
}

/// `s` with each run of whitespace replaced by one space and both ends trimmed.
pub open spec fn normalized(s: Seq<u8>) -> Seq<u8> {
    join_words(tokens(s))
}

proof fn lemma_tokens_are_words(s: Seq<u8>)
    ensures
        forall|i: int| 0 <= i < tokens(s).len() ==> is_word(#[trigger] tokens(s)[i]),
    decreases s.len(),
{
    if s.len() > 0 {
        let prev = tokens(s.drop_last());
        lemma_tokens_are_words(s.drop_last());
        let b = s.last();
        if !is_space_byte(b) && s.len() >= 2 && !is_space_byte(s[s.len() - 2]) {
            lemma_tokens_nonempty_after_token_byte(s.drop_last());
            let w = prev.last().push(b);
            assert(is_word(prev[prev.len() - 1]));
            assert forall|k: int| 0 <= k < w.len() implies !is_space_byte(#[trigger] w[k]) by {
                if k < w.len() - 1 {
                    assert(w[k] == prev.last()[k]);
                }
            }
        } else if !is_space_byte(b) {
            let w = seq![b];
            assert forall|k: int| 0 <= k < w.len() implies !is_space_byte(#[trigger] w[k]) by {}
        }
    }
}

proof fn lemma_join_shape(ws: Seq<Seq<u8>>)
    requires
        ws.len() >= 1,
        forall|i: int| 0 <= i < ws.len() ==> is_word(#[trigger] ws[i]),
    ensures
        join_words(ws).len() >= ws.last().len(),
        join_words(ws).subrange(
            join_words(ws).len() - ws.last().len(),
            join_words(ws).len() as int,
        ) == ws.last(),
        ws.len() == 1 ==> join_words(ws) == ws.last(),
        ws.len() >= 2 ==> join_words(ws).len() == join_words(ws.drop_last()).len() + 1
            + ws.last().len(),
        ws.len() >= 2 ==> join_words(ws)[join_words(ws).len() - ws.last().len() - 1] == 32u8,
        ws.len() >= 2 ==> join_words(ws).subrange(
            0,
            join_words(ws).len() - ws.last().len() - 1,
        ) == join_words(ws.drop_last()),
{
    let j = join_words(ws);
    if ws.len() == 1 {
        assert(j.subrange(0, j.len() as int) =~= j);
    } else {
        let p = join_words(ws.drop_last());
        assert(j == p + seq![32u8] + ws.last());
        assert(j.subrange(j.len() - ws.last().len(), j.len() as int) =~= ws.last());
        assert(j.subrange(0, j.len() - ws.last().len() - 1) =~= p);
    }
}

proof fn lemma_join_injective(a: Seq<Seq<u8>>, b: Seq<Seq<u8>>)
    requires
        forall|i: int| 0 <= i < a.len() ==> is_word(#[trigger] a[i]),
        forall|i: int| 0 <= i < b.len() ==> is_word(#[trigger] b[i]),
        join_words(a) == join_words(b),
    ensures
        a == b,
    decreases a.len(),
{
    let j = join_words(a);
    if a.len() == 0 {
        if b.len() > 0 {
            lemma_join_shape(b);
            assert(is_word(b[b.len() - 1]));
        }
        assert(a =~= b);
    } else if b.len() == 0 {
        lemma_join_shape(a);
        assert(is_word(a[a.len() - 1]));
    } else {
        lemma_join_shape(a);
        lemma_join_shape(b);
        let (la, lb) = (a.last(), b.last());
        assert(is_word(a[a.len() - 1]));
        assert(is_word(b[b.len() - 1]));
        if la.len() < lb.len() {
            let p = j.len() - la.len() - 1;
            if a.len() >= 2 {
                assert(j[p] == 32u8);
                assert(j.subrange(j.len() - lb.len(), j.len() as int)[p - (j.len() - lb.len())]
                    == j[p]);
                assert(!is_space_byte(lb[p - (j.len() - lb.len())]));
            }
        } else if lb.len() < la.len() {
            let p = j.len() - lb.len() - 1;
            if b.len() >= 2 {
                assert(j[p] == 32u8);
                assert(j.subrange(j.len() - la.len(), j.len() as int)[p - (j.len() - la.len())]
                    == j[p]);
                assert(!is_space_byte(la[p - (j.len() - la.len())]));
            }
        } else {
            assert(la == lb);
            if a.len() == 1 && b.len() == 1 {
                assert(a =~= b);
            } else if a.len() >= 2 && b.len() >= 2 {
                lemma_join_injective(a.drop_last(), b.drop_last());
                assert(a =~= a.drop_last().push(la));
                assert(b =~= b.drop_last().push(lb));
            }
        }
    }
}

/// Comparing by tokens is exactly comparing the normalized texts: collapse
/// every run of whitespace to one space, trim both ends, then match exactly.
pub proof fn lemma_same_output_iff_normalized_equal(actual: Seq<u8>, expected: Seq<u8>)
    ensures
        same_output(actual, expected) <==> normalized(actual) == normalized(expected),
{
    if normalized(actual) == normalized(expected) {
        lemma_tokens_are_words(actual);
        lemma_tokens_are_words(expected);
        lemma_join_injective(tokens(actual), tokens(expected));
    }
}

pub open spec fn views_of(v: Seq<Vec<u8>>) -> Seq<Seq<u8>> {
    Seq::new(v.len(), |i: int| v[i]@)
}

proof fn lemma_tokens_nonempty_after_token_byte(s: Seq<u8>)
    requires
        s.len() > 0,
        !is_space_byte(s.last()),
    ensures
        tokens(s).len() > 0,
{
}

pub fn is_space(b: u8) -> (r: bool)
    ensures
        r == is_space_byte(b),
{
    b == 32 || b == 9 || b == 10 || b == 11 || b == 12 || b == 13
}

/// Splits `s` into its whitespace-separated tokens.
pub fn split_tokens(s: &[u8]) -> (r: Vec<Vec<u8>>)
    ensures
        views_of(r@) == tokens(s@),
{
    let mut out: Vec<Vec<u8>> = Vec::new();
    let mut i: usize = 0;
    while i < s.len()
        invariant
            i <= s@.len(),
            views_of(out@) == tokens(s@.subrange(0, i as int)),
        decreases s@.len() - i,
    {
        let ghost pre = s@.subrange(0, i as int);
        let ghost cur = s@.subrange(0, i as int + 1);
        assert(cur.drop_last() == pre);
        let b = s[i];
        if is_space(b) {
        } else if i > 0 && !is_space(s[i - 1]) {
            proof {
                assert(pre.last() == s@[i - 1]);
                lemma_tokens_nonempty_after_token_byte(pre);
            }
            let mut last = out.pop().unwrap();
            last.push(b);
            out.push(last);
            assert(views_of(out@) =~= tokens(cur));
        } else {
            let mut w: Vec<u8> = Vec::new();
            w.push(b);
            out.push(w);
            assert(views_of(out@) =~= tokens(cur));
        }
        i += 1;
    }
    assert(s@.subrange(0, s@.len() as int) == s@);
    out
}

/// Whether two byte strings are equal.
pub fn bytes_equal(a: &[u8], b: &[u8]) -> (r: bool)
    ensures
        r == (a@ == b@),
{
    if a.len() != b.len() {
        return false;
    }
    let mut i: usize = 0;
    while i < a.len()
        invariant
            i <= a@.len(),
            a@.len() == b@.len(),
            forall|j: int| 0 <= j < i ==> a@[j] == b@[j],
        decreases a@.len() - i,
    {
        if a[i] != b[i] {
            return false;
        }
        i += 1;
    }
    assert(a@ =~= b@);
    true
}

/// Whether the program's `actual` output matches the `expected` output once
/// runs of whitespace are collapsed and both ends are trimmed.
pub fn outputs_match(actual: &[u8], expected: &[u8]) -> (r: bool)
    ensures
        r == same_output(actual@, expected@),
{
    let ta = split_tokens(actual);
    let te = split_tokens(expected);
    if ta.len() != te.len() {
        assert(views_of(ta@).len() != views_of(te@).len());
        return false;
    }
    let mut i: usize = 0;
    while i < ta.len()
        invariant
            i <= ta@.len(),
            ta@.len() == te@.len(),
            views_of(ta@) == tokens(actual@),
            views_of(te@) == tokens(expected@),
            forall|j: int| 0 <= j < i ==> ta@[j]@ == te@[j]@,
        decreases ta@.len() - i,
    {
        if !bytes_equal(ta[i].as_slice(), te[i].as_slice()) {
            assert(views_of(ta@)[i as int] != views_of(te@)[i as int]);
            return false;
        }
        i += 1;
    }
    assert(views_of(ta@) =~= views_of(te@));
    true
}

/// The first `max_len` bytes of `bytes` (all of them when there are fewer).
pub fn snippet(bytes: &[u8], max_len: usize) -> (r: Vec<u8>)
    ensures
        r@ == bytes@.take(if bytes@.len() < max_len { bytes@.len() as int } else { max_len as int }),
{
    let n: usize = if bytes.len() < max_len { bytes.len() } else { max_len };
    let mut out: Vec<u8> = Vec::new();
    let mut i: usize = 0;
    while i < n
        invariant
            i <= n,
            n <= bytes@.len(),
            out@ == bytes@.take(i as int),
        decreases n - i,
    {
        out.push(bytes[i]);
        assert(bytes@.take(i as int + 1) =~= bytes@.take(i as int).push(bytes@[i as int]));
        i += 1;
    }
    out
}

} // verus!
