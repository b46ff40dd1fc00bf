//! Splitting a byte sequence on a single delimiter byte, with the lemmas
//! that connect a joined rendering back to its chunks. The broadcast wire
//! codec splits on spaces; the FIX codec splits on SOH and on `=`.
use vstd::prelude::*;

verus! {

/// The chunks of `s` between occurrences of `d`. Always at least one
/// chunk; `n` delimiters give `n + 1` chunks, empty chunks included.
pub open spec fn split_on(s: Seq<u8>, d: u8) -> Seq<Seq<u8>>
    decreases s.len(),
{
    if s.len() == 0 {
        seq![Seq::<u8>::empty()]
    } else if s[0] == d {
        seq![Seq::<u8>::empty()] + split_on(s.subrange(1, s.len() as int), d)
    } else {
        let rest = split_on(s.subrange(1, s.len() as int), d);
        seq![seq![s[0]] + rest[0]] + rest.subrange(1, rest.len() as int)
    }
}

pub open spec fn has_byte(s: Seq<u8>, d: u8) -> bool {
    exists|i: int| 0 <= i < s.len() && s[i] == d
}

/// The views of a sequence of byte vectors.
pub open spec fn views_of(v: Seq<Vec<u8>>) -> Seq<Seq<u8>> {
    v.map_values(|x: Vec<u8>| x@)
}

pub proof fn lemma_split_nonempty(s: Seq<u8>, d: u8)
    ensures
        split_on(s, d).len() >= 1,
    decreases s.len(),
{
    if s.len() > 0 {
        lemma_split_nonempty(s.subrange(1, s.len() as int), d);
    }
}

/// A sequence free of the delimiter splits into itself alone.
pub proof fn lemma_split_no_delim(s: Seq<u8>, d: u8)
    requires
        !has_byte(s, d),
    ensures
        split_on(s, d) =~~= seq![s],
    decreases s.len(),
{
    if s.len() == 0 {
        assert(split_on(s, d) =~~= seq![s]);
    } else {
        assert(s[0] != d);
        let tail = s.subrange(1, s.len() as int);
        assert(!has_byte(tail, d)) by {
            assert(forall|i: int| 0 <= i < tail.len() ==> tail[i] == s[i + 1]);
        }
        lemma_split_no_delim(tail, d);
        let rest = split_on(tail, d);
        assert(rest[0] == tail);
        assert(seq![s[0]] + tail =~= s);
        assert(rest.subrange(1, rest.len() as int) =~~= Seq::<Seq<u8>>::empty());
        assert(split_on(s, d) =~~= seq![s]);
    }
}

/// Splitting a delimiter-free chunk, the delimiter, and a remainder gives
/// the chunk followed by the split of the remainder.
pub proof fn lemma_split_join(c: Seq<u8>, r: Seq<u8>, d: u8)
    requires
        !has_byte(c, d),
    ensures
        split_on(c + seq![d] + r, d) =~~= seq![c] + split_on(r, d),
    decreases c.len(),
{
    let s = c + seq![d] + r;
    if c.len() == 0 {
        assert(s[0] == d);
        assert(s.subrange(1, s.len() as int) =~= r);
        assert(seq![Seq::<u8>::empty()] =~~= seq![c]);
    } else {
        assert(s[0] == c[0]);
        assert(s[0] != d);
        let ctail = c.subrange(1, c.len() as int);
        assert(!has_byte(ctail, d)) by {
            assert(forall|i: int| 0 <= i < ctail.len() ==> ctail[i] == c[i + 1]);
        }
        assert(s.subrange(1, s.len() as int) =~= ctail + seq![d] + r);
        lemma_split_join(ctail, r, d);
        let rest = split_on(ctail + seq![d] + r, d);
        lemma_split_nonempty(r, d);
        assert(rest =~~= seq![ctail] + split_on(r, d));
        assert(rest[0] == ctail);
        assert(seq![s[0]] + ctail =~= c);
        assert(rest.subrange(1, rest.len() as int) =~~= split_on(r, d));
    }
}

/// Splits `src` on `d`.
pub fn split_bytes(src: &[u8], d: u8) -> (r: Vec<Vec<u8>>)
    ensures
        views_of(r@) =~~= split_on(src@, d),
        r@.len() >= 1,
{
    let mut res: Vec<Vec<u8>> = Vec::new();
    let mut cur: Vec<u8> = Vec::new();
    let mut i: usize = 0;
    proof {
        assert(views_of(res@) =~~= Seq::<Seq<u8>>::empty());
        assert(cur@ + src@.subrange(0, src@.len() as int) =~= src@);
    }
    while i < src.len()
        invariant
            0 <= i <= src@.len(),
            !has_byte(cur@, d),
            split_on(src@, d) =~~= views_of(res@) + split_on(cur@ + src@.subrange(
                i as int,
                src@.len() as int,
            ), d),
        decreases src.len() - i,
    {
        let ghost rem = src@.subrange(i as int, src@.len() as int);
        let b = src[i];
        if b == d {
            proof {
                let rem2 = src@.subrange(i + 1, src@.len() as int);
                assert(cur@ + rem =~= cur@ + seq![d] + rem2);
                lemma_split_join(cur@, rem2, d);
                assert(views_of(res@.push(cur)) =~~= views_of(res@) + seq![cur@]);
            }
            res.push(cur);
            cur = Vec::new();
        } else {
            proof {
                let rem2 = src@.subrange(i + 1, src@.len() as int);
                assert(cur@ + rem =~= cur@.push(b) + rem2);
                assert(!has_byte(cur@.push(b), d)) by {
                    assert(forall|j: int| 0 <= j < cur@.len() ==> cur@.push(b)[j] == cur@[j]);
                }
            }
            cur.push(b);
        }
        i = i + 1;
    }
    proof {
        assert(cur@ + src@.subrange(src@.len() as int, src@.len() as int) =~= cur@);
        lemma_split_no_delim(cur@, d);
        assert(views_of(res@.push(cur)) =~~= views_of(res@) + seq![cur@]);
    }
    res.push(cur);
    res
}

/// The chunks joined back with the delimiter between them.
pub open spec fn join_with(cs: Seq<Seq<u8>>, d: u8) -> Seq<u8>
    decreases cs.len(),
{
    if cs.len() == 0 {
        Seq::empty()
    } else if cs.len() == 1 {
        cs[0]
    } else {
        cs[0] + seq![d] + join_with(cs.subrange(1, cs.len() as int), d)
    }
}

/// Joining the chunks of a split gives the original back.
pub proof fn lemma_join_split(s: Seq<u8>, d: u8)
    ensures
        join_with(split_on(s, d), d) == s,
    decreases s.len(),
{
    if s.len() == 0 {
        assert(join_with(split_on(s, d), d) =~= s);
    } else {
        let tail = s.subrange(1, s.len() as int);
        lemma_join_split(tail, d);
        lemma_split_nonempty(tail, d);
        let rest = split_on(tail, d);
        if s[0] == d {
            let cs = split_on(s, d);
            assert(cs.len() >= 2);
            assert(cs[0] =~= Seq::<u8>::empty());
            assert(cs.subrange(1, cs.len() as int) =~= rest);
            assert(join_with(cs, d) =~= Seq::<u8>::empty() + seq![d] + join_with(rest, d));
            assert(join_with(cs, d) =~= s);
        } else {
            let cs = split_on(s, d);
            assert(cs[0] == seq![s[0]] + rest[0]);
            if rest.len() == 1 {
                assert(cs.len() == 1) by {
                    assert(cs =~~= seq![seq![s[0]] + rest[0]] + rest.subrange(
                        1,
                        rest.len() as int,
                    ));
                }
                assert(join_with(rest, d) == rest[0]);
                assert(join_with(cs, d) =~= seq![s[0]] + rest[0]);
                assert(join_with(cs, d) =~= s);
            } else {
                assert(cs.subrange(1, cs.len() as int) =~~= rest.subrange(1, rest.len() as int));
                assert(join_with(cs, d) == cs[0] + seq![d] + join_with(
                    cs.subrange(1, cs.len() as int),
                    d,
                ));
                assert(join_with(rest, d) == rest[0] + seq![d] + join_with(
                    rest.subrange(1, rest.len() as int),
                    d,
                ));
                assert(join_with(cs, d) =~= seq![s[0]] + join_with(rest, d));
                assert(join_with(cs, d) =~= s);
            }
        }
    }
}

} // verus!
