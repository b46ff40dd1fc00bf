//! The instrument mapping: the reference data arrives as internal-to-
//! external pairs; the bridge inverts it once at boot into external id to
//! the list of internal ids that subscribe to it. A miss is not an error:
//! it means no internal subscriber.
use vstd::prelude::*;

use crate::split::views_of;
use crate::text::bytes_eq;

verus! {

/// The internal ids mapped to `e` among the first pairs, in pair order.
/// Each pair is (internal id, external id).
pub open spec fn internals_of(pairs: Seq<(Vec<u8>, Vec<u8>)>, e: Seq<u8>) -> Seq<Seq<u8>>
    decreases pairs.len(),
{
    if pairs.len() == 0 {
        Seq::empty()
    } else {
        let rest = internals_of(pairs.drop_last(), e);
        if pairs.last().1@ == e {
            rest.push(pairs.last().0@)
        } else {
            rest
        }
    }
}

/// The association-list lookup: the values of the first key equal to `e`,
/// or the empty list.
pub open spec fn assoc_lookup(keys: Seq<Vec<u8>>, vals: Seq<Vec<Vec<u8>>>, e: Seq<u8>) -> Seq<
    Seq<u8>,
>
    decreases keys.len(),
{
    if keys.len() == 0 || vals.len() == 0 {
        Seq::empty()
    } else if keys[0]@ == e {
        views_of(vals[0]@)
    } else {
        assoc_lookup(
            keys.subrange(1, keys.len() as int),
            vals.subrange(1, vals.len() as int),
            e,
        )
    }
}

proof fn lemma_assoc_found(keys: Seq<Vec<u8>>, vals: Seq<Vec<Vec<u8>>>, e: Seq<u8>, j: int)
    requires
        keys.len() == vals.len(),
        0 <= j < keys.len(),
        keys[j]@ == e,
        forall|a: int, b: int| 0 <= a < b < keys.len() ==> keys[a]@ != keys[b]@,
    ensures
        assoc_lookup(keys, vals, e) == views_of(vals[j]@),
    decreases keys.len(),
{
    if j == 0 {
    } else {
        assert(keys[0]@ != e);
        let ktail = keys.subrange(1, keys.len() as int);
        let vtail = vals.subrange(1, vals.len() as int);
        assert(forall|a: int, b: int| 0 <= a < b < ktail.len() ==> ktail[a]@ != ktail[b]@);
        lemma_assoc_found(ktail, vtail, e, j - 1);
    }
}

proof fn lemma_assoc_absent(keys: Seq<Vec<u8>>, vals: Seq<Vec<Vec<u8>>>, e: Seq<u8>)
    requires
        forall|j: int| 0 <= j < keys.len() ==> keys[j]@ != e,
    ensures
        assoc_lookup(keys, vals, e) == Seq::<Seq<u8>>::empty(),
    decreases keys.len(),
{
    if keys.len() > 0 && vals.len() > 0 {
        let ktail = keys.subrange(1, keys.len() as int);
        let vtail = vals.subrange(1, vals.len() as int);
        lemma_assoc_absent(ktail, vtail, e);
    }
}

/// The inverted mapping: distinct external ids beside the internal ids
/// that subscribe to each.
pub struct SymbolMap {
    pub keys: Vec<Vec<u8>>,
    pub values: Vec<Vec<Vec<u8>>>,
}

impl SymbolMap {
    /// Equal lengths and pairwise-distinct external ids.
    pub open spec fn wf(self) -> bool {
        &&& self.keys@.len() == self.values@.len()
        &&& forall|a: int, b: int|
            0 <= a < b < self.keys@.len() ==> self.keys@[a]@ != self.keys@[b]@
    }

    /// The internal ids for an external id; empty on a miss.
    pub open spec fn lookup_spec(self, e: Seq<u8>) -> Seq<Seq<u8>> {
        assoc_lookup(self.keys@, self.values@, e)
    }

    /// An empty mapping.
    pub fn new() -> (r: Self)
        ensures
            r.wf(),
            forall|e: Seq<u8>| r.lookup_spec(e) == Seq::<Seq<u8>>::empty(),
    {
        let r = SymbolMap { keys: Vec::new(), values: Vec::new() };
        proof {
            assert forall|e: Seq<u8>| r.lookup_spec(e) == Seq::<Seq<u8>>::empty() by {
                lemma_assoc_absent(r.keys@, r.values@, e);
            }
        }
        r
    }

    /// Whether an external id is among the keys.
    fn has_key(&self, e: &[u8]) -> (r: bool)
        ensures
            r <==> exists|j: int| 0 <= j < self.keys@.len() && self.keys@[j]@ == e@,
    {
        let mut j: usize = 0;
        while j < self.keys.len()
            invariant
                0 <= j <= self.keys@.len(),
                forall|k: int| 0 <= k < j ==> self.keys@[k]@ != e@,
            decreases self.keys.len() - j,
        {
            if bytes_eq(self.keys[j].as_slice(), e) {
                return true;
            }
            j = j + 1;
        }
        false
    }

    /// Inverts the raw internal-to-external pairs: every external id that
    /// occurs becomes a key, holding exactly the internal ids paired with
    /// it, in pair order; an id that never occurs looks up to nothing.
    pub fn build(pairs: &Vec<(Vec<u8>, Vec<u8>)>) -> (r: Self)
        ensures
            r.wf(),
            forall|e: Seq<u8>| #[trigger] r.lookup_spec(e) == internals_of(pairs@, e),
    {
        let mut map = SymbolMap { keys: Vec::new(), values: Vec::new() };
        let mut i: usize = 0;
        while i < pairs.len()
            invariant
                0 <= i <= pairs@.len(),
                map.wf(),
                forall|j: int|
                    0 <= j < map.keys@.len() ==> views_of(#[trigger] map.values@[j]@)
                        == internals_of(pairs@, map.keys@[j]@),
                forall|e: Seq<u8>|
                    (forall|j: int| 0 <= j < map.keys@.len() ==> map.keys@[j]@ != e)
                        ==> internals_of(pairs@.subrange(0, i as int), e)
                        == Seq::<Seq<u8>>::empty(),
            decreases pairs.len() - i,
        {
            let ghost entry_map = map;
            let external = &pairs[i].1;
            if !map.has_key(external.as_slice()) {
                let mut collected: Vec<Vec<u8>> = Vec::new();
                let mut k: usize = 0;
                proof {
                    assert(views_of(collected@) =~~= Seq::<Seq<u8>>::empty());
                    assert(internals_of(pairs@.subrange(0, 0), external@)
                        =~~= Seq::<Seq<u8>>::empty());
                }
                while k < pairs.len()
                    invariant
                        0 <= k <= pairs@.len(),
                        views_of(collected@) =~~= internals_of(
                            pairs@.subrange(0, k as int),
                            external@,
                        ),
                    decreases pairs.len() - k,
                {
                    proof {
                        let pre = pairs@.subrange(0, k as int);
                        let cur = pairs@.subrange(0, k + 1);
                        assert(cur.drop_last() =~= pre);
                        assert(cur.last() == pairs@[k as int]);
                    }
                    if bytes_eq(pairs[k].1.as_slice(), external.as_slice()) {
                        let own = vstd::slice::slice_to_vec(pairs[k].0.as_slice());
                        proof {
                            assert(views_of(collected@.push(own)) =~~= views_of(collected@)
                                + seq![own@]);
                        }
                        collected.push(own);
                    }
                    k = k + 1;
                }
                proof {
                    assert(pairs@.subrange(0, pairs@.len() as int) =~= pairs@);
                }
                let key = vstd::slice::slice_to_vec(external.as_slice());
                let ghost old_map = map;
                map.keys.push(key);
                map.values.push(collected);
                proof {
                    assert forall|j: int|
                        0 <= j < map.keys@.len() implies views_of(#[trigger] map.values@[j]@)
                        == internals_of(pairs@, map.keys@[j]@) by {
                        if j < old_map.keys@.len() {
                            assert(map.keys@[j] == old_map.keys@[j]);
                            assert(map.values@[j] == old_map.values@[j]);
                        } else {
                            assert(map.keys@[j]@ == external@);
                            assert(views_of(map.values@[j]@) =~~= internals_of(
                                pairs@,
                                external@,
                            ));
                        }
                    }
                    assert(map.keys@[map.keys@.len() - 1]@ == pairs@[i as int].1@);
                }
            }
            proof {
                let pre = pairs@.subrange(0, i as int);
                let cur = pairs@.subrange(0, i + 1);
                assert(cur.drop_last() =~= pre);
                assert(cur.last() == pairs@[i as int]);
                assert(exists|j: int|
                    0 <= j < map.keys@.len() && map.keys@[j]@ == pairs@[i as int].1@);
                assert forall|e: Seq<u8>|
                    (forall|j: int| 0 <= j < map.keys@.len() ==> map.keys@[j]@ != e)
                        implies internals_of(cur, e) == Seq::<Seq<u8>>::empty() by {
                    assert(forall|j: int|
                        0 <= j < entry_map.keys@.len() ==> entry_map.keys@[j]
                            == map.keys@[j]);
                    assert(forall|j: int|
                        0 <= j < entry_map.keys@.len() ==> entry_map.keys@[j]@ != e);
                    assert(internals_of(pre, e) == Seq::<Seq<u8>>::empty());
                    let j0 = choose|j: int|
                        0 <= j < map.keys@.len() && map.keys@[j]@ == pairs@[i as int].1@;
                    assert(map.keys@[j0]@ != e);
                    assert(pairs@[i as int].1@ != e);
                }
            }
            i = i + 1;
        }
        proof {
            assert(pairs@.subrange(0, pairs@.len() as int) =~= pairs@);
            assert forall|e: Seq<u8>| #[trigger] map.lookup_spec(e) == internals_of(
                pairs@,
                e,
            ) by {
                if exists|j: int| 0 <= j < map.keys@.len() && map.keys@[j]@ == e {
                    let j = choose|j: int| 0 <= j < map.keys@.len() && map.keys@[j]@ == e;
                    lemma_assoc_found(map.keys@, map.values@, e, j);
                } else {
                    lemma_assoc_absent(map.keys@, map.values@, e);
                }
            }
        }
        map
    }

    /// Looks an external id up; the empty list means no internal
    /// subscriber, which is not an error.
    pub fn lookup(&self, external_id: &[u8]) -> (r: Vec<Vec<u8>>)
        requires
            self.wf(),
        ensures
            views_of(r@) == self.lookup_spec(external_id@),
    {
        let mut j: usize = 0;
        while j < self.keys.len()
            invariant
                self.wf(),
                0 <= j <= self.keys@.len(),
                forall|k: int| 0 <= k < j ==> self.keys@[k]@ != external_id@,
            decreases self.keys.len() - j,
        {
            if bytes_eq(self.keys[j].as_slice(), external_id) {
                let source = &self.values[j];
                let mut out: Vec<Vec<u8>> = Vec::new();
                let mut k: usize = 0;
                proof {
                    assert(views_of(out@) =~~= views_of(source@).subrange(0, 0));
                }
                while k < source.len()
                    invariant
                        0 <= k <= source@.len(),
                        source == &self.values@[j as int],
                        j < self.values@.len(),
                        views_of(out@) =~~= views_of(source@).subrange(0, k as int),
                    decreases source.len() - k,
                {
                    let item = vstd::slice::slice_to_vec(source[k].as_slice());
                    proof {
                        assert(views_of(out@.push(item)) =~~= views_of(out@) + seq![item@]);
                        assert(views_of(source@).subrange(0, k + 1) =~~= views_of(
                            source@,
                        ).subrange(0, k as int) + seq![views_of(source@)[k as int]]);
                    }
                    out.push(item);
                    k = k + 1;
                }
                proof {
                    assert(views_of(source@).subrange(0, source@.len() as int) =~~= views_of(
                        source@,
                    ));
                    lemma_assoc_found(self.keys@, self.values@, external_id@, j as int);
                }
                return out;
            }
            j = j + 1;
        }
        proof {
            lemma_assoc_absent(self.keys@, self.values@, external_id@);
        }
        Vec::new()
    }

    /// The distinct external ids, for the subscription pass.
    pub fn external_ids(&self) -> (r: Vec<Vec<u8>>)
        ensures
            views_of(r@) == views_of(self.keys@),
    {
        let mut out: Vec<Vec<u8>> = Vec::new();
        let mut k: usize = 0;
        proof {
            assert(views_of(out@) =~~= views_of(self.keys@).subrange(0, 0));
        }
        while k < self.keys.len()
            invariant
                0 <= k <= self.keys@.len(),
                views_of(out@) =~~= views_of(self.keys@).subrange(0, k as int),
            decreases self.keys.len() - k,
        {
            let item = vstd::slice::slice_to_vec(self.keys[k].as_slice());
            proof {
                assert(views_of(out@.push(item)) =~~= views_of(out@) + seq![item@]);
                assert(views_of(self.keys@).subrange(0, k + 1) =~~= views_of(
                    self.keys@,
                ).subrange(0, k as int) + seq![views_of(self.keys@)[k as int]]);
            }
            out.push(item);
            k = k + 1;
        }
        proof {
            assert(views_of(self.keys@).subrange(0, self.keys@.len() as int) =~~= views_of(
                self.keys@,
            ));
        }
        out
    }
}

/// The reference-data record the mapping is loaded from: one row per
/// liquidity provider, holding internal-to-external pairs.
#[derive(Clone, Debug)]
pub struct InstrumentMappingEntity {
    pub partition_key: Vec<u8>,
    pub row_key: Vec<u8>,
    pub time_stamp: Vec<u8>,
    pub liquidity_provider_id: Vec<u8>,
    pub map: Vec<(Vec<u8>, Vec<u8>)>,
}

impl InstrumentMappingEntity {
    pub fn get_partition_key(&self) -> (r: &Vec<u8>)
        ensures
            r@ == self.partition_key@,
    {
        &self.partition_key
    }

    pub fn get_row_key(&self) -> (r: &Vec<u8>)
        ensures
            r@ == self.row_key@,
    {
        &self.row_key
    }

    /// Inverts this record's pairs into the symbol map.
    pub fn build_symbol_map(&self) -> (r: SymbolMap)
        ensures
            r.wf(),
            forall|e: Seq<u8>| #[trigger] r.lookup_spec(e) == internals_of(self.map@, e),
    {
        SymbolMap::build(&self.map)
    }
}

} // verus!
