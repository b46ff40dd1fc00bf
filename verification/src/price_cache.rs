//! The latest-value price cache: one entry per internal instrument,
//! latest tick wins, drained whole by the periodic flush. Its view is the
//! map from row key to entry.
use vstd::prelude::*;

verus! {

/// One buffered price row: keyed by the provider (partition) and the
/// internal instrument (row); carries the provider's own symbol, the
/// price texts and the tick's instant.
#[derive(Clone, Debug)]
pub struct CacheEntry {
    pub partition_key: Vec<u8>,
    pub row_key: Vec<u8>,
    pub src_id: Vec<u8>,
    pub bid: Vec<u8>,
    pub ask: Vec<u8>,
    pub time_stamp: Vec<u8>,
    pub dt: Vec<u8>,
}

/// The mathematical shadow of an entry.
pub struct CacheEntryView {
    pub partition_key: Seq<u8>,
    pub row_key: Seq<u8>,
    pub src_id: Seq<u8>,
    pub bid: Seq<u8>,
    pub ask: Seq<u8>,
    pub time_stamp: Seq<u8>,
    pub dt: Seq<u8>,
}

impl View for CacheEntry {
    type V = CacheEntryView;

    open spec fn view(&self) -> CacheEntryView {
        CacheEntryView {
            partition_key: self.partition_key@,
            row_key: self.row_key@,
            src_id: self.src_id@,
            bid: self.bid@,
            ask: self.ask@,
            time_stamp: self.time_stamp@,
            dt: self.dt@,
        }
    }
}

/// The map held by a list of entries, later entries winning.
pub open spec fn entries_map(s: Seq<CacheEntry>) -> Map<Seq<u8>, CacheEntryView>
    decreases s.len(),
{
    if s.len() == 0 {
        Map::empty()
    } else {
        entries_map(s.drop_last()).insert(s.last().row_key@, s.last()@)
    }
}

/// A key is in the map exactly when some entry holds it.
pub proof fn lemma_entries_map_domain(s: Seq<CacheEntry>, k: Seq<u8>)
    ensures
        entries_map(s).contains_key(k) <==> exists|i: int| 0 <= i < s.len() && s[i].row_key@ == k,
    decreases s.len(),
{
    if s.len() > 0 {
        lemma_entries_map_domain(s.drop_last(), k);
        if entries_map(s).contains_key(k) {
            if s.last().row_key@ == k {
                assert(s[s.len() - 1].row_key@ == k);
            } else {
                let i = choose|i: int| 0 <= i < s.drop_last().len() && s.drop_last()[i].row_key@ == k;
                assert(s[i].row_key@ == k);
            }
        }
        if exists|i: int| 0 <= i < s.len() && s[i].row_key@ == k {
            let i = choose|i: int| 0 <= i < s.len() && s[i].row_key@ == k;
            if i < s.len() - 1 {
                assert(s.drop_last()[i].row_key@ == k);
            }
        }
    }
}

proof fn lemma_entries_map_remove(s: Seq<CacheEntry>, j: int)
    requires
        0 <= j < s.len(),
        forall|a: int, b: int| 0 <= a < b < s.len() ==> s[a].row_key@ != s[b].row_key@,
    ensures
        entries_map(s.remove(j)) == entries_map(s).remove(s[j].row_key@),
    decreases s.len(),
{
    let k = s[j].row_key@;
    if j == s.len() - 1 {
        assert(s.remove(j) =~= s.drop_last());
        lemma_entries_map_domain(s.drop_last(), k);
        assert(!entries_map(s.drop_last()).contains_key(k)) by {
            if exists|i: int| 0 <= i < s.drop_last().len() && s.drop_last()[i].row_key@ == k {
                let i = choose|i: int|
                    0 <= i < s.drop_last().len() && s.drop_last()[i].row_key@ == k;
                assert(s[i].row_key@ == s[j].row_key@);
            }
        }
        assert(entries_map(s).remove(k) =~= entries_map(s.drop_last()));
    } else {
        let h = s.drop_last();
        assert(s.remove(j).drop_last() =~= h.remove(j));
        assert(s.remove(j).last() == s.last());
        assert(forall|a: int, b: int| 0 <= a < b < h.len() ==> h[a].row_key@ != h[b].row_key@);
        lemma_entries_map_remove(h, j);
        assert(h[j] == s[j]);
        assert(s.last().row_key@ != k);
        assert(entries_map(s.remove(j)) == entries_map(h).remove(k).insert(
            s.last().row_key@,
            s.last()@,
        ));
        assert(entries_map(h).remove(k).insert(s.last().row_key@, s.last()@) =~= entries_map(
            h,
        ).insert(s.last().row_key@, s.last()@).remove(k));
    }
}

/// The map after a whole batch of inserts, in batch order.
pub open spec fn insert_all(m: Map<Seq<u8>, CacheEntryView>, items: Seq<CacheEntryView>) -> Map<
    Seq<u8>,
    CacheEntryView,
>
    decreases items.len(),
{
    if items.len() == 0 {
        m
    } else {
        insert_all(m, items.drop_last()).insert(items.last().row_key, items.last())
    }
}

/// The views of a list of entries.
pub open spec fn entry_views(s: Seq<CacheEntry>) -> Seq<CacheEntryView> {
    s.map_values(|e: CacheEntry| e@)
}

/// The latest-value store. At most one entry per row key at any time.
pub struct PriceCache {
    pub entries: Vec<CacheEntry>,
}

impl View for PriceCache {
    type V = Map<Seq<u8>, CacheEntryView>;

    open spec fn view(&self) -> Map<Seq<u8>, CacheEntryView> {
        entries_map(self.entries@)
    }
}

impl PriceCache {
    /// Pairwise-distinct row keys.
    pub open spec fn wf(self) -> bool {
        forall|a: int, b: int|
            0 <= a < b < self.entries@.len() ==> self.entries@[a].row_key@
                != self.entries@[b].row_key@
    }

    /// An empty cache.
    pub fn new() -> (r: Self)
        ensures
            r.wf(),
            r@ == Map::<Seq<u8>, CacheEntryView>::empty(),
    {
        PriceCache { entries: Vec::new() }
    }

    /// How many rows are buffered.
    pub fn len(&self) -> (r: usize)
        requires
            self.wf(),
        ensures
            r == self.entries@.len(),
            r == self@.dom().len(),
    {
        proof {
            lemma_entries_map_len(self.entries@);
        }
        self.entries.len()
    }

    /// Inserts or replaces the row for one key: latest wins.
    pub fn update_one(&mut self, item: CacheEntry)
        requires
            old(self).wf(),
        ensures
            final (self).wf(),
            final (self)@ == old(self)@.insert(item.row_key@, item@),
    {
        let ghost s0 = self.entries@;
        let mut j: usize = 0;
        while j < self.entries.len()
            invariant
                self.entries@ == s0,
                s0 == old(self).entries@,
                0 <= j <= s0.len(),
                forall|a: int, b: int| 0 <= a < b < s0.len() ==> s0[a].row_key@ != s0[b].row_key@,
                forall|k: int| 0 <= k < j ==> s0[k].row_key@ != item.row_key@,
            decreases self.entries.len() - j,
        {
            if crate::text::bytes_eq(self.entries[j].as_row_key(), item.row_key.as_slice()) {
                let ghost removed = s0.remove(j as int);
                proof {
                    lemma_entries_map_remove(s0, j as int);
                    assert forall|a: int, b: int|
                        0 <= a < b < removed.len() implies removed[a].row_key@
                        != removed[b].row_key@ by {
                        if b < j {
                            assert(removed[a] == s0[a] && removed[b] == s0[b]);
                        } else if a < j {
                            assert(removed[a] == s0[a] && removed[b] == s0[b + 1]);
                        } else {
                            assert(removed[a] == s0[a + 1] && removed[b] == s0[b + 1]);
                        }
                    }
                    assert forall|k: int| 0 <= k < removed.len() implies removed[k].row_key@
                        != item.row_key@ by {
                        if k < j {
                            assert(removed[k] == s0[k]);
                        } else {
                            assert(removed[k] == s0[k + 1]);
                        }
                    }
                }
                self.entries.remove(j);
                self.entries.push(item);
                proof {
                    assert(self.entries@.drop_last() =~= removed);
                    assert(entries_map(self.entries@) == entries_map(removed).insert(
                        item.row_key@,
                        item@,
                    ));
                    assert(entries_map(self.entries@) =~= entries_map(s0).insert(
                        item.row_key@,
                        item@,
                    ));
                }
                return ;
            }
            j = j + 1;
        }
        proof {
            lemma_entries_map_domain(s0, item.row_key@);
        }
        self.entries.push(item);
        proof {
            assert(self.entries@.drop_last() =~= s0);
        }
    }

    /// Inserts a whole batch, in order.
    pub fn update(&mut self, items: Vec<CacheEntry>)
        requires
            old(self).wf(),
        ensures
            final (self).wf(),
            final (self)@ == insert_all(old(self)@, entry_views(items@)),
    {
        let mut i: usize = 0;
        let items = items;
        proof {
            assert(entry_views(items@).subrange(0, 0) =~= Seq::<CacheEntryView>::empty());
        }
        while i < items.len()
            invariant
                0 <= i <= items@.len(),
                self.wf(),
                self@ == insert_all(old(self)@, entry_views(items@).subrange(0, i as int)),
            decreases items.len() - i,
        {
            proof {
                let vs = entry_views(items@);
                let pre = vs.subrange(0, i as int);
                let cur = vs.subrange(0, i + 1);
                assert(cur.drop_last() =~= pre);
                assert(cur.last() == vs[i as int]);
                assert(vs[i as int] == items@[i as int]@);
            }
            let item = items[i].clone_entry();
            self.update_one(item);
            i = i + 1;
        }
        proof {
            assert(entry_views(items@).subrange(0, entry_views(items@).len() as int)
                =~= entry_views(items@));
        }
    }

    /// Swaps the whole store for an empty one and hands the batch out:
    /// nothing is counted twice and nothing is skipped between swap and
    /// flush.
    pub fn get_snapshot(&mut self) -> (r: Vec<CacheEntry>)
        requires
            old(self).wf(),
        ensures
            final (self).wf(),
            final (self)@ == Map::<Seq<u8>, CacheEntryView>::empty(),
            r@ == old(self).entries@,
            entries_map(r@) == old(self)@,
    {
        let mut result: Vec<CacheEntry> = Vec::new();
        core::mem::swap(&mut self.entries, &mut result);
        result
    }
}

impl CacheEntry {
    fn as_row_key(&self) -> (r: &[u8])
        ensures
            r@ == self.row_key@,
    {
        self.row_key.as_slice()
    }

    /// A field-for-field copy.
    pub fn clone_entry(&self) -> (r: CacheEntry)
        ensures
            r@ == self@,
    {
        CacheEntry {
            partition_key: vstd::slice::slice_to_vec(self.partition_key.as_slice()),
            row_key: vstd::slice::slice_to_vec(self.row_key.as_slice()),
            src_id: vstd::slice::slice_to_vec(self.src_id.as_slice()),
            bid: vstd::slice::slice_to_vec(self.bid.as_slice()),
            ask: vstd::slice::slice_to_vec(self.ask.as_slice()),
            time_stamp: vstd::slice::slice_to_vec(self.time_stamp.as_slice()),
            dt: vstd::slice::slice_to_vec(self.dt.as_slice()),
        }
    }
}

/// With distinct row keys the map is as large as the list.
pub proof fn lemma_entries_map_len(s: Seq<CacheEntry>)
    requires
        forall|a: int, b: int| 0 <= a < b < s.len() ==> s[a].row_key@ != s[b].row_key@,
    ensures
        entries_map(s).dom().len() == s.len(),
        entries_map(s).dom().finite(),
    decreases s.len(),
{
    if s.len() > 0 {
        let h = s.drop_last();
        assert(forall|a: int, b: int| 0 <= a < b < h.len() ==> h[a].row_key@ != h[b].row_key@);
        lemma_entries_map_len(h);
        lemma_entries_map_domain(h, s.last().row_key@);
        assert(!entries_map(h).contains_key(s.last().row_key@)) by {
            if exists|i: int| 0 <= i < h.len() && h[i].row_key@ == s.last().row_key@ {
                let i = choose|i: int| 0 <= i < h.len() && h[i].row_key@ == s.last().row_key@;
                assert(s[i].row_key@ == s[s.len() - 1].row_key@);
            }
        }
        assert(entries_map(s).dom() =~= entries_map(h).dom().insert(s.last().row_key@));
        vstd::set::axiom_set_insert_finite(entries_map(h).dom(), s.last().row_key@);
        vstd::set::axiom_set_insert_len(entries_map(h).dom(), s.last().row_key@);
    }
}

/// Latest wins: two ticks for one key before a flush leave exactly the
/// second one in the cache; every other key is untouched.
pub proof fn lemma_latest_wins(
    m: Map<Seq<u8>, CacheEntryView>,
    k: Seq<u8>,
    first: CacheEntryView,
    second: CacheEntryView,
)
    requires
        first.row_key == k,
        second.row_key == k,
    ensures
        m.insert(k, first).insert(k, second) == m.insert(k, second),
        m.insert(k, first).insert(k, second)[k] == second,
{
    assert(m.insert(k, first).insert(k, second) =~= m.insert(k, second));
}

} // verus!
