//! The fan-out engine: one decoded tick becomes one wire record per
//! subscribed internal id, delivered to every registered downstream
//! connection, and one cache row per internal id.
use vstd::prelude::*;

use crate::fix_contract::{YbMarketData, YbMarketDataView};
use crate::fix_date::spec_iso_date;
use crate::price_cache::{insert_all, CacheEntry, CacheEntryView, PriceCache};
use crate::split::views_of;
use crate::symbol_map::{internals_of, SymbolMap};
use crate::text::{is_symbol_text, CR, LF};
use crate::wire::{
    spec_ser_msg, BidAskDataTcpModel, BidAskDataView, BidAskDateTimeTcpModel, BidAskTcpMessage,
    BidAskTcpMessageView,
};

verus! {

/// The wire record built for one internal id out of a tick: the
/// configured provider id as the exchange, the internal id as the
/// instrument, the tick's price texts, volume zero, and the tick's
/// timestamp under the source marker.
pub open spec fn spec_fanout_record(
    lp: Seq<u8>,
    internal: Seq<u8>,
    md: YbMarketDataView,
) -> BidAskDataView {
    BidAskDataView {
        exchange_id: lp,
        instrument_id: internal,
        bid: md.bid,
        ask: md.ask,
        volume: seq![48u8],
        date_time: BidAskDateTimeTcpModel::Source(md.date),
    }
}

/// The cache row built for one internal id out of a tick.
pub open spec fn spec_fanout_entry(
    lp: Seq<u8>,
    internal: Seq<u8>,
    md: YbMarketDataView,
) -> CacheEntryView {
    CacheEntryView {
        partition_key: lp,
        row_key: internal,
        src_id: md.instrument_id,
        bid: md.bid,
        ask: md.ask,
        time_stamp: Seq::empty(),
        dt: spec_iso_date(md.date),
    }
}

/// The cache rows for a whole fan-out, one per internal id, in order.
pub open spec fn spec_fanout_entries(
    lp: Seq<u8>,
    internals: Seq<Seq<u8>>,
    md: YbMarketDataView,
) -> Seq<CacheEntryView> {
    Seq::new(internals.len(), |i: int| spec_fanout_entry(lp, internals[i], md))
}

/// One computed fan-out: the framed wire records to send, the snapshot of
/// connection ids to send each to, and the internal ids broadcast.
pub struct BroadcastPlan {
    pub messages: Vec<Vec<u8>>,
    pub connections: Vec<i32>,
    pub instruments: Vec<Vec<u8>>,
}

pub open spec fn has_conn(s: Seq<i32>, id: i32) -> bool {
    exists|k: int| 0 <= k < s.len() && s[k] == id
}

/// The fan-out state: the symbol map, the registry of downstream
/// connection ids, and the provider id stamped on every record.
pub struct BroadCastData {
    pub maps: SymbolMap,
    pub connections: Vec<i32>,
    pub lp_id: Vec<u8>,
}

impl BroadCastData {
    pub open spec fn wf(self) -> bool {
        &&& self.maps.wf()
        &&& is_symbol_text(self.lp_id@)
        &&& forall|a: int, b: int|
            0 <= a < b < self.connections@.len() ==> self.connections@[a] != self.connections@[b]
    }

    /// An empty registry and mapping for one provider.
    pub fn new(lp_id: Vec<u8>) -> (r: Self)
        requires
            is_symbol_text(lp_id@),
        ensures
            r.wf(),
            r.lp_id@ == lp_id@,
            r.connections@.len() == 0,
            forall|e: Seq<u8>| #[trigger] r.maps.lookup_spec(e) == Seq::<Seq<u8>>::empty(),
    {
        BroadCastData { maps: SymbolMap::new(), connections: Vec::new(), lp_id }
    }

    /// Replaces the symbol map, as the one-time boot load does.
    pub fn set_maps(&mut self, maps: SymbolMap)
        requires
            old(self).wf(),
            maps.wf(),
        ensures
            final (self).wf(),
            final (self).maps == maps,
            final (self).connections@ == old(self).connections@,
            final (self).lp_id@ == old(self).lp_id@,
    {
        self.maps = maps;
    }

    /// Registers a connection id on connect; a second connect of the same
    /// id changes nothing.
    pub fn connected(&mut self, id: i32)
        requires
            old(self).wf(),
        ensures
            final (self).wf(),
            final (self).maps == old(self).maps,
            final (self).lp_id@ == old(self).lp_id@,
            forall|x: i32|
                #[trigger] has_conn(final (self).connections@, x) <==> (has_conn(
                    old(self).connections@,
                    x,
                ) || x == id),
    {
        let mut j: usize = 0;
        while j < self.connections.len()
            invariant
                *self == *old(self),
                old(self).wf(),
                0 <= j <= self.connections@.len(),
                forall|k: int| 0 <= k < j ==> self.connections@[k] != id,
            decreases self.connections.len() - j,
        {
            if self.connections[j] == id {
                proof {
                    assert forall|x: i32|
                        #[trigger] has_conn(self.connections@, x) <==> (has_conn(
                            self.connections@,
                            x,
                        ) || x == id) by {
                        if x == id {
                            assert(self.connections@[j as int] == id);
                        }
                    }
                }
                return ;
            }
            j = j + 1;
        }
        let ghost s0 = self.connections@;
        self.connections.push(id);
        proof {
            assert forall|x: i32|
                #[trigger] has_conn(self.connections@, x) <==> (has_conn(s0, x) || x == id) by {
                if has_conn(s0, x) {
                    let k = choose|k: int| 0 <= k < s0.len() && s0[k] == x;
                    assert(self.connections@[k] == x);
                }
                if x == id {
                    assert(self.connections@[s0.len() as int] == x);
                }
                if has_conn(self.connections@, x) {
                    let k = choose|k: int|
                        0 <= k < self.connections@.len() && self.connections@[k] == x;
                    if k < s0.len() {
                        assert(s0[k] == x);
                    }
                }
            }
        }
    }

    /// Removes a connection id on disconnect; an unknown id changes
    /// nothing.
    pub fn disconnected(&mut self, id: i32)
        requires
            old(self).wf(),
        ensures
            final (self).wf(),
            final (self).maps == old(self).maps,
            final (self).lp_id@ == old(self).lp_id@,
            forall|x: i32|
                #[trigger] has_conn(final (self).connections@, x) <==> (has_conn(
                    old(self).connections@,
                    x,
                ) && x != id),
    {
        let ghost s0 = self.connections@;
        let mut j: usize = 0;
        while j < self.connections.len()
            invariant
                self.connections@ == s0,
                s0 == old(self).connections@,
                self.maps == old(self).maps,
                self.lp_id == old(self).lp_id,
                old(self).wf(),
                forall|a: int, b: int| 0 <= a < b < s0.len() ==> s0[a] != s0[b],
                0 <= j <= s0.len(),
                forall|k: int| 0 <= k < j ==> s0[k] != id,
            decreases self.connections.len() - j,
        {
            if self.connections[j] == id {
                self.connections.remove(j);
                proof {
                    let s1 = self.connections@;
                    assert forall|x: i32|
                        #[trigger] has_conn(s1, x) <==> (has_conn(s0, x) && x != id) by {
                        if has_conn(s1, x) {
                            let k = choose|k: int| 0 <= k < s1.len() && s1[k] == x;
                            if k < j {
                                assert(s0[k] == x);
                            } else {
                                assert(s0[k + 1] == x);
                            }
                            assert(has_conn(s0, x));
                            assert(x != id) by {
                                if k < j {
                                    assert(s0[k] != id);
                                } else {
                                    assert(s0[k + 1] != s0[j as int]);
                                }
                            }
                        }
                        if has_conn(s0, x) && x != id {
                            let k = choose|k: int| 0 <= k < s0.len() && s0[k] == x;
                            assert(k != j);
                            if k < j {
                                assert(s1[k] == x);
                            } else {
                                assert(s1[k - 1] == x);
                            }
                        }
                    }
                    assert forall|a: int, b: int|
                        0 <= a < b < self.connections@.len() implies self.connections@[a]
                        != self.connections@[b] by {
                        let s1 = self.connections@;
                        if b < j {
                            assert(s1[a] == s0[a] && s1[b] == s0[b]);
                        } else if a < j {
                            assert(s1[a] == s0[a] && s1[b] == s0[b + 1]);
                        } else {
                            assert(s1[a] == s0[a + 1] && s1[b] == s0[b + 1]);
                        }
                    }
                }
                return ;
            }
            j = j + 1;
        }
    }

    /// Resolves a tick's external id and builds the fan-out: one framed
    /// record per internal id, for every registered connection. A tick
    /// whose external id has no internal subscriber is dropped silently:
    /// no message, no connection touched, and nothing reported.
    pub fn broad_cast_bid_ask(&self, market_data: &YbMarketData) -> (r: Option<BroadcastPlan>)
        requires
            self.wf(),
            market_data@.wf(),
            forall|i: int|
                0 <= i < self.maps.lookup_spec(market_data.instrument_id@).len()
                    ==> is_symbol_text(
                    #[trigger] self.maps.lookup_spec(market_data.instrument_id@)[i],
                ),
        ensures
            r is None <==> self.maps.lookup_spec(market_data.instrument_id@).len() == 0,
            r matches Some(plan) ==> {
                let internals = self.maps.lookup_spec(market_data.instrument_id@);
                &&& views_of(plan.instruments@) == internals
                &&& plan.messages@.len() == internals.len()
                &&& forall|i: int|
                    0 <= i < internals.len() ==> #[trigger] plan.messages@[i]@ == spec_ser_msg(
                        BidAskTcpMessageView::BidAsk(
                            spec_fanout_record(self.lp_id@, internals[i], market_data@),
                        ),
                    ) + seq![CR, LF]
                &&& plan.connections@ == self.connections@
            },
    {
        let ghost internals = self.maps.lookup_spec(market_data.instrument_id@);
        let ids = self.maps.lookup(market_data.instrument_id.as_slice());
        if ids.len() == 0 {
            return None;
        }
        let mut messages: Vec<Vec<u8>> = Vec::new();
        let mut i: usize = 0;
        while i < ids.len()
            invariant
                0 <= i <= ids@.len(),
                views_of(ids@) == internals,
                internals == self.maps.lookup_spec(market_data.instrument_id@),
                self.wf(),
                market_data@.wf(),
                forall|k: int|
                    0 <= k < internals.len() ==> is_symbol_text(#[trigger] internals[k]),
                messages@.len() == i,
                forall|k: int|
                    0 <= k < i ==> #[trigger] messages@[k]@ == spec_ser_msg(
                        BidAskTcpMessageView::BidAsk(
                            spec_fanout_record(self.lp_id@, internals[k], market_data@),
                        ),
                    ) + seq![CR, LF],
            decreases ids.len() - i,
        {
            let mut volume: Vec<u8> = Vec::new();
            volume.push(48);
            proof {
                assert(volume@ =~= seq![48u8]);
                assert(views_of(ids@)[i as int] == ids@[i as int]@);
            }
            let model = BidAskDataTcpModel {
                exchange_id: vstd::slice::slice_to_vec(self.lp_id.as_slice()),
                instrument_id: vstd::slice::slice_to_vec(ids[i].as_slice()),
                bid: vstd::slice::slice_to_vec(market_data.bid.as_slice()),
                ask: vstd::slice::slice_to_vec(market_data.ask.as_slice()),
                volume,
                date_time: BidAskDateTimeTcpModel::Source(market_data.date),
            };
            proof {
                assert(model@ == spec_fanout_record(
                    self.lp_id@,
                    internals[i as int],
                    market_data@,
                ));
            }
            proof {
                let v: Seq<u8> = seq![48u8];
                assert(v.drop_last() =~= Seq::<u8>::empty());
                assert(crate::text::count_dots(Seq::<u8>::empty()) == 0);
                assert(crate::text::count_dots(v) == 0);
                assert(crate::text::is_num_text(v));
                assert(model@.wf());
            }
            let message = BidAskTcpMessage::BidAsk(model);
            let rendered = message.serialize_framed();
            messages.push(rendered);
            i = i + 1;
        }
        let connections = vstd::slice::slice_to_vec(self.connections.as_slice());
        Some(BroadcastPlan { messages, connections, instruments: ids })
    }
}

/// The fan-out core as the session drives it: the registry and map beside
/// the price cache they feed.
pub struct AppContext {
    pub broadcast_data: BroadCastData,
    pub prices_cache: PriceCache,
}

impl AppContext {
    pub open spec fn wf(self) -> bool {
        &&& self.broadcast_data.wf()
        &&& self.prices_cache.wf()
    }

    pub fn new(lp_id: Vec<u8>) -> (r: Self)
        requires
            is_symbol_text(lp_id@),
        ensures
            r.wf(),
            r.broadcast_data.lp_id@ == lp_id@,
            r.prices_cache@ == Map::<Seq<u8>, CacheEntryView>::empty(),
    {
        AppContext { broadcast_data: BroadCastData::new(lp_id), prices_cache: PriceCache::new() }
    }

    /// Fans a tick out and buffers one cache row per broadcast internal
    /// id, latest wins. Returns the plan for the transport to send, or
    /// nothing when no internal id subscribes.
    pub fn broad_cast_bid_ask(&mut self, market_data: &YbMarketData) -> (r: Option<BroadcastPlan>)
        requires
            old(self).wf(),
            market_data@.wf(),
            forall|i: int|
                0 <= i < old(self).broadcast_data.maps.lookup_spec(
                    market_data.instrument_id@,
                ).len() ==> is_symbol_text(
                    #[trigger] old(self).broadcast_data.maps.lookup_spec(
                        market_data.instrument_id@,
                    )[i],
                ),
        ensures
            final (self).wf(),
            final (self).broadcast_data == old(self).broadcast_data,
            r is None <==> old(self).broadcast_data.maps.lookup_spec(
                market_data.instrument_id@,
            ).len() == 0,
            r is None ==> final (self).prices_cache@ == old(self).prices_cache@,
            r matches Some(plan) ==> {
                let internals = old(self).broadcast_data.maps.lookup_spec(
                    market_data.instrument_id@,
                );
                &&& views_of(plan.instruments@) == internals
                &&& plan.messages@.len() == internals.len()
                &&& forall|i: int|
                    0 <= i < internals.len() ==> #[trigger] plan.messages@[i]@ == spec_ser_msg(
                        BidAskTcpMessageView::BidAsk(
                            spec_fanout_record(
                                old(self).broadcast_data.lp_id@,
                                internals[i],
                                market_data@,
                            ),
                        ),
                    ) + seq![CR, LF]
                &&& plan.connections@ == old(self).broadcast_data.connections@
                &&& final (self).prices_cache@ == insert_all(
                    old(self).prices_cache@,
                    spec_fanout_entries(
                        old(self).broadcast_data.lp_id@,
                        internals,
                        market_data@,
                    ),
                )
            },
    {
        proof {
            assert forall|i: int|
                0 <= i < self.broadcast_data.maps.lookup_spec(market_data.instrument_id@).len()
                    implies is_symbol_text(
                #[trigger] self.broadcast_data.maps.lookup_spec(market_data.instrument_id@)[i],
            ) by {
                assert(is_symbol_text(
                    old(self).broadcast_data.maps.lookup_spec(market_data.instrument_id@)[i],
                ));
            }
        }
        let plan = match self.broadcast_data.broad_cast_bid_ask(market_data) {
            Some(plan) => plan,
            None => {
                return None;
            },
        };
        let ghost internals = self.broadcast_data.maps.lookup_spec(market_data.instrument_id@);
        let mut to_upload: Vec<CacheEntry> = Vec::new();
        let mut i: usize = 0;
        while i < plan.instruments.len()
            invariant
                0 <= i <= plan.instruments@.len(),
                views_of(plan.instruments@) == internals,
                market_data@.wf(),
                self.broadcast_data.wf(),
                to_upload@.len() == i,
                forall|k: int|
                    0 <= k < i ==> #[trigger] to_upload@[k]@ == spec_fanout_entry(
                        self.broadcast_data.lp_id@,
                        internals[k],
                        market_data@,
                    ),
            decreases plan.instruments.len() - i,
        {
            proof {
                assert(views_of(plan.instruments@)[i as int] == plan.instruments@[i as int]@);
            }
            let entry = CacheEntry {
                partition_key: vstd::slice::slice_to_vec(self.broadcast_data.lp_id.as_slice()),
                row_key: vstd::slice::slice_to_vec(plan.instruments[i].as_slice()),
                src_id: vstd::slice::slice_to_vec(market_data.instrument_id.as_slice()),
                bid: vstd::slice::slice_to_vec(market_data.bid.as_slice()),
                ask: vstd::slice::slice_to_vec(market_data.ask.as_slice()),
                time_stamp: Vec::new(),
                dt: crate::fix_date::to_iso_date_string(&market_data.date),
            };
            to_upload.push(entry);
            i = i + 1;
        }
        proof {
            assert(crate::price_cache::entry_views(to_upload@) =~~= spec_fanout_entries(
                self.broadcast_data.lp_id@,
                internals,
                market_data@,
            ));
        }
        self.prices_cache.update(to_upload);
        Some(plan)
    }
}

/// An external id absent from the mapping (or mapped to nothing) fans out
/// to no message and no connection: the plan is `None` exactly then.
pub proof fn lemma_unmapped_tick_dropped(
    data: BroadCastData,
    md: YbMarketDataView,
    pairs: Seq<(Vec<u8>, Vec<u8>)>,
)
    requires
        forall|e: Seq<u8>| #[trigger] data.maps.lookup_spec(e) == internals_of(pairs, e),
        internals_of(pairs, md.instrument_id) == Seq::<Seq<u8>>::empty(),
    ensures
        data.maps.lookup_spec(md.instrument_id).len() == 0,
{
}

} // verus!
