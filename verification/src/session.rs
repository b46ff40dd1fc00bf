//! The session lifecycle: logon, then one subscription per distinct
//! external id, then streaming. The decisions live here; the transport
//! performs the sends and hands events back.
use vstd::prelude::*;

use crate::fix_contract::{YbFixContract, YbFixContractView, YbMarketData, YbMarketDataView};
use crate::split::views_of;
use crate::symbol_map::SymbolMap;

verus! {

/// Where the session stands.
#[derive(Clone, Copy, PartialEq, Eq, Structural, Debug)]
pub enum SessionState {
    Disconnected,
    LoggedOn,
    Subscribing,
    Streaming,
}

/// What the transport is asked to do after a step.
pub enum SessionAction {
    /// Send one subscription per distinct external id.
    Subscribe,
    /// Fan this tick out downstream.
    Publish(YbMarketData),
    /// Nothing beyond logging.
    Ignore,
}

/// The mathematical shadow of an action.
pub enum SessionActionView {
    Subscribe,
    Publish(YbMarketDataView),
    Ignore,
}

impl View for SessionAction {
    type V = SessionActionView;

    open spec fn view(&self) -> SessionActionView {
        match self {
            SessionAction::Subscribe => SessionActionView::Subscribe,
            SessionAction::Publish(md) => SessionActionView::Publish(md@),
            SessionAction::Ignore => SessionActionView::Ignore,
        }
    }
}

/// The step taken on a received contract: a peer Logon moves the session
/// into subscribing and asks for the subscription pass; a tick is
/// published; Reject and Logout drop the session back to disconnected,
/// where the transport's reconnection policy starts a fresh one;
/// everything else is ignored.
pub open spec fn spec_on_payload(state: SessionState, contract: YbFixContractView) -> (
    SessionState,
    SessionActionView,
) {
    match contract {
        YbFixContractView::Logon => (SessionState::Subscribing, SessionActionView::Subscribe),
        YbFixContractView::MarketData(md) => (state, SessionActionView::Publish(md)),
        YbFixContractView::Reject => (SessionState::Disconnected, SessionActionView::Ignore),
        YbFixContractView::Logout => (SessionState::Disconnected, SessionActionView::Ignore),
        _ => (state, SessionActionView::Ignore),
    }
}

/// A transport connect event: the session moves to logged-on and
/// immediately sends its Logon.
pub fn on_connected(_state: SessionState) -> (r: (SessionState, YbFixContract))
    ensures
        r.0 == SessionState::LoggedOn,
        r.1@ is Logon,
{
    (SessionState::LoggedOn, YbFixContract::Logon)
}

/// All subscription sends have been issued: the session streams. No peer
/// acknowledgement is waited for.
pub fn on_subscribes_issued(state: SessionState) -> (r: SessionState)
    ensures
        state == SessionState::Subscribing ==> r == SessionState::Streaming,
        state != SessionState::Subscribing ==> r == state,
{
    match state {
        SessionState::Subscribing => SessionState::Streaming,
        _ => state,
    }
}

/// One received contract is dispatched; see `spec_on_payload` for the
/// full case table.
pub fn on_payload(state: SessionState, contract: YbFixContract) -> (r: (
    SessionState,
    SessionAction,
))
    ensures
        (r.0, r.1@) == spec_on_payload(state, contract@),
{
    match contract {
        YbFixContract::Logon => (SessionState::Subscribing, SessionAction::Subscribe),
        YbFixContract::MarketData(md) => (state, SessionAction::Publish(md)),
        YbFixContract::Reject => (SessionState::Disconnected, SessionAction::Ignore),
        YbFixContract::Logout => (SessionState::Disconnected, SessionAction::Ignore),
        YbFixContract::MarketDataReject => (state, SessionAction::Ignore),
        YbFixContract::Others => (state, SessionAction::Ignore),
        YbFixContract::Ping => (state, SessionAction::Ignore),
        YbFixContract::Pong => (state, SessionAction::Ignore),
        YbFixContract::SubscribeToInstrument(_) => (state, SessionAction::Ignore),
        YbFixContract::Skip(_) => (state, SessionAction::Ignore),
    }
}

/// The subscription pass: one `SubscribeToInstrument` contract per
/// distinct external id of the mapping, in key order.
pub fn subscribe_messages(map: &SymbolMap) -> (r: Vec<YbFixContract>)
    requires
        map.wf(),
    ensures
        r@.len() == map.keys@.len(),
        forall|i: int|
            0 <= i < r@.len() ==> (#[trigger] r@[i]@ matches
                YbFixContractView::SubscribeToInstrument(sym) && sym == map.keys@[i]@),
    {
    let ids = map.external_ids();
    proof {
        assert(views_of(ids@).len() == ids@.len());
        assert(views_of(map.keys@).len() == map.keys@.len());
    }
    let mut out: Vec<YbFixContract> = Vec::new();
    let mut i: usize = 0;
    while i < ids.len()
        invariant
            0 <= i <= ids@.len(),
            views_of(ids@) == views_of(map.keys@),
            ids@.len() == map.keys@.len(),
            out@.len() == i,
            forall|k: int|
                0 <= k < i ==> (#[trigger] out@[k]@ matches
                    YbFixContractView::SubscribeToInstrument(sym) && sym == map.keys@[k]@),
        decreases ids.len() - i,
    {
        proof {
            assert(views_of(ids@)[i as int] == ids@[i as int]@);
            assert(views_of(map.keys@)[i as int] == map.keys@[i as int]@);
        }
        let sym = vstd::slice::slice_to_vec(ids[i].as_slice());
        out.push(YbFixContract::SubscribeToInstrument(sym));
        i = i + 1;
    }
    out
}

} // verus!
