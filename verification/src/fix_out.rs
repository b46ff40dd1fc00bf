//! The outgoing FIX messages of the session: keep-alive, Logon and
//! instrument subscription, with the exact field lists they carry, and
//! the per-session message counter.
use vstd::prelude::*;

use crate::fix_date::{spec_fix_date, FixDateTime};
use crate::fix_msg::{spec_compile, FixMessageWriter};
use crate::settings::YbPriceFeedSettings;
use crate::text::spec_dec;

verus! {

fn tag1(a: u8) -> (r: Vec<u8>)
    ensures
        r@ == seq![a],
{
    let mut r: Vec<u8> = Vec::new();
    r.push(a);
    proof {
        assert(r@ =~= seq![a]);
    }
    r
}

fn tag2(a: u8, b: u8) -> (r: Vec<u8>)
    ensures
        r@ == seq![a, b],
{
    let mut r: Vec<u8> = Vec::new();
    r.push(a);
    r.push(b);
    proof {
        assert(r@ =~= seq![a, b]);
    }
    r
}

fn tag3(a: u8, b: u8, c: u8) -> (r: Vec<u8>)
    ensures
        r@ == seq![a, b, c],
{
    let mut r: Vec<u8> = Vec::new();
    r.push(a);
    r.push(b);
    r.push(c);
    proof {
        assert(r@ =~= seq![a, b, c]);
    }
    r
}

/// The field list of a keep-alive: SenderCompID(49), SendingTime(52),
/// TargetCompID(56), MsgSeqNum(34).
pub open spec fn spec_ping_fields(
    settings: YbPriceFeedSettings,
    count: u64,
    now: FixDateTime,
) -> Seq<(Seq<u8>, Seq<u8>)> {
    seq![
        (seq![52u8, 57u8], settings.sender_company_id@),
        (seq![53u8, 50u8], spec_fix_date(now)),
        (seq![53u8, 54u8], settings.target_company_id@),
        (seq![51u8, 52u8], spec_dec(count as nat)),
    ]
}

/// Builds the keep-alive message, MsgType `0`.
pub fn serialize_ping(settings: &YbPriceFeedSettings, count: u64, now: &FixDateTime) -> (r:
    FixMessageWriter)
    requires
        now.wf(),
    ensures
        r.wf(),
        r.msg_type@ == seq![48u8],
        r.spec_fields() == spec_ping_fields(*settings, count, *now),
{
    let mut w = FixMessageWriter::new(tag1(48));
    w.with_value(tag2(52, 57), settings.sender_company_id.clone());
    w.with_value(tag2(53, 50), crate::fix_date::to_fix_date_string(now));
    w.with_value(tag2(53, 54), settings.target_company_id.clone());
    w.with_value(tag2(51, 52), crate::text::u64_to_dec(count));
    proof {
        assert(w.spec_fields() =~~= spec_ping_fields(*settings, count, *now));
    }
    w
}

/// The field list of a Logon: SenderCompID(49), TargetCompID(56),
/// SendingTime(52), MsgSeqNum(34), HeartBtInt(108)=30,
/// ResetSeqNumFlag(141)=Y, Password(554), EncryptMethod(98)=0.
pub open spec fn spec_logon_fields(
    settings: YbPriceFeedSettings,
    count: u64,
    now: FixDateTime,
) -> Seq<(Seq<u8>, Seq<u8>)> {
    seq![
        (seq![52u8, 57u8], settings.sender_company_id@),
        (seq![53u8, 54u8], settings.target_company_id@),
        (seq![53u8, 50u8], spec_fix_date(now)),
        (seq![51u8, 52u8], spec_dec(count as nat)),
        (seq![49u8, 48u8, 56u8], seq![51u8, 48u8]),
        (seq![49u8, 52u8, 49u8], seq![89u8]),
        (seq![53u8, 53u8, 52u8], settings.pass@),
        (seq![57u8, 56u8], seq![48u8]),
    ]
}

/// Builds the Logon message, MsgType `A`.
pub fn serialize_logon(settings: &YbPriceFeedSettings, count: u64, now: &FixDateTime) -> (r:
    FixMessageWriter)
    requires
        now.wf(),
    ensures
        r.wf(),
        r.msg_type@ == seq![65u8],
        r.spec_fields() == spec_logon_fields(*settings, count, *now),
{
    let mut w = FixMessageWriter::new(tag1(65));
    w.with_value(tag2(52, 57), settings.sender_company_id.clone());
    w.with_value(tag2(53, 54), settings.target_company_id.clone());
    w.with_value(tag2(53, 50), crate::fix_date::to_fix_date_string(now));
    w.with_value(tag2(51, 52), crate::text::u64_to_dec(count));
    w.with_value(tag3(49, 48, 56), tag2(51, 48));
    w.with_value(tag3(49, 52, 49), tag1(89));
    w.with_value(tag3(53, 53, 52), settings.pass.clone());
    w.with_value(tag2(57, 56), tag1(48));
    proof {
        assert(w.spec_fields() =~~= spec_logon_fields(*settings, count, *now));
    }
    w
}

/// The field list of an instrument subscription: SenderCompID(49),
/// SendingTime(52), TargetCompID(56), MsgSeqNum(34), MDReqID(262) the
/// current microsecond timestamp, SubscriptionRequestType(263)=1,
/// MarketDepth(264)=1, MDUpdateType(265)=0, NoMDEntryTypes(267)=2 with
/// MDEntryType(269) values 0 and 1, NoRelatedSym(146)=1, Symbol(55).
pub open spec fn spec_subscribe_fields(
    settings: YbPriceFeedSettings,
    count: u64,
    req_id: u64,
    now: FixDateTime,
    instrument: Seq<u8>,
) -> Seq<(Seq<u8>, Seq<u8>)> {
    seq![
        (seq![52u8, 57u8], settings.sender_company_id@),
        (seq![53u8, 50u8], spec_fix_date(now)),
        (seq![53u8, 54u8], settings.target_company_id@),
        (seq![51u8, 52u8], spec_dec(count as nat)),
        (seq![50u8, 54u8, 50u8], spec_dec(req_id as nat)),
        (seq![50u8, 54u8, 51u8], seq![49u8]),
        (seq![50u8, 54u8, 52u8], seq![49u8]),
        (seq![50u8, 54u8, 53u8], seq![48u8]),
        (seq![50u8, 54u8, 55u8], seq![50u8]),
        (seq![50u8, 54u8, 57u8], seq![48u8]),
        (seq![50u8, 54u8, 57u8], seq![49u8]),
        (seq![49u8, 52u8, 54u8], seq![49u8]),
        (seq![53u8, 53u8], instrument),
    ]
}

/// Builds the subscription message for one instrument, MsgType `V`.
pub fn serialize_instrument_subscribe(
    settings: &YbPriceFeedSettings,
    count: u64,
    req_id: u64,
    now: &FixDateTime,
    instrument: &Vec<u8>,
) -> (r: FixMessageWriter)
    requires
        now.wf(),
    ensures
        r.wf(),
        r.msg_type@ == seq![86u8],
        r.spec_fields() == spec_subscribe_fields(*settings, count, req_id, *now, instrument@),
{
    let mut w = FixMessageWriter::new(tag1(86));
    w.with_value(tag2(52, 57), settings.sender_company_id.clone());
    w.with_value(tag2(53, 50), crate::fix_date::to_fix_date_string(now));
    w.with_value(tag2(53, 54), settings.target_company_id.clone());
    w.with_value(tag2(51, 52), crate::text::u64_to_dec(count));
    w.with_value(tag3(50, 54, 50), crate::text::u64_to_dec(req_id));
    w.with_value(tag3(50, 54, 51), tag1(49));
    w.with_value(tag3(50, 54, 52), tag1(49));
    w.with_value(tag3(50, 54, 53), tag1(48));
    w.with_value(tag3(50, 54, 55), tag1(50));
    w.with_value(tag3(50, 54, 57), tag1(48));
    w.with_value(tag3(50, 54, 57), tag1(49));
    w.with_value(tag3(49, 52, 54), tag1(49));
    w.with_value(tag2(53, 53), instrument.clone());
    proof {
        assert(w.spec_fields() =~~= spec_subscribe_fields(
            *settings,
            count,
            req_id,
            *now,
            instrument@,
        ));
    }
    w
}

/// The per-session serializer state: a message counter starting at one
/// and incremented once per outgoing message, so MsgSeqNum rises
/// monotonically within a session and resets when a session is replaced.
pub struct FixMessageSerializer {
    pub message_counter: u64,
}

impl FixMessageSerializer {
    /// A fresh session counter, at one.
    pub fn new() -> (r: Self)
        ensures
            r.message_counter == 1,
    {
        FixMessageSerializer { message_counter: 1 }
    }

    /// Takes the current sequence number and advances the counter.
    pub fn get_next_message_id(&mut self) -> (r: u64)
        requires
            old(self).message_counter < u64::MAX,
        ensures
            r == old(self).message_counter,
            final (self).message_counter == old(self).message_counter + 1,
    {
        let id = self.message_counter;
        self.message_counter = self.message_counter + 1;
        id
    }

    /// Renders one outgoing contract as a compiled FIX message, taking
    /// the next sequence number. Only the keep-alive, Logon and
    /// subscription contracts go out; anything else is refused as `None`
    /// and the counter is left untouched.
    pub fn serialize(
        &mut self,
        contract: &crate::fix_contract::YbFixContract,
        settings: &YbPriceFeedSettings,
        now: &FixDateTime,
        req_id: u64,
    ) -> (r: Option<Vec<u8>>)
        requires
            now.wf(),
            old(self).message_counter < u64::MAX,
        ensures
            contract@ is Ping ==> (r matches Some(v) && v@ == spec_compile(
                seq![48u8],
                spec_ping_fields(*settings, old(self).message_counter, *now),
            ) && final (self).message_counter == old(self).message_counter + 1),
            contract@ is Logon ==> (r matches Some(v) && v@ == spec_compile(
                seq![65u8],
                spec_logon_fields(*settings, old(self).message_counter, *now),
            ) && final (self).message_counter == old(self).message_counter + 1),
            contract@ matches
                crate::fix_contract::YbFixContractView::SubscribeToInstrument(sym) ==> (r matches
                Some(v) && v@ == spec_compile(
                seq![86u8],
                spec_subscribe_fields(*settings, old(self).message_counter, req_id, *now, sym),
            ) && final (self).message_counter == old(self).message_counter + 1),
            !(contract@ is Ping || contract@ is Logon || contract@ is SubscribeToInstrument) ==> (r
                is None && final (self).message_counter == old(self).message_counter),
    {
        match contract {
            crate::fix_contract::YbFixContract::Ping => {
                let count = self.get_next_message_id();
                let w = serialize_ping(settings, count, now);
                Some(w.compile_message())
            },
            crate::fix_contract::YbFixContract::Logon => {
                let count = self.get_next_message_id();
                let w = serialize_logon(settings, count, now);
                Some(w.compile_message())
            },
            crate::fix_contract::YbFixContract::SubscribeToInstrument(instrument) => {
                let count = self.get_next_message_id();
                let w = serialize_instrument_subscribe(settings, count, req_id, now, instrument);
                Some(w.compile_message())
            },
            _ => None,
        }
    }

    /// The keep-alive contract handed to the transport on request.
    pub fn get_ping(&self) -> (r: crate::fix_contract::YbFixContract)
        ensures
            r@ is Ping,
    {
        crate::fix_contract::YbFixContract::Ping
    }
}

} // verus!
