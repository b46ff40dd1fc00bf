//! Classification of incoming FIX payloads into the closed contract set,
//! and extraction of market-data ticks. Every malformed or unexpected
//! message becomes a typed `Skip`, never an abort: the peer is an
//! external network party.
use vstd::prelude::*;

use crate::fix_date::{
    fix_date_ok, fix_date_value, lemma_fix_date_sound, parse_fix_date, spec_fix_date, FixDateTime,
};
use crate::fix_msg::{spec_get_value, spec_get_values, FixMessageReader};
use crate::split::{split_on, views_of};
use crate::text::{
    all_digits, check_num_text, check_symbol_text, dec_value, is_num_text, is_symbol_text,
    parse_number, SOH,
};

verus! {

/// FIX tag 35, MsgType.
pub open spec fn tag_msg_type() -> Seq<u8> {
    seq![51u8, 53u8]
}

/// FIX tag 268, NoMDEntries.
pub open spec fn tag_no_md_entries() -> Seq<u8> {
    seq![50u8, 54u8, 56u8]
}

/// FIX tag 270, MDEntryPx.
pub open spec fn tag_md_entry_px() -> Seq<u8> {
    seq![50u8, 55u8, 48u8]
}

/// FIX tag 55, Symbol.
pub open spec fn tag_symbol() -> Seq<u8> {
    seq![53u8, 53u8]
}

/// FIX tag 52, SendingTime.
pub open spec fn tag_sending_time() -> Seq<u8> {
    seq![53u8, 50u8]
}

/// Why a recognized message was deliberately not acted upon. `Skip` is a
/// diagnostic, not an error: the session continues.
#[derive(Clone, Copy, PartialEq, Eq, Structural, Debug)]
pub enum SkipReason {
    /// No MsgType field was found in the payload.
    MissingMessageType,
    /// The peer echoed a market-data request.
    SnapshotRequestEcho,
    /// A market-data message without the NoMDEntries field.
    MissingEntryCount,
    /// The NoMDEntries value is not a plain decimal count.
    BadEntryCount,
    /// The NoMDEntries count is below two.
    TooFewEntries,
    /// Fewer than two MDEntryPx fields are present.
    TooFewPrices,
    /// A price value is not a decimal number text.
    BadPrice,
    /// The Symbol field is absent.
    MissingSymbol,
    /// The Symbol value is empty or holds a framing byte.
    BadSymbol,
    /// The SendingTime field is absent.
    MissingSendingTime,
    /// The SendingTime value does not parse at its fixed positions.
    BadSendingTime,
}

/// One decoded tick: the provider's symbol, its timestamp, and the first
/// two prices in message order. The first is the bid and the second the
/// ask by provider contract, not by any computed ordering.
#[derive(Clone, Debug)]
pub struct YbMarketData {
    pub instrument_id: Vec<u8>,
    pub date: FixDateTime,
    pub bid: Vec<u8>,
    pub ask: Vec<u8>,
}

/// The mathematical shadow of a tick.
pub struct YbMarketDataView {
    pub instrument_id: Seq<u8>,
    pub date: FixDateTime,
    pub bid: Seq<u8>,
    pub ask: Seq<u8>,
}

impl View for YbMarketData {
    type V = YbMarketDataView;

    open spec fn view(&self) -> YbMarketDataView {
        YbMarketDataView {
            instrument_id: self.instrument_id@,
            date: self.date,
            bid: self.bid@,
            ask: self.ask@,
        }
    }
}

impl YbMarketDataView {
    pub open spec fn wf(self) -> bool {
        &&& is_symbol_text(self.instrument_id)
        &&& self.date.wf()
        &&& is_num_text(self.bid)
        &&& is_num_text(self.ask)
    }
}

/// The closed set of session contracts.
#[derive(Clone, Debug)]
pub enum YbFixContract {
    Logon,
    Reject,
    Logout,
    MarketData(YbMarketData),
    MarketDataReject,
    Others,
    Ping,
    Pong,
    SubscribeToInstrument(Vec<u8>),
    Skip(SkipReason),
}

/// The mathematical shadow of a contract.
pub enum YbFixContractView {
    Logon,
    Reject,
    Logout,
    MarketData(YbMarketDataView),
    MarketDataReject,
    Others,
    Ping,
    Pong,
    SubscribeToInstrument(Seq<u8>),
    Skip(SkipReason),
}

impl View for YbFixContract {
    type V = YbFixContractView;

    open spec fn view(&self) -> YbFixContractView {
        match self {
            YbFixContract::Logon => YbFixContractView::Logon,
            YbFixContract::Reject => YbFixContractView::Reject,
            YbFixContract::Logout => YbFixContractView::Logout,
            YbFixContract::MarketData(m) => YbFixContractView::MarketData(m@),
            YbFixContract::MarketDataReject => YbFixContractView::MarketDataReject,
            YbFixContract::Others => YbFixContractView::Others,
            YbFixContract::Ping => YbFixContractView::Ping,
            YbFixContract::Pong => YbFixContractView::Pong,
            YbFixContract::SubscribeToInstrument(s) => YbFixContractView::SubscribeToInstrument(
                s@,
            ),
            YbFixContract::Skip(r) => YbFixContractView::Skip(*r),
        }
    }
}

/// Whether a NoMDEntries value is a count `parse_number` accepts.
pub open spec fn entry_count_ok(v: Seq<u8>) -> bool {
    1 <= v.len() <= 18 && all_digits(v)
}

/// The extraction of a tick from the fields of a `W` message, with its
/// exact skip cases. Exactly the first two MDEntryPx values are taken, in
/// message order.
pub open spec fn spec_market_data(fs: Seq<Seq<u8>>) -> Result<YbMarketDataView, SkipReason> {
    match spec_get_value(fs, tag_no_md_entries()) {
        Option::None => Err(SkipReason::MissingEntryCount),
        Option::Some(count) => {
            if !entry_count_ok(count) {
                Err(SkipReason::BadEntryCount)
            } else if dec_value(count) < 2 {
                Err(SkipReason::TooFewEntries)
            } else {
                let prices = spec_get_values(fs, tag_md_entry_px());
                if prices.len() < 2 {
                    Err(SkipReason::TooFewPrices)
                } else if !is_num_text(prices[0]) || !is_num_text(prices[1]) {
                    Err(SkipReason::BadPrice)
                } else {
                    match spec_get_value(fs, tag_symbol()) {
                        Option::None => Err(SkipReason::MissingSymbol),
                        Option::Some(sym) => {
                            if !is_symbol_text(sym) {
                                Err(SkipReason::BadSymbol)
                            } else {
                                match spec_get_value(fs, tag_sending_time()) {
                                    Option::None => Err(SkipReason::MissingSendingTime),
                                    Option::Some(ds) => {
                                        if !fix_date_ok(ds) {
                                            Err(SkipReason::BadSendingTime)
                                        } else {
                                            Ok(
                                                YbMarketDataView {
                                                    instrument_id: sym,
                                                    date: fix_date_value(ds),
                                                    bid: prices[0],
                                                    ask: prices[1],
                                                },
                                            )
                                        }
                                    },
                                }
                            }
                        },
                    }
                }
            }
        },
    }
}

/// The classification of a whole payload by MsgType: `A` Logon, `W`
/// market data, `V` an echoed request, `Y` MarketDataReject, `3` Reject,
/// `5` Logout, anything else Others; a payload without MsgType is
/// skipped.
pub open spec fn spec_classify(fs: Seq<Seq<u8>>) -> YbFixContractView {
    match spec_get_value(fs, tag_msg_type()) {
        Option::None => YbFixContractView::Skip(SkipReason::MissingMessageType),
        Option::Some(mt) => {
            if mt == seq![65u8] {
                YbFixContractView::Logon
            } else if mt == seq![87u8] {
                match spec_market_data(fs) {
                    Ok(md) => YbFixContractView::MarketData(md),
                    Err(r) => YbFixContractView::Skip(r),
                }
            } else if mt == seq![86u8] {
                YbFixContractView::Skip(SkipReason::SnapshotRequestEcho)
            } else if mt == seq![89u8] {
                YbFixContractView::MarketDataReject
            } else if mt == seq![51u8] {
                YbFixContractView::Reject
            } else if mt == seq![53u8] {
                YbFixContractView::Logout
            } else {
                YbFixContractView::Others
            }
        },
    }
}

/// Extracts a tick from a `W` message: requires NoMDEntries present and
/// at least two, takes the first two MDEntryPx values in message order as
/// (bid, ask), the Symbol, and the SendingTime.
pub fn deserialize_market_data(fix_message: &FixMessageReader) -> (r: Result<
    YbMarketData,
    SkipReason,
>)
    ensures
        match r {
            Ok(md) => spec_market_data(fix_message@) matches Ok(v) && md@ == v && md@.wf(),
            Err(e) => spec_market_data(fix_message@) matches Err(e2) && e == e2,
        },
{
    let mut tag: Vec<u8> = Vec::new();
    tag.push(50);
    tag.push(54);
    tag.push(56);
    proof {
        assert(tag@ =~= tag_no_md_entries());
    }
    let count = match fix_message.get_value(tag.as_slice()) {
        Option::Some(c) => c,
        Option::None => {
            return Err(SkipReason::MissingEntryCount);
        },
    };
    let count_value = match parse_number(count.as_slice()) {
        Option::Some(n) => n,
        Option::None => {
            return Err(SkipReason::BadEntryCount);
        },
    };
    if count_value < 2 {
        return Err(SkipReason::TooFewEntries);
    }
    let mut tag: Vec<u8> = Vec::new();
    tag.push(50);
    tag.push(55);
    tag.push(48);
    proof {
        assert(tag@ =~= tag_md_entry_px());
    }
    let prices = fix_message.get_values(tag.as_slice());
    if prices.len() < 2 {
        return Err(SkipReason::TooFewPrices);
    }
    proof {
        assert(views_of(prices@)[0] == prices@[0]@);
        assert(views_of(prices@)[1] == prices@[1]@);
    }
    if !check_num_text(prices[0].as_slice()) || !check_num_text(prices[1].as_slice()) {
        return Err(SkipReason::BadPrice);
    }
    let mut tag: Vec<u8> = Vec::new();
    tag.push(53);
    tag.push(53);
    proof {
        assert(tag@ =~= tag_symbol());
    }
    let symbol = match fix_message.get_value(tag.as_slice()) {
        Option::Some(sym) => sym,
        Option::None => {
            return Err(SkipReason::MissingSymbol);
        },
    };
    if !check_symbol_text(symbol.as_slice()) {
        return Err(SkipReason::BadSymbol);
    }
    let mut tag: Vec<u8> = Vec::new();
    tag.push(53);
    tag.push(50);
    proof {
        assert(tag@ =~= tag_sending_time());
    }
    let date_text = match fix_message.get_value(tag.as_slice()) {
        Option::Some(ds) => ds,
        Option::None => {
            return Err(SkipReason::MissingSendingTime);
        },
    };
    let date = match parse_fix_date(date_text.as_slice()) {
        Option::Some(t) => t,
        Option::None => {
            return Err(SkipReason::BadSendingTime);
        },
    };
    let bid = prices[0].clone();
    let ask = prices[1].clone();
    Ok(YbMarketData { instrument_id: symbol, date, bid, ask })
}

impl YbFixContract {
    /// Splits a raw payload into FIX fields and classifies it. Never
    /// fails: whatever cannot be acted upon comes back as `Skip`.
    pub fn deserialize(fix_payload: Vec<u8>) -> (r: Self)
        ensures
            r@ == spec_classify(split_on(fix_payload@, SOH)),
            r@ matches YbFixContractView::MarketData(md) ==> md.wf(),
    {
        let reader = FixMessageReader::from_bytes(fix_payload.as_slice());
        let mut tag: Vec<u8> = Vec::new();
        tag.push(51);
        tag.push(53);
        proof {
            assert(tag@ =~= tag_msg_type());
        }
        let msg_type = match reader.get_value(tag.as_slice()) {
            Option::Some(mt) => mt,
            Option::None => {
                return YbFixContract::Skip(SkipReason::MissingMessageType);
            },
        };
        if msg_type.len() == 1 && msg_type[0] == 65 {
            proof {
                assert(msg_type@ =~= seq![65u8]);
            }
            return YbFixContract::Logon;
        }
        if msg_type.len() == 1 && msg_type[0] == 87 {
            proof {
                assert(msg_type@ =~= seq![87u8]);
            }
            return match deserialize_market_data(&reader) {
                Ok(md) => YbFixContract::MarketData(md),
                Err(r) => YbFixContract::Skip(r),
            };
        }
        if msg_type.len() == 1 && msg_type[0] == 86 {
            proof {
                assert(msg_type@ =~= seq![86u8]);
            }
            return YbFixContract::Skip(SkipReason::SnapshotRequestEcho);
        }
        if msg_type.len() == 1 && msg_type[0] == 89 {
            proof {
                assert(msg_type@ =~= seq![89u8]);
            }
            return YbFixContract::MarketDataReject;
        }
        if msg_type.len() == 1 && msg_type[0] == 51 {
            proof {
                assert(msg_type@ =~= seq![51u8]);
            }
            return YbFixContract::Reject;
        }
        if msg_type.len() == 1 && msg_type[0] == 53 {
            proof {
                assert(msg_type@ =~= seq![53u8]);
            }
            return YbFixContract::Logout;
        }
        proof {
            if msg_type@ == seq![65u8] {
                assert(msg_type@.len() == 1 && msg_type@[0] == 65);
            }
            if msg_type@ == seq![87u8] {
                assert(msg_type@.len() == 1 && msg_type@[0] == 87);
            }
            if msg_type@ == seq![86u8] {
                assert(msg_type@.len() == 1 && msg_type@[0] == 86);
            }
            if msg_type@ == seq![89u8] {
                assert(msg_type@.len() == 1 && msg_type@[0] == 89);
            }
            if msg_type@ == seq![51u8] {
                assert(msg_type@.len() == 1 && msg_type@[0] == 51);
            }
            if msg_type@ == seq![53u8] {
                assert(msg_type@.len() == 1 && msg_type@[0] == 53);
            }
        }
        YbFixContract::Others
    }

    /// Whether this is the keep-alive reply contract.
    pub fn is_pong(&self) -> (r: bool)
        ensures
            r == (self@ is Pong),
    {
        match self {
            YbFixContract::Pong => true,
            _ => false,
        }
    }
}

/// A `W` message whose NoMDEntries field is absent, not a plain count, or
/// below two classifies as `Skip` — never as `MarketData`.
pub proof fn lemma_low_entry_count_skips(fs: Seq<Seq<u8>>)
    requires
        spec_get_value(fs, tag_msg_type()) == Option::Some(seq![87u8]),
        match spec_get_value(fs, tag_no_md_entries()) {
            Option::None => true,
            Option::Some(count) => !entry_count_ok(count) || dec_value(count) < 2,
        },
    ensures
        spec_classify(fs) is Skip,
        !(spec_classify(fs) is MarketData),
{
    let mt = spec_get_value(fs, tag_msg_type())->Some_0;
    assert(mt != seq![65u8]) by {
        assert(mt[0] == 87);
    }
    assert(spec_market_data(fs) is Err);
}

/// A decoded tick names exactly the instant its message named: rendering
/// the tick's timestamp gives the SendingTime field back, byte for byte,
/// and its prices are the first two price fields in message order.
pub proof fn lemma_tick_faithful(fs: Seq<Seq<u8>>)
    requires
        spec_market_data(fs) is Ok,
    ensures
        spec_market_data(fs) matches Ok(md) && {
            &&& spec_get_value(fs, tag_sending_time()) == Option::Some(spec_fix_date(md.date))
            &&& spec_get_value(fs, tag_symbol()) == Option::Some(md.instrument_id)
            &&& md.bid == spec_get_values(fs, tag_md_entry_px())[0]
            &&& md.ask == spec_get_values(fs, tag_md_entry_px())[1]
        },
{
    let ds = spec_get_value(fs, tag_sending_time())->Some_0;
    lemma_fix_date_sound(ds);
}

} // verus!
