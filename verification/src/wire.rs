//! The broadcast wire codec: ASCII records, space-delimited, of the shape
//! `A <exchange_id> <instrument_id> B<bid> A<ask> <volume> <marker><stamp>`,
//! beside the bare keep-alive literals `PING` and `PONG`.
use vstd::prelude::*;

use crate::fix_date::{
    lemma_wire_stamp_bytes, lemma_wire_stamp_complete, lemma_wire_stamp_sound, parse_wire_stamp,
    spec_wire_stamp, wire_stamp_ok, wire_stamp_value, FixDateTime,
};
use crate::split::{
    has_byte, join_with, lemma_join_split, lemma_split_join, lemma_split_no_delim, split_bytes,
    split_on, views_of,
};
use crate::text::{check_num_text, check_symbol_text, is_num_text, is_symbol_text, CR, LF, SPACE};

verus! {

/// Marker byte for a provider-sourced timestamp.
pub const SOURCE_DATE_TIME: u8 = 83;

/// Marker byte for a bridge-observed timestamp.
pub const OUR_DATE_TIME: u8 = 79;

/// Marker byte for a generated timestamp.
pub const GENERATED_DATE_TIME: u8 = 71;

/// ASCII capital A: the record lead-in and the ask price marker.
pub const UPPER_A: u8 = 65;

/// ASCII capital B: the bid price marker.
pub const UPPER_B: u8 = 66;

/// The bare keep-alive request record.
pub open spec fn ping_literal() -> Seq<u8> {
    seq![80u8, 73u8, 78u8, 71u8]
}

/// The bare keep-alive reply record.
pub open spec fn pong_literal() -> Seq<u8> {
    seq![80u8, 79u8, 78u8, 71u8]
}

/// A wire timestamp: the instant and the marker that says where it was
/// taken.
#[derive(Clone, Copy, PartialEq, Eq, Structural, Debug)]
pub enum BidAskDateTimeTcpModel {
    Source(FixDateTime),
    Our(FixDateTime),
    Generated(FixDateTime),
}

impl BidAskDateTimeTcpModel {
    pub open spec fn wf(self) -> bool {
        self.timestamp().wf()
    }

    pub open spec fn timestamp(self) -> FixDateTime {
        match self {
            BidAskDateTimeTcpModel::Source(t) => t,
            BidAskDateTimeTcpModel::Our(t) => t,
            BidAskDateTimeTcpModel::Generated(t) => t,
        }
    }

    pub open spec fn marker(self) -> u8 {
        match self {
            BidAskDateTimeTcpModel::Source(_) => SOURCE_DATE_TIME,
            BidAskDateTimeTcpModel::Our(_) => OUR_DATE_TIME,
            BidAskDateTimeTcpModel::Generated(_) => GENERATED_DATE_TIME,
        }
    }

    /// Renders the marker byte followed by the wire stamp.
    pub fn serialize(&self) -> (r: Vec<u8>)
        requires
            self.wf(),
        ensures
            r@ == spec_ser_date(*self),
    {
        let mut r: Vec<u8> = Vec::new();
        let (marker, t) = match self {
            BidAskDateTimeTcpModel::Source(t) => (SOURCE_DATE_TIME, t),
            BidAskDateTimeTcpModel::Our(t) => (OUR_DATE_TIME, t),
            BidAskDateTimeTcpModel::Generated(t) => (GENERATED_DATE_TIME, t),
        };
        r.push(marker);
        let mut stamp = crate::fix_date::to_wire_stamp(t);
        r.append(&mut stamp);
        proof {
            assert(r@ =~= spec_ser_date(*self));
        }
        r
    }

    /// Reads a marker byte and a wire stamp.
    pub fn deserialize(date_data: &[u8]) -> (r: Result<Self, SerializeError>)
        ensures
            r == spec_parse_date(date_data@),
    {
        if date_data.len() == 0 {
            return Err(SerializeError::MissingDateMarker);
        }
        let marker = date_data[0];
        if marker != SOURCE_DATE_TIME && marker != OUR_DATE_TIME && marker != GENERATED_DATE_TIME {
            return Err(SerializeError::InvalidDateMarker);
        }
        let stamp = parse_wire_stamp(vstd::slice::slice_subrange(date_data, 1, date_data.len()));
        proof {
            assert(date_data@.subrange(1, date_data@.len() as int) == date_data@.skip(1));
        }
        match stamp {
            Some(t) => {
                if marker == SOURCE_DATE_TIME {
                    Ok(BidAskDateTimeTcpModel::Source(t))
                } else if marker == OUR_DATE_TIME {
                    Ok(BidAskDateTimeTcpModel::Our(t))
                } else {
                    Ok(BidAskDateTimeTcpModel::Generated(t))
                }
            },
            None => Err(SerializeError::InvalidDate),
        }
    }
}

/// The rendering of a wire timestamp: one marker byte, then the stamp.
pub open spec fn spec_ser_date(d: BidAskDateTimeTcpModel) -> Seq<u8> {
    seq![d.marker()] + spec_wire_stamp(d.timestamp())
}

/// The parse of a wire timestamp field, with its exact error cases.
pub open spec fn spec_parse_date(s: Seq<u8>) -> Result<
    BidAskDateTimeTcpModel,
    SerializeError,
> {
    if s.len() == 0 {
        Err(SerializeError::MissingDateMarker)
    } else if s[0] != SOURCE_DATE_TIME && s[0] != OUR_DATE_TIME && s[0] != GENERATED_DATE_TIME {
        Err(SerializeError::InvalidDateMarker)
    } else if !wire_stamp_ok(s.skip(1)) {
        Err(SerializeError::InvalidDate)
    } else if s[0] == SOURCE_DATE_TIME {
        Ok(BidAskDateTimeTcpModel::Source(wire_stamp_value(s.skip(1))))
    } else if s[0] == OUR_DATE_TIME {
        Ok(BidAskDateTimeTcpModel::Our(wire_stamp_value(s.skip(1))))
    } else {
        Ok(BidAskDateTimeTcpModel::Generated(wire_stamp_value(s.skip(1))))
    }
}

/// What can be wrong with a single broadcast record. A failure drops that
/// record alone; the connection stays open.
#[derive(Clone, Copy, PartialEq, Eq, Structural, Debug)]
pub enum SerializeError {
    /// The timestamp digits or ranges are broken.
    InvalidDate,
    /// The timestamp marker byte is not one of the known set.
    InvalidDateMarker,
    /// The timestamp field is empty.
    MissingDateMarker,
    /// The record does not split into exactly seven fields.
    DateSerializeError,
    /// The record does not open with the `A` lead-in token.
    InvalidLeadingToken,
    /// An identifier field is empty or holds a framing byte.
    InvalidSymbolText,
    /// A price field does not open with its `B`/`A` marker byte.
    InvalidPriceMarker,
    /// A price or volume field is not a decimal number text.
    InvalidNumberText,
}

/// One bid/ask record as carried on the wire. Prices and volume are held
/// as their decimal texts, exactly as rendered.
#[derive(Clone, Debug)]
pub struct BidAskDataTcpModel {
    pub exchange_id: Vec<u8>,
    pub instrument_id: Vec<u8>,
    pub bid: Vec<u8>,
    pub ask: Vec<u8>,
    pub volume: Vec<u8>,
    pub date_time: BidAskDateTimeTcpModel,
}

/// The mathematical shadow of a record.
pub struct BidAskDataView {
    pub exchange_id: Seq<u8>,
    pub instrument_id: Seq<u8>,
    pub bid: Seq<u8>,
    pub ask: Seq<u8>,
    pub volume: Seq<u8>,
    pub date_time: BidAskDateTimeTcpModel,
}

impl View for BidAskDataTcpModel {
    type V = BidAskDataView;

    open spec fn view(&self) -> BidAskDataView {
        BidAskDataView {
            exchange_id: self.exchange_id@,
            instrument_id: self.instrument_id@,
            bid: self.bid@,
            ask: self.ask@,
            volume: self.volume@,
            date_time: self.date_time,
        }
    }
}

impl BidAskDataView {
    /// Fields under which the record serializes and parses back losslessly.
    pub open spec fn wf(self) -> bool {
        &&& is_symbol_text(self.exchange_id)
        &&& is_symbol_text(self.instrument_id)
        &&& is_num_text(self.bid)
        &&& is_num_text(self.ask)
        &&& is_num_text(self.volume)
        &&& self.date_time.wf()
    }
}

/// The rendering of a record.
pub open spec fn spec_ser_data(v: BidAskDataView) -> Seq<u8> {
    seq![UPPER_A, SPACE] + v.exchange_id + seq![SPACE] + v.instrument_id + seq![SPACE, UPPER_B]
        + v.bid + seq![SPACE, UPPER_A] + v.ask + seq![SPACE] + v.volume + seq![SPACE]
        + spec_ser_date(v.date_time)
}

/// The parse of a record, with its exact error cases, over the split into
/// space-delimited fields.
pub open spec fn spec_parse_data(s: Seq<u8>) -> Result<BidAskDataView, SerializeError> {
    let cs = split_on(s, SPACE);
    if cs.len() != 7 {
        Err(SerializeError::DateSerializeError)
    } else if cs[0] != seq![UPPER_A] {
        Err(SerializeError::InvalidLeadingToken)
    } else if !is_symbol_text(cs[1]) || !is_symbol_text(cs[2]) {
        Err(SerializeError::InvalidSymbolText)
    } else if cs[3].len() == 0 || cs[3][0] != UPPER_B || cs[4].len() == 0 || cs[4][0] != UPPER_A {
        Err(SerializeError::InvalidPriceMarker)
    } else if !is_num_text(cs[3].skip(1)) || !is_num_text(cs[4].skip(1)) || !is_num_text(cs[5]) {
        Err(SerializeError::InvalidNumberText)
    } else {
        match spec_parse_date(cs[6]) {
            Ok(d) => Ok(
                BidAskDataView {
                    exchange_id: cs[1],
                    instrument_id: cs[2],
                    bid: cs[3].skip(1),
                    ask: cs[4].skip(1),
                    volume: cs[5],
                    date_time: d,
                },
            ),
            Err(e) => Err(e),
        }
    }
}

impl BidAskDataTcpModel {
    /// Whether the record meets the wire grammar, field by field.
    pub fn is_wf(&self) -> (r: bool)
        ensures
            r == self@.wf(),
    {
        check_symbol_text(self.exchange_id.as_slice()) && check_symbol_text(
            self.instrument_id.as_slice(),
        ) && check_num_text(self.bid.as_slice()) && check_num_text(self.ask.as_slice())
            && check_num_text(self.volume.as_slice()) && {
            let t = match &self.date_time {
                BidAskDateTimeTcpModel::Source(t) => t,
                BidAskDateTimeTcpModel::Our(t) => t,
                BidAskDateTimeTcpModel::Generated(t) => t,
            };
            t.year <= 9999 && 1 <= t.month && t.month <= 12 && 1 <= t.day && t.day <= 31 && t.hour
                <= 23 && t.minute <= 59 && t.second <= 59 && t.millisecond <= 999
        }
    }

    /// Renders the record in wire field order.
    pub fn serialize(&self) -> (r: Vec<u8>)
        requires
            self@.wf(),
        ensures
            r@ == spec_ser_data(self@),
    {
        let mut r: Vec<u8> = Vec::new();
        r.push(UPPER_A);
        r.push(SPACE);
        r.extend_from_slice(self.exchange_id.as_slice());
        r.push(SPACE);
        r.extend_from_slice(self.instrument_id.as_slice());
        r.push(SPACE);
        r.push(UPPER_B);
        r.extend_from_slice(self.bid.as_slice());
        r.push(SPACE);
        r.push(UPPER_A);
        r.extend_from_slice(self.ask.as_slice());
        r.push(SPACE);
        r.extend_from_slice(self.volume.as_slice());
        r.push(SPACE);
        let mut date = self.date_time.serialize();
        r.append(&mut date);
        proof {
            assert(r@ =~= spec_ser_data(self@));
        }
        r
    }

    /// Splits a record on spaces and validates every field.
    pub fn deserialize(src: &[u8]) -> (r: Result<Self, SerializeError>)
        ensures
            match r {
                Ok(m) => spec_parse_data(src@) matches Ok(v) && m@ == v,
                Err(e) => spec_parse_data(src@) matches Err(e2) && e == e2,
            },
    {
        let chunks = split_bytes(src, SPACE);
        proof {
            assert(views_of(chunks@) == split_on(src@, SPACE));
        }
        if chunks.len() != 7 {
            return Err(SerializeError::DateSerializeError);
        }
        if !(chunks[0].len() == 1 && chunks[0][0] == UPPER_A) {
            proof {
                assert(views_of(chunks@)[0] == chunks@[0]@);
                if chunks@[0]@ == seq![UPPER_A] {
                    assert(chunks@[0]@.len() == 1 && chunks@[0]@[0] == UPPER_A);
                }
            }
            return Err(SerializeError::InvalidLeadingToken);
        }
        proof {
            assert(views_of(chunks@)[0] == chunks@[0]@);
            assert(chunks@[0]@ =~= seq![UPPER_A]);
        }
        let exchange_ok = check_symbol_text(chunks[1].as_slice());
        let instrument_ok = check_symbol_text(chunks[2].as_slice());
        if !exchange_ok || !instrument_ok {
            return Err(SerializeError::InvalidSymbolText);
        }
        if chunks[3].len() == 0 || chunks[3][0] != UPPER_B || chunks[4].len() == 0
            || chunks[4][0] != UPPER_A {
            return Err(SerializeError::InvalidPriceMarker);
        }
        let bid_part = vstd::slice::slice_subrange(chunks[3].as_slice(), 1, chunks[3].len());
        let ask_part = vstd::slice::slice_subrange(chunks[4].as_slice(), 1, chunks[4].len());
        proof {
            assert(chunks@[3]@.subrange(1, chunks@[3]@.len() as int) == chunks@[3]@.skip(1));
            assert(chunks@[4]@.subrange(1, chunks@[4]@.len() as int) == chunks@[4]@.skip(1));
        }
        if !check_num_text(bid_part) || !check_num_text(ask_part) || !check_num_text(
            chunks[5].as_slice(),
        ) {
            return Err(SerializeError::InvalidNumberText);
        }
        let date_time = match BidAskDateTimeTcpModel::deserialize(chunks[6].as_slice()) {
            Ok(d) => d,
            Err(e) => {
                return Err(e);
            },
        };
        let model = BidAskDataTcpModel {
            exchange_id: chunks[1].clone(),
            instrument_id: chunks[2].clone(),
            bid: vstd::slice::slice_to_vec(bid_part),
            ask: vstd::slice::slice_to_vec(ask_part),
            volume: chunks[5].clone(),
            date_time,
        };
        Ok(model)
    }
}

/// A message of the broadcast listener: a keep-alive or one record.
#[derive(Clone, Debug)]
pub enum BidAskTcpMessage {
    Ping,
    Pong,
    BidAsk(BidAskDataTcpModel),
}

/// The mathematical shadow of a message.
pub enum BidAskTcpMessageView {
    Ping,
    Pong,
    BidAsk(BidAskDataView),
}

impl View for BidAskTcpMessage {
    type V = BidAskTcpMessageView;

    open spec fn view(&self) -> BidAskTcpMessageView {
        match self {
            BidAskTcpMessage::Ping => BidAskTcpMessageView::Ping,
            BidAskTcpMessage::Pong => BidAskTcpMessageView::Pong,
            BidAskTcpMessage::BidAsk(d) => BidAskTcpMessageView::BidAsk(d@),
        }
    }
}

impl BidAskTcpMessageView {
    pub open spec fn wf(self) -> bool {
        match self {
            BidAskTcpMessageView::Ping => true,
            BidAskTcpMessageView::Pong => true,
            BidAskTcpMessageView::BidAsk(d) => d.wf(),
        }
    }
}

/// The rendering of a message.
pub open spec fn spec_ser_msg(v: BidAskTcpMessageView) -> Seq<u8> {
    match v {
        BidAskTcpMessageView::Ping => ping_literal(),
        BidAskTcpMessageView::Pong => pong_literal(),
        BidAskTcpMessageView::BidAsk(d) => spec_ser_data(d),
    }
}

/// The parse of a message: the bare keep-alive literals bypass the record
/// grammar entirely.
pub open spec fn spec_parse_msg(s: Seq<u8>) -> Result<BidAskTcpMessageView, SerializeError> {
    if s == ping_literal() {
        Ok(BidAskTcpMessageView::Ping)
    } else if s == pong_literal() {
        Ok(BidAskTcpMessageView::Pong)
    } else {
        match spec_parse_data(s) {
            Ok(d) => Ok(BidAskTcpMessageView::BidAsk(d)),
            Err(e) => Err(e),
        }
    }
}

impl BidAskTcpMessage {
    /// Whether this is the keep-alive request.
    pub fn is_ping(&self) -> (r: bool)
        ensures
            r == (self@ is Ping),
    {
        match self {
            BidAskTcpMessage::Ping => true,
            _ => false,
        }
    }

    /// Whether this is the keep-alive reply.
    pub fn is_pong(&self) -> (r: bool)
        ensures
            r == (self@ is Pong),
    {
        match self {
            BidAskTcpMessage::Pong => true,
            _ => false,
        }
    }

    /// Whether this carries a record.
    pub fn is_bid_ask(&self) -> (r: bool)
        ensures
            r == (self@ is BidAsk),
    {
        match self {
            BidAskTcpMessage::Ping => false,
            BidAskTcpMessage::Pong => false,
            BidAskTcpMessage::BidAsk(_) => true,
        }
    }

    pub fn is_wf(&self) -> (r: bool)
        ensures
            r == self@.wf(),
    {
        match self {
            BidAskTcpMessage::Ping => true,
            BidAskTcpMessage::Pong => true,
            BidAskTcpMessage::BidAsk(d) => d.is_wf(),
        }
    }

    /// Parses one payload, keep-alive literals first.
    pub fn parse(src: &[u8]) -> (r: Result<Self, SerializeError>)
        ensures
            match r {
                Ok(m) => spec_parse_msg(src@) matches Ok(v) && m@ == v,
                Err(e) => spec_parse_msg(src@) matches Err(e2) && e == e2,
            },
    {
        if src.len() == 4 && src[0] == 80 && src[1] == 73 && src[2] == 78 && src[3] == 71 {
            proof {
                assert(src@ =~= ping_literal());
            }
            return Ok(BidAskTcpMessage::Ping);
        }
        if src.len() == 4 && src[0] == 80 && src[1] == 79 && src[2] == 78 && src[3] == 71 {
            proof {
                assert(src@ =~= pong_literal());
            }
            return Ok(BidAskTcpMessage::Pong);
        }
        proof {
            if src@ == ping_literal() {
                assert(src@.len() == 4 && src@[0] == 80 && src@[1] == 73 && src@[2] == 78
                    && src@[3] == 71);
            }
            if src@ == pong_literal() {
                assert(src@.len() == 4 && src@[0] == 80 && src@[1] == 79 && src@[2] == 78
                    && src@[3] == 71);
            }
        }
        match BidAskDataTcpModel::deserialize(src) {
            Ok(m) => Ok(BidAskTcpMessage::BidAsk(m)),
            Err(e) => Err(e),
        }
    }

    /// Renders one message.
    pub fn serialize(&self) -> (r: Vec<u8>)
        requires
            self@.wf(),
        ensures
            r@ == spec_ser_msg(self@),
    {
        match self {
            BidAskTcpMessage::Ping => {
                let mut r: Vec<u8> = Vec::new();
                r.push(80);
                r.push(73);
                r.push(78);
                r.push(71);
                proof {
                    assert(r@ =~= ping_literal());
                }
                r
            },
            BidAskTcpMessage::Pong => {
                let mut r: Vec<u8> = Vec::new();
                r.push(80);
                r.push(79);
                r.push(78);
                r.push(71);
                proof {
                    assert(r@ =~= pong_literal());
                }
                r
            },
            BidAskTcpMessage::BidAsk(d) => d.serialize(),
        }
    }

    /// Renders one message with the CRLF frame terminator appended, as it
    /// goes onto the socket.
    pub fn serialize_framed(&self) -> (r: Vec<u8>)
        requires
            self@.wf(),
        ensures
            r@ == spec_ser_msg(self@) + seq![CR, LF],
    {
        let mut r = self.serialize();
        r.push(CR);
        r.push(LF);
        proof {
            assert(r@ =~= spec_ser_msg(self@) + seq![CR, LF]);
        }
        r
    }

    /// Strips the CRLF frame terminator from a framed read and parses what
    /// is left. A frame not ending in CRLF is a framing failure.
    pub fn parse_framed(buf: &[u8]) -> (r: Result<Self, SerializeError>)
        ensures
            buf@.len() >= 2 && buf@[buf@.len() - 2] == CR && buf@[buf@.len() - 1] == LF ==> (match r {
                Ok(m) => spec_parse_msg(buf@.subrange(0, buf@.len() - 2)) matches Ok(v) && m@ == v,
                Err(e) => spec_parse_msg(buf@.subrange(0, buf@.len() - 2)) matches Err(e2) && e
                    == e2,
            }),
            !(buf@.len() >= 2 && buf@[buf@.len() - 2] == CR && buf@[buf@.len() - 1] == LF) ==> (r
                matches Err(e) && e == SerializeError::DateSerializeError),
    {
        if buf.len() < 2 || buf[buf.len() - 2] != CR || buf[buf.len() - 1] != LF {
            return Err(SerializeError::DateSerializeError);
        }
        Self::parse(&buf[0..buf.len() - 2])
    }

    /// The keep-alive contract handed to the transport on request.
    pub fn get_ping() -> (r: Self)
        ensures
            r@ is Ping,
    {
        BidAskTcpMessage::Ping
    }
}

/// Round trip of one record: parsing a rendered well-formed record gives
/// the record back, field for field.
#[verifier::rlimit(80)]
pub proof fn lemma_data_round_trip(v: BidAskDataView)
    requires
        v.wf(),
    ensures
        spec_parse_data(spec_ser_data(v)) matches Ok(u) && u == v,
{
    let s = spec_ser_data(v);
    let date_bytes = spec_ser_date(v.date_time);
    let c0: Seq<u8> = seq![UPPER_A];
    let c3 = seq![UPPER_B] + v.bid;
    let c4 = seq![UPPER_A] + v.ask;
    assert(!has_byte(c0, SPACE));
    assert(!has_byte(v.exchange_id, SPACE));
    assert(!has_byte(v.instrument_id, SPACE));
    assert(!has_byte(c3, SPACE)) by {
        assert(forall|i: int| 1 <= i < c3.len() ==> c3[i] == v.bid[i - 1]);
    }
    assert(!has_byte(c4, SPACE)) by {
        assert(forall|i: int| 1 <= i < c4.len() ==> c4[i] == v.ask[i - 1]);
    }
    assert(!has_byte(v.volume, SPACE));
    assert(!has_byte(date_bytes, SPACE)) by {
        lemma_wire_stamp_bytes(v.date_time.timestamp());
        assert(forall|i: int|
            1 <= i < date_bytes.len() ==> date_bytes[i] == spec_wire_stamp(
                v.date_time.timestamp(),
            )[i - 1]);
    }
    let r6 = date_bytes;
    let r5 = v.volume + seq![SPACE] + r6;
    let r4 = c4 + seq![SPACE] + r5;
    let r3 = c3 + seq![SPACE] + r4;
    let r2 = v.instrument_id + seq![SPACE] + r3;
    let r1 = v.exchange_id + seq![SPACE] + r2;
    let r0 = c0 + seq![SPACE] + r1;
    assert(s =~= r0);
    lemma_split_no_delim(r6, SPACE);
    lemma_split_join(v.volume, r6, SPACE);
    assert(v.volume + seq![SPACE] + r6 =~= r5);
    lemma_split_join(c4, r5, SPACE);
    lemma_split_join(c3, r4, SPACE);
    lemma_split_join(v.instrument_id, r3, SPACE);
    lemma_split_join(v.exchange_id, r2, SPACE);
    lemma_split_join(c0, r1, SPACE);
    let cs = split_on(s, SPACE);
    assert(cs =~~= seq![c0, v.exchange_id, v.instrument_id, c3, c4, v.volume, r6]);
    assert(cs.len() == 7);
    assert(cs[0] == c0);
    assert(c3.skip(1) =~= v.bid);
    assert(c4.skip(1) =~= v.ask);
    assert(c3[0] == UPPER_B && c4[0] == UPPER_A);
    lemma_wire_stamp_complete(v.date_time.timestamp());
    assert(date_bytes.skip(1) =~= spec_wire_stamp(v.date_time.timestamp()));
    assert(spec_parse_date(date_bytes) == Ok::<BidAskDateTimeTcpModel, SerializeError>(
        v.date_time,
    ));
    let parsed = spec_parse_data(s);
    assert(parsed matches Ok(u) && u == v) by {
        let u = parsed->Ok_0;
        assert(u.exchange_id == v.exchange_id);
    }
}

/// Round trip of one message. The keep-alive literals are told apart from
/// records by their first byte.
pub proof fn lemma_msg_round_trip(v: BidAskTcpMessageView)
    requires
        v.wf(),
    ensures
        spec_parse_msg(spec_ser_msg(v)) matches Ok(u) && u == v,
{
    match v {
        BidAskTcpMessageView::Ping => {
        },
        BidAskTcpMessageView::Pong => {
        },
        BidAskTcpMessageView::BidAsk(d) => {
            let s = spec_ser_data(d);
            assert(s[0] == UPPER_A);
            assert(s != ping_literal() && s != pong_literal()) by {
                assert(ping_literal()[0] == 80 && pong_literal()[0] == 80);
            }
            lemma_data_round_trip(d);
        },
    }
}

/// The other direction of the record round trip: a byte string the
/// record parser accepts is well formed and renders back to itself, byte
/// for byte. With the round trip above, parsing and rendering are
/// mutually inverse.
#[verifier::rlimit(80)]
pub proof fn lemma_data_reencode(s: Seq<u8>)
    requires
        spec_parse_data(s) is Ok,
    ensures
        spec_parse_data(s) matches Ok(v) && v.wf() && spec_ser_data(v) == s,
{
    let cs = split_on(s, SPACE);
    let v = spec_parse_data(s)->Ok_0;
    lemma_join_split(s, SPACE);
    let t1 = cs.subrange(1, 7);
    let t2 = cs.subrange(2, 7);
    let t3 = cs.subrange(3, 7);
    let t4 = cs.subrange(4, 7);
    let t5 = cs.subrange(5, 7);
    let t6 = cs.subrange(6, 7);
    assert(t1.subrange(1, t1.len() as int) =~~= t2);
    assert(t2.subrange(1, t2.len() as int) =~~= t3);
    assert(t3.subrange(1, t3.len() as int) =~~= t4);
    assert(t4.subrange(1, t4.len() as int) =~~= t5);
    assert(t5.subrange(1, t5.len() as int) =~~= t6);
    assert(join_with(t6, SPACE) == cs[6]);
    assert(join_with(t5, SPACE) == cs[5] + seq![SPACE] + cs[6]);
    assert(join_with(t4, SPACE) == cs[4] + seq![SPACE] + join_with(t5, SPACE));
    assert(join_with(t3, SPACE) == cs[3] + seq![SPACE] + join_with(t4, SPACE));
    assert(join_with(t2, SPACE) == cs[2] + seq![SPACE] + join_with(t3, SPACE));
    assert(join_with(t1, SPACE) == cs[1] + seq![SPACE] + join_with(t2, SPACE));
    assert(join_with(cs, SPACE) == cs[0] + seq![SPACE] + join_with(t1, SPACE));
    let ds = cs[6];
    let d = spec_parse_date(ds)->Ok_0;
    lemma_wire_stamp_sound(ds.skip(1));
    assert(d.timestamp() == wire_stamp_value(ds.skip(1)));
    assert(d.marker() == ds[0]);
    assert(spec_ser_date(d) =~= ds);
    assert(seq![UPPER_B] + cs[3].skip(1) =~= cs[3]);
    assert(seq![UPPER_A] + cs[4].skip(1) =~= cs[4]);
    assert(v.date_time == d);
    assert(spec_ser_data(v) =~= s);
}

/// The other direction of the message round trip, keep-alive literals
/// included.
pub proof fn lemma_msg_reencode(s: Seq<u8>)
    requires
        spec_parse_msg(s) is Ok,
    ensures
        spec_parse_msg(s) matches Ok(v) && v.wf() && spec_ser_msg(v) == s,
{
    if s == ping_literal() {
    } else if s == pong_literal() {
    } else {
        lemma_data_reencode(s);
    }
}

} // verus!
