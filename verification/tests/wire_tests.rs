use price_bridge::fix_date::{parse_fix_date, to_iso_date_string, FixDateTime};
use price_bridge::wire::{
    BidAskDataTcpModel, BidAskDateTimeTcpModel, BidAskTcpMessage, SerializeError,
};

fn bytes(s: &str) -> Vec<u8> {
    s.as_bytes().to_vec()
}

fn sample_stamp() -> FixDateTime {
    FixDateTime { year: 2023, month: 2, day: 13, hour: 14, minute: 22, second: 25, millisecond: 555 }
}

fn sample_model() -> BidAskDataTcpModel {
    BidAskDataTcpModel {
        exchange_id: bytes("BINANCE"),
        instrument_id: bytes("EURUSD"),
        bid: bytes("1.55555"),
        ask: bytes("2.55555"),
        volume: bytes("50000000"),
        date_time: BidAskDateTimeTcpModel::Source(sample_stamp()),
    }
}

#[test]
fn test_parse_date() {
    let date = "20240425-17:28:02.629";
    let date = parse_fix_date(date.as_bytes()).unwrap();
    let rendered = to_iso_date_string(&date);
    assert_eq!(&rendered[..23], "2024-04-25T17:28:02.629".as_bytes());
}

#[test]
fn test_deserialize() {
    let message = b"A BINANCE EURUSD B1.55555 A2.55555 50000000 S20230213142225.555";
    let result = BidAskDataTcpModel::deserialize(message).unwrap();

    assert_eq!(result.exchange_id, bytes("BINANCE"));
    assert_eq!(result.instrument_id, bytes("EURUSD"));
    assert_eq!(result.bid, bytes("1.55555"));
    assert_eq!(String::from_utf8(result.bid.clone()).unwrap().parse::<f64>().unwrap(), 1.55555);
    assert_eq!(result.ask, bytes("2.55555"));
    assert_eq!(String::from_utf8(result.ask.clone()).unwrap().parse::<f64>().unwrap(), 2.55555);
    assert_eq!(result.volume, bytes("50000000"));
    assert_eq!(
        String::from_utf8(result.volume.clone()).unwrap().parse::<f64>().unwrap(),
        50000000.0
    );

    let is_source = match result.date_time {
        BidAskDateTimeTcpModel::Source(_) => true,
        BidAskDateTimeTcpModel::Our(_) => false,
        BidAskDateTimeTcpModel::Generated(_) => false,
    };

    assert_eq!(is_source, true);
}

#[test]
fn test_serialize() {
    let message = "A BINANCE EURUSD B1.55555 A2.55555 50000000 S20230213142225.555";

    let result = sample_model();
    let serialized = result.serialize();

    assert_eq!(String::from_utf8(serialized).unwrap(), message);
}

#[test]
fn wire_date_parses_positionally() {
    let parsed = BidAskDateTimeTcpModel::deserialize(b"S20230213142225.555").unwrap();
    match parsed {
        BidAskDateTimeTcpModel::Source(t) => {
            assert_eq!(t, sample_stamp());
        }
        _ => panic!("wrong marker"),
    }
}

#[test]
fn message_round_trip() {
    let msg = BidAskTcpMessage::BidAsk(sample_model());
    let rendered = msg.serialize();
    let back = BidAskTcpMessage::parse(&rendered).unwrap();
    match back {
        BidAskTcpMessage::BidAsk(m) => {
            assert_eq!(m.exchange_id, bytes("BINANCE"));
            assert_eq!(m.instrument_id, bytes("EURUSD"));
            assert_eq!(m.bid, bytes("1.55555"));
            assert_eq!(m.ask, bytes("2.55555"));
            assert_eq!(m.volume, bytes("50000000"));
            match m.date_time {
                BidAskDateTimeTcpModel::Source(t) => assert_eq!(t, sample_stamp()),
                _ => panic!("wrong marker"),
            }
        }
        _ => panic!("wrong variant"),
    }
}

#[test]
fn ping_pong_literals() {
    let ping = BidAskTcpMessage::parse(b"PING").unwrap();
    assert!(ping.is_ping());
    assert!(!ping.is_bid_ask());
    let pong = BidAskTcpMessage::parse(b"PONG").unwrap();
    assert!(pong.is_pong());
    assert_eq!(BidAskTcpMessage::Pong.serialize(), bytes("PONG"));
    assert_eq!(BidAskTcpMessage::get_ping().serialize(), bytes("PING"));
}

#[test]
fn framed_round_trip() {
    let msg = BidAskTcpMessage::BidAsk(sample_model());
    let framed = msg.serialize_framed();
    assert!(framed.ends_with(b"\r\n"));
    let back = BidAskTcpMessage::parse_framed(&framed).unwrap();
    assert!(back.is_bid_ask());
    assert!(BidAskTcpMessage::parse_framed(b"PING").is_err());
}

#[test]
fn decode_error_cases() {
    let e = BidAskDataTcpModel::deserialize(b"A BINANCE EURUSD B1.5 A2.5 0").unwrap_err();
    assert_eq!(e, SerializeError::DateSerializeError);

    let e = BidAskDataTcpModel::deserialize(b"X BINANCE EURUSD B1.5 A2.5 0 S20230213142225.555")
        .unwrap_err();
    assert_eq!(e, SerializeError::InvalidLeadingToken);

    let e = BidAskDataTcpModel::deserialize(b"A BINANCE  B1.5 A2.5 0 S20230213142225.555")
        .unwrap_err();
    assert_eq!(e, SerializeError::InvalidSymbolText);

    let e = BidAskDataTcpModel::deserialize(b"A BINANCE EURUSD X1.5 A2.5 0 S20230213142225.555")
        .unwrap_err();
    assert_eq!(e, SerializeError::InvalidPriceMarker);

    let e = BidAskDataTcpModel::deserialize(b"A BINANCE EURUSD B1.5 A2..5 0 S20230213142225.555")
        .unwrap_err();
    assert_eq!(e, SerializeError::InvalidNumberText);

    let e = BidAskDataTcpModel::deserialize(b"A BINANCE EURUSD B1.5 A2.5 0 X20230213142225.555")
        .unwrap_err();
    assert_eq!(e, SerializeError::InvalidDateMarker);

    let e = BidAskDataTcpModel::deserialize(b"A BINANCE EURUSD B1.5 A2.5 0 S20231313142225.555")
        .unwrap_err();
    assert_eq!(e, SerializeError::InvalidDate);

    let e = BidAskDataTcpModel::deserialize(b"A BINANCE EURUSD B1.5 A2.5 0 ").unwrap_err();
    assert_eq!(e, SerializeError::MissingDateMarker);
}

#[test]
fn fix_date_round_trip() {
    let t = FixDateTime { year: 7, month: 12, day: 31, hour: 0, minute: 0, second: 59, millisecond: 1 };
    let rendered = price_bridge::fix_date::to_fix_date_string(&t);
    assert_eq!(rendered, bytes("00071231-00:00:59.001"));
    let back = parse_fix_date(&rendered).unwrap();
    assert_eq!(back, t);
    assert!(parse_fix_date(b"20240425-17:28:02.62").is_none());
    assert!(parse_fix_date(b"20240025-17:28:02.629").is_none());
}
