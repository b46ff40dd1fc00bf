use price_bridge::fix_contract::{SkipReason, YbFixContract};
use price_bridge::fix_date::FixDateTime;
use price_bridge::fix_msg::{is_checksum_field, FixMessageReader};
use price_bridge::fix_out::{serialize_logon, serialize_ping, FixMessageSerializer};
use price_bridge::settings::YbPriceFeedSettings;

fn bytes(s: &str) -> Vec<u8> {
    s.as_bytes().to_vec()
}

fn fix_payload(fields: &[&str]) -> Vec<u8> {
    let mut out = Vec::new();
    for f in fields {
        out.extend_from_slice(f.as_bytes());
        out.push(1);
    }
    out
}

fn sample_settings() -> YbPriceFeedSettings {
    YbPriceFeedSettings {
        time_stamp: Vec::new(),
        url: bytes("fix.example:9876"),
        pass: bytes("swordfish"),
        sender_company_id: bytes("SND"),
        target_company_id: bytes("TGT"),
    }
}

fn sample_now() -> FixDateTime {
    FixDateTime { year: 2023, month: 2, day: 13, hour: 14, minute: 22, second: 25, millisecond: 555 }
}

#[test]
fn reader_finds_tags() {
    let payload = fix_payload(&["8=FIX.4.4", "35=W", "268=2", "270=1.5", "270=2.5", "55=EURUSD"]);
    let reader = FixMessageReader::from_bytes(&payload);
    assert_eq!(reader.get_message_type().unwrap(), bytes("W"));
    assert_eq!(reader.get_value(b"268").unwrap(), bytes("2"));
    let prices = reader.get_values(b"270");
    assert_eq!(prices, vec![bytes("1.5"), bytes("2.5")]);
    assert!(reader.get_value(b"52").is_none());
}

#[test]
fn checksum_field_closes_message() {
    assert!(is_checksum_field(b"10=123"));
    assert!(!is_checksum_field(b"100=123"));
    assert!(!is_checksum_field(b"9=10"));
    assert!(!is_checksum_field(b"10"));
}

#[test]
fn classify_by_message_type() {
    assert!(matches!(
        YbFixContract::deserialize(fix_payload(&["35=A"])),
        YbFixContract::Logon
    ));
    assert!(matches!(
        YbFixContract::deserialize(fix_payload(&["35=Y"])),
        YbFixContract::MarketDataReject
    ));
    assert!(matches!(
        YbFixContract::deserialize(fix_payload(&["35=3"])),
        YbFixContract::Reject
    ));
    assert!(matches!(
        YbFixContract::deserialize(fix_payload(&["35=5"])),
        YbFixContract::Logout
    ));
    assert!(matches!(
        YbFixContract::deserialize(fix_payload(&["35=B"])),
        YbFixContract::Others
    ));
    assert!(matches!(
        YbFixContract::deserialize(fix_payload(&["35=V"])),
        YbFixContract::Skip(SkipReason::SnapshotRequestEcho)
    ));
    assert!(matches!(
        YbFixContract::deserialize(fix_payload(&["49=SND"])),
        YbFixContract::Skip(SkipReason::MissingMessageType)
    ));
}

#[test]
fn market_data_extraction() {
    let payload = fix_payload(&[
        "8=FIX.4.4",
        "35=W",
        "268=2",
        "270=1.1000",
        "270=1.1005",
        "55=EURUSD_EXT",
        "52=20230213-14:22:25.555",
    ]);
    match YbFixContract::deserialize(payload) {
        YbFixContract::MarketData(md) => {
            assert_eq!(md.instrument_id, bytes("EURUSD_EXT"));
            assert_eq!(md.bid, bytes("1.1000"));
            assert_eq!(md.ask, bytes("1.1005"));
            assert_eq!(md.date, sample_now());
        }
        _ => panic!("expected market data"),
    }
}

#[test]
fn market_data_skip_cases() {
    let skips = [
        (vec!["35=W", "270=1.1", "270=1.2"], SkipReason::MissingEntryCount),
        (vec!["35=W", "268=two"], SkipReason::BadEntryCount),
        (vec!["35=W", "268=1"], SkipReason::TooFewEntries),
        (vec!["35=W", "268=2", "270=1.1"], SkipReason::TooFewPrices),
        (vec!["35=W", "268=2", "270=1.1", "270=x"], SkipReason::BadPrice),
        (vec!["35=W", "268=2", "270=1.1", "270=1.2"], SkipReason::MissingSymbol),
        (
            vec!["35=W", "268=2", "270=1.1", "270=1.2", "55=EURUSD"],
            SkipReason::MissingSendingTime,
        ),
        (
            vec!["35=W", "268=2", "270=1.1", "270=1.2", "55=EURUSD", "52=garbage"],
            SkipReason::BadSendingTime,
        ),
    ];
    for (fields, reason) in skips {
        match YbFixContract::deserialize(fix_payload(&fields)) {
            YbFixContract::Skip(r) => assert_eq!(r, reason),
            _ => panic!("expected skip"),
        }
    }
}

#[test]
fn entry_count_below_two_never_market_data() {
    for count in ["0", "1"] {
        let payload = fix_payload(&[
            "35=W",
            &format!("268={}", count),
            "270=1.1",
            "270=1.2",
            "55=EURUSD",
            "52=20230213-14:22:25.555",
        ]);
        let contract = YbFixContract::deserialize(payload);
        assert!(matches!(contract, YbFixContract::Skip(_)));
        assert!(!matches!(contract, YbFixContract::MarketData(_)));
    }
}

fn expected_compiled(msg_type: &str, fields: &[(&str, &str)]) -> Vec<u8> {
    let mut body = Vec::new();
    body.extend_from_slice(format!("35={}", msg_type).as_bytes());
    body.push(1);
    for (tag, value) in fields {
        body.extend_from_slice(format!("{}={}", tag, value).as_bytes());
        body.push(1);
    }
    let mut out = Vec::new();
    out.extend_from_slice(b"8=FIX.4.4");
    out.push(1);
    out.extend_from_slice(format!("9={}", body.len()).as_bytes());
    out.push(1);
    out.extend_from_slice(&body);
    let sum: u32 = out.iter().map(|b| *b as u32).sum();
    out.extend_from_slice(format!("10={:03}", sum % 256).as_bytes());
    out.push(1);
    out
}

#[test]
fn logon_message_layout() {
    let w = serialize_logon(&sample_settings(), 1, &sample_now());
    let compiled = w.compile_message();
    let expected = expected_compiled(
        "A",
        &[
            ("49", "SND"),
            ("56", "TGT"),
            ("52", "20230213-14:22:25.555"),
            ("34", "1"),
            ("108", "30"),
            ("141", "Y"),
            ("554", "swordfish"),
            ("98", "0"),
        ],
    );
    assert_eq!(String::from_utf8(compiled).unwrap(), String::from_utf8(expected).unwrap());
}

#[test]
fn ping_message_layout() {
    let w = serialize_ping(&sample_settings(), 7, &sample_now());
    let compiled = w.compile_message();
    let expected = expected_compiled(
        "0",
        &[("49", "SND"), ("52", "20230213-14:22:25.555"), ("56", "TGT"), ("34", "7")],
    );
    assert_eq!(String::from_utf8(compiled).unwrap(), String::from_utf8(expected).unwrap());
}

#[test]
fn serializer_counts_messages() {
    let mut s = FixMessageSerializer::new();
    assert_eq!(s.message_counter, 1);
    let now = sample_now();
    let settings = sample_settings();
    let logon = s
        .serialize(&YbFixContract::Logon, &settings, &now, 0)
        .unwrap();
    assert!(logon.windows(5).any(|w| w == b"34=1\x01"));
    let sub = s
        .serialize(
            &YbFixContract::SubscribeToInstrument(bytes("EURUSD_EXT")),
            &settings,
            &now,
            1676298145555000,
        )
        .unwrap();
    assert!(sub.windows(5).any(|w| w == b"34=2\x01"));
    assert!(sub.windows(21).any(|w| w == b"262=1676298145555000\x01"));
    assert!(sub.windows(14).any(|w| w == b"55=EURUSD_EXT\x01"));
    assert!(s.serialize(&YbFixContract::Logout, &settings, &now, 0).is_none());
    assert_eq!(s.message_counter, 3);
    assert!(s.get_ping().is_pong() == false);
}

#[test]
fn subscribe_message_layout() {
    let w = price_bridge::fix_out::serialize_instrument_subscribe(
        &sample_settings(),
        2,
        1676298145555000,
        &sample_now(),
        &bytes("EURUSD_EXT"),
    );
    let compiled = w.compile_message();
    let expected = expected_compiled(
        "V",
        &[
            ("49", "SND"),
            ("52", "20230213-14:22:25.555"),
            ("56", "TGT"),
            ("34", "2"),
            ("262", "1676298145555000"),
            ("263", "1"),
            ("264", "1"),
            ("265", "0"),
            ("267", "2"),
            ("269", "0"),
            ("269", "1"),
            ("146", "1"),
            ("55", "EURUSD_EXT"),
        ],
    );
    assert_eq!(String::from_utf8(compiled).unwrap(), String::from_utf8(expected).unwrap());
}
