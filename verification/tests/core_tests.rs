use price_bridge::broadcast::{AppContext, BroadCastData};
use price_bridge::clock::now_fix;
use price_bridge::fix_contract::{YbFixContract, YbMarketData};
use price_bridge::fix_date::FixDateTime;
use price_bridge::price_cache::{CacheEntry, PriceCache};
use price_bridge::session::{
    on_connected, on_payload, on_subscribes_issued, subscribe_messages, SessionAction,
    SessionState,
};
use price_bridge::settings::{
    choose_feed_settings, get_host_port, resolve_port, SettingsModel, YbPriceFeedSettings,
    YbPriceFeedSettingsModel,
};
use price_bridge::symbol_map::{InstrumentMappingEntity, SymbolMap};
use price_bridge::text::parse_number;

fn bytes(s: &str) -> Vec<u8> {
    s.as_bytes().to_vec()
}

fn stamp() -> FixDateTime {
    FixDateTime { year: 2023, month: 2, day: 13, hour: 14, minute: 22, second: 25, millisecond: 555 }
}

fn tick(symbol: &str, bid: &str, ask: &str) -> YbMarketData {
    YbMarketData {
        instrument_id: bytes(symbol),
        date: stamp(),
        bid: bytes(bid),
        ask: bytes(ask),
    }
}

fn eurusd_mapping() -> Vec<(Vec<u8>, Vec<u8>)> {
    vec![
        (bytes("EURUSDi"), bytes("EURUSD_EXT")),
        (bytes("EURUSDc"), bytes("EURUSD_EXT")),
    ]
}

#[test]
fn symbol_map_inverts_pairs() {
    let map = SymbolMap::build(&eurusd_mapping());
    assert_eq!(
        map.lookup(b"EURUSD_EXT"),
        vec![bytes("EURUSDi"), bytes("EURUSDc")]
    );
    assert_eq!(map.lookup(b"GBPUSD_EXT"), Vec::<Vec<u8>>::new());
    assert_eq!(map.external_ids(), vec![bytes("EURUSD_EXT")]);
}

#[test]
fn mapping_entity_accessors() {
    let entity = InstrumentMappingEntity {
        partition_key: bytes("im"),
        row_key: bytes("LP1"),
        time_stamp: bytes("2023-02-13T14:22:25.555"),
        liquidity_provider_id: bytes("LP1"),
        map: eurusd_mapping(),
    };
    assert_eq!(entity.get_partition_key(), &bytes("im"));
    assert_eq!(entity.get_row_key(), &bytes("LP1"));
    let map = entity.build_symbol_map();
    assert_eq!(map.lookup(b"EURUSD_EXT").len(), 2);
}

#[test]
fn fanout_two_internal_ids_to_all_connections() {
    let mut core = AppContext::new(bytes("LP1"));
    core.broadcast_data.set_maps(SymbolMap::build(&eurusd_mapping()));
    core.broadcast_data.connected(1);
    core.broadcast_data.connected(2);
    core.broadcast_data.connected(2);

    let plan = core
        .broad_cast_bid_ask(&tick("EURUSD_EXT", "1.1000", "1.1005"))
        .unwrap();

    assert_eq!(plan.instruments, vec![bytes("EURUSDi"), bytes("EURUSDc")]);
    assert_eq!(plan.connections, vec![1, 2]);
    assert_eq!(plan.messages.len(), 2);
    assert_eq!(
        plan.messages[0],
        bytes("A LP1 EURUSDi B1.1000 A1.1005 0 S20230213142225.555\r\n")
    );
    assert_eq!(
        plan.messages[1],
        bytes("A LP1 EURUSDc B1.1000 A1.1005 0 S20230213142225.555\r\n")
    );

    let rows = core.prices_cache.get_snapshot();
    assert_eq!(rows.len(), 2);
    assert_eq!(rows[0].partition_key, bytes("LP1"));
    assert_eq!(rows[0].row_key, bytes("EURUSDi"));
    assert_eq!(rows[0].src_id, bytes("EURUSD_EXT"));
    assert_eq!(rows[0].dt, bytes("2023-02-13T14:22:25.555"));
    assert_eq!(rows[1].row_key, bytes("EURUSDc"));
}

#[test]
fn unmapped_tick_is_dropped_silently() {
    let mut core = AppContext::new(bytes("LP1"));
    core.broadcast_data.set_maps(SymbolMap::build(&eurusd_mapping()));
    core.broadcast_data.connected(1);
    let plan = core.broad_cast_bid_ask(&tick("GBPUSD_EXT", "1.2", "1.3"));
    assert!(plan.is_none());
    assert_eq!(core.prices_cache.get_snapshot().len(), 0);
}

#[test]
fn registry_connect_disconnect() {
    let mut data = BroadCastData::new(bytes("LP1"));
    data.connected(5);
    data.connected(9);
    data.disconnected(5);
    data.disconnected(7);
    assert_eq!(data.connections, vec![9]);
}

#[test]
fn cache_latest_wins() {
    let mut cache = PriceCache::new();
    let first = CacheEntry {
        partition_key: bytes("LP1"),
        row_key: bytes("EURUSDi"),
        src_id: bytes("EURUSD_EXT"),
        bid: bytes("1.1000"),
        ask: bytes("1.1005"),
        time_stamp: Vec::new(),
        dt: bytes("2023-02-13T14:22:25.555"),
    };
    let mut second = first.clone_entry();
    second.bid = bytes("1.2000");
    second.ask = bytes("1.2005");
    cache.update(vec![first, second]);
    assert_eq!(cache.len(), 1);
    let rows = cache.get_snapshot();
    assert_eq!(rows.len(), 1);
    assert_eq!(rows[0].bid, bytes("1.2000"));
    assert_eq!(rows[0].ask, bytes("1.2005"));
    assert_eq!(cache.len(), 0);
}

#[test]
fn session_lifecycle() {
    let (state, first) = on_connected(SessionState::Disconnected);
    assert_eq!(state, SessionState::LoggedOn);
    assert!(matches!(first, YbFixContract::Logon));

    let (state, action) = on_payload(state, YbFixContract::Logon);
    assert_eq!(state, SessionState::Subscribing);
    assert!(matches!(action, SessionAction::Subscribe));

    let state = on_subscribes_issued(state);
    assert_eq!(state, SessionState::Streaming);

    let (state, action) = on_payload(state, YbFixContract::MarketData(tick("E", "1.0", "1.1")));
    assert_eq!(state, SessionState::Streaming);
    assert!(matches!(action, SessionAction::Publish(_)));

    let (state, action) = on_payload(state, YbFixContract::Reject);
    assert_eq!(state, SessionState::Disconnected);
    assert!(matches!(action, SessionAction::Ignore));

    let (state, _) = on_payload(SessionState::Streaming, YbFixContract::Logout);
    assert_eq!(state, SessionState::Disconnected);
}

#[test]
fn one_subscription_per_distinct_symbol() {
    let pairs = vec![
        (bytes("EURUSDi"), bytes("EURUSD_EXT")),
        (bytes("EURUSDc"), bytes("EURUSD_EXT")),
        (bytes("GBPUSDi"), bytes("GBPUSD_EXT")),
    ];
    let map = SymbolMap::build(&pairs);
    let subs = subscribe_messages(&map);
    assert_eq!(subs.len(), 2);
    assert!(matches!(&subs[0], YbFixContract::SubscribeToInstrument(s) if *s == bytes("EURUSD_EXT")));
    assert!(matches!(&subs[1], YbFixContract::SubscribeToInstrument(s) if *s == bytes("GBPUSD_EXT")));
}

#[test]
fn settings_resolution() {
    let model = SettingsModel {
        seq_conn_string: Vec::new(),
        my_no_sql_tcp_reader: Vec::new(),
        liquidity_provider_id: bytes("LP1"),
        my_telemetry: Vec::new(),
        my_no_sql_writer: Vec::new(),
        feed_settings: Some(YbPriceFeedSettingsModel {
            host_port: bytes("fix.example:9876"),
            sender_company_id: bytes("SND"),
            target_company_id: bytes("TGT"),
            user_password: bytes("swordfish"),
        }),
    };
    assert_eq!(model.get_liquidity_provider_id(), bytes("LP1"));
    let feed = model.get_yb_price_feed().unwrap();
    assert_eq!(feed.url, bytes("fix.example:9876"));
    assert_eq!(feed.sender_company_id, bytes("SND"));

    let fallback = YbPriceFeedSettings {
        time_stamp: Vec::new(),
        url: bytes("other:1"),
        pass: Vec::new(),
        sender_company_id: Vec::new(),
        target_company_id: Vec::new(),
    };
    let chosen = choose_feed_settings(Some(feed), Some(fallback.clone())).unwrap();
    assert_eq!(chosen.url, bytes("fix.example:9876"));
    let chosen = choose_feed_settings(None, Some(fallback)).unwrap();
    assert_eq!(chosen.url, bytes("other:1"));

    assert!(get_host_port(false, &Some(chosen.clone())).is_none());
    assert!(get_host_port(true, &None).is_none());
    assert_eq!(get_host_port(true, &Some(chosen)).unwrap(), bytes("other:1"));
}

#[test]
fn port_resolution() {
    assert_eq!(resolve_port(&None), Some(8085));
    assert_eq!(resolve_port(&Some(bytes("9000"))), Some(9000));
    assert_eq!(resolve_port(&Some(bytes("70000"))), None);
    assert_eq!(resolve_port(&Some(bytes("90x0"))), None);
}

#[test]
fn number_parsing() {
    assert_eq!(parse_number(b"0"), Some(0));
    assert_eq!(parse_number(b"268"), Some(268));
    assert_eq!(parse_number(b"999999999999999999"), Some(999999999999999999));
    assert_eq!(parse_number(b""), None);
    assert_eq!(parse_number(b"12a"), None);
    assert_eq!(parse_number(b"1234567890123456789"), None);
}

#[test]
fn clock_reads_well_formed_instants() {
    let now = now_fix();
    assert!(now.year <= 9999);
    assert!((1..=12).contains(&now.month));
    assert!((1..=31).contains(&now.day));
    assert!(now.hour < 24 && now.minute < 60 && now.second < 60 && now.millisecond < 1000);
    assert!(now.year >= 2020);
}
