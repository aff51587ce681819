use market_data::decimal::Decimal;
use market_data::error::MarketDataError;
use market_data::orderbook::OrderBookManager;
use market_data::parser::{DepthUpdate, OrderBookSnapshot, ParsedMessage, PriceLevel};
use market_data::websocket::sync::{decide, snapshot_url, Processed, Synchronizer};
use market_data::websocket::{DepthSync, SnapshotOutcome, SyncPhase, Verdict};

fn level(price: &str, quantity: &str) -> PriceLevel {
    PriceLevel { price: Decimal::parse(price).unwrap(), quantity: Decimal::parse(quantity).unwrap() }
}

fn diff(symbol: &str, first: u64, last: u64) -> DepthUpdate {
    DepthUpdate {
        event_type: "depthUpdate".to_string(),
        event_time: last,
        symbol: symbol.to_string(),
        first_update_id: first,
        final_update_id: last,
        bids: vec![level("50000", "2.0")],
        asks: vec![],
    }
}

fn snapshot(last_update_id: u64) -> OrderBookSnapshot {
    OrderBookSnapshot {
        last_update_id,
        bids: vec![level("50000", "1.0"), level("49999", "2.0")],
        asks: vec![level("50001", "1.5"), level("50002", "2.5")],
    }
}

#[test]
fn resync_handshake() {
    let mut manager = OrderBookManager::with_depth(20);
    let mut sync = DepthSync::new("BTCUSDT");
    assert_eq!(sync.phase(), SyncPhase::Buffering);
    assert_eq!(sync.on_diff(&mut manager, diff("BTCUSDT", 50, 60)), Verdict::Hold);
    assert_eq!(sync.on_diff(&mut manager, diff("BTCUSDT", 61, 75)), Verdict::Hold);
    assert_eq!(sync.on_diff(&mut manager, diff("BTCUSDT", 76, 90)), Verdict::Hold);
    assert_eq!(sync.buffered(), 3);
    assert!(!manager.has_symbol("BTCUSDT"));

    assert_eq!(sync.on_snapshot(&mut manager, snapshot(70)), SnapshotOutcome::Synced);
    assert_eq!(sync.phase(), SyncPhase::Streaming);
    assert_eq!(sync.buffered(), 0);
    assert_eq!(manager.last_update_id("BTCUSDT"), Some(90));
    let state = manager.get_state("BTCUSDT").unwrap();
    assert_eq!(state.bids[0].quantity, Decimal::parse("2.0").unwrap());
    assert_eq!(state.timestamp, 90);
}

#[test]
fn handshake_step_by_step() {
    let mut manager = OrderBookManager::with_depth(20);
    let mut sync = DepthSync::new("BTCUSDT");
    assert_eq!(sync.on_diff(&mut manager, diff("BTCUSDT", 50, 60)), Verdict::Hold);
    assert_eq!(sync.on_diff(&mut manager, diff("BTCUSDT", 61, 75)), Verdict::Hold);
    assert_eq!(sync.on_snapshot(&mut manager, snapshot(70)), SnapshotOutcome::Synced);
    // the first buffered diff was dropped, the second applied
    assert_eq!(manager.last_update_id("BTCUSDT"), Some(75));
    assert_eq!(sync.phase(), SyncPhase::Streaming);
    assert_eq!(sync.on_diff(&mut manager, diff("BTCUSDT", 76, 90)), Verdict::Apply);
    assert_eq!(manager.last_update_id("BTCUSDT"), Some(90));
}

#[test]
fn snapshot_without_buffered_diffs_waits_for_the_first_diff() {
    let mut manager = OrderBookManager::with_depth(20);
    let mut sync = DepthSync::new("BTCUSDT");
    assert_eq!(sync.on_snapshot(&mut manager, snapshot(70)), SnapshotOutcome::Synced);
    assert_eq!(sync.phase(), SyncPhase::Primed);
    assert_eq!(manager.last_update_id("BTCUSDT"), Some(70));
    // covered by the snapshot
    assert_eq!(sync.on_diff(&mut manager, diff("BTCUSDT", 60, 70)), Verdict::Drop);
    assert_eq!(sync.phase(), SyncPhase::Primed);
    // reaches back to the update after the snapshot
    assert_eq!(sync.on_diff(&mut manager, diff("BTCUSDT", 65, 72)), Verdict::Apply);
    assert_eq!(sync.phase(), SyncPhase::Streaming);
    assert_eq!(manager.last_update_id("BTCUSDT"), Some(72));
    // from now on a diff has to start right after the last one
    assert_eq!(sync.on_diff(&mut manager, diff("BTCUSDT", 73, 73)), Verdict::Apply);
    assert_eq!(sync.on_diff(&mut manager, diff("BTCUSDT", 73, 80)), Verdict::Gap);
    assert_eq!(sync.phase(), SyncPhase::Buffering);
    assert_eq!(sync.buffered(), 1);
    assert_eq!(manager.last_update_id("BTCUSDT"), Some(73));
}

#[test]
fn snapshot_that_is_too_old_is_fetched_again() {
    let mut manager = OrderBookManager::with_depth(20);
    let mut sync = DepthSync::new("BTCUSDT");
    assert_eq!(sync.on_diff(&mut manager, diff("BTCUSDT", 80, 85)), Verdict::Hold);
    assert_eq!(sync.on_diff(&mut manager, diff("BTCUSDT", 86, 90)), Verdict::Hold);
    assert_eq!(sync.on_snapshot(&mut manager, snapshot(70)), SnapshotOutcome::Refetch);
    assert_eq!(sync.phase(), SyncPhase::Buffering);
    assert_eq!(sync.buffered(), 2);
    assert_eq!(manager.last_update_id("BTCUSDT"), Some(70));
    // a fresh enough snapshot settles it
    assert_eq!(sync.on_snapshot(&mut manager, snapshot(82)), SnapshotOutcome::Synced);
    assert_eq!(sync.phase(), SyncPhase::Streaming);
    assert_eq!(manager.last_update_id("BTCUSDT"), Some(90));
}

#[test]
fn gap_among_buffered_diffs_keeps_the_rest() {
    let mut manager = OrderBookManager::with_depth(20);
    let mut sync = DepthSync::new("BTCUSDT");
    for (first, last) in [(60, 71), (72, 75), (77, 80), (81, 82)] {
        assert_eq!(sync.on_diff(&mut manager, diff("BTCUSDT", first, last)), Verdict::Hold);
    }
    assert_eq!(sync.on_snapshot(&mut manager, snapshot(70)), SnapshotOutcome::Refetch);
    assert_eq!(manager.last_update_id("BTCUSDT"), Some(75));
    assert_eq!(sync.buffered(), 2);
    assert_eq!(sync.phase(), SyncPhase::Buffering);
}

#[test]
fn snapshot_is_ignored_unless_awaited() {
    let mut manager = OrderBookManager::with_depth(20);
    let mut sync = DepthSync::new("BTCUSDT");
    assert_eq!(sync.on_snapshot(&mut manager, snapshot(70)), SnapshotOutcome::Synced);
    assert_eq!(sync.on_snapshot(&mut manager, snapshot(99)), SnapshotOutcome::Ignored);
    assert_eq!(manager.last_update_id("BTCUSDT"), Some(70));
    sync.restart();
    assert_eq!(sync.phase(), SyncPhase::Buffering);
    assert_eq!(sync.buffered(), 0);
    assert_eq!(sync.on_snapshot(&mut manager, snapshot(99)), SnapshotOutcome::Synced);
    assert_eq!(manager.last_update_id("BTCUSDT"), Some(99));
}

#[test]
fn foreign_diffs_are_left_alone() {
    let mut manager = OrderBookManager::with_depth(20);
    let mut sync = DepthSync::new("BTCUSDT");
    assert_eq!(sync.symbol(), "BTCUSDT");
    assert_eq!(sync.on_diff(&mut manager, diff("ETHUSDT", 1, 2)), Verdict::Foreign);
    assert_eq!(sync.buffered(), 0);
    assert_eq!(sync.on_diff(&mut manager, diff("btcusdt", 1, 2)), Verdict::Foreign);
}

#[test]
fn decisions_by_phase() {
    assert_eq!(decide(SyncPhase::Buffering, Some(10), 11, 12), Verdict::Hold);
    assert_eq!(decide(SyncPhase::Buffering, None, 11, 12), Verdict::Hold);
    assert_eq!(decide(SyncPhase::Primed, None, 11, 12), Verdict::Gap);
    assert_eq!(decide(SyncPhase::Streaming, None, 11, 12), Verdict::Gap);
    assert_eq!(decide(SyncPhase::Primed, Some(10), 5, 10), Verdict::Drop);
    assert_eq!(decide(SyncPhase::Primed, Some(10), 5, 11), Verdict::Apply);
    assert_eq!(decide(SyncPhase::Primed, Some(10), 11, 11), Verdict::Apply);
    assert_eq!(decide(SyncPhase::Primed, Some(10), 12, 15), Verdict::Gap);
    assert_eq!(decide(SyncPhase::Streaming, Some(10), 11, 11), Verdict::Apply);
    assert_eq!(decide(SyncPhase::Streaming, Some(10), 11, 20), Verdict::Apply);
    assert_eq!(decide(SyncPhase::Streaming, Some(10), 10, 20), Verdict::Gap);
    assert_eq!(decide(SyncPhase::Streaming, Some(10), 12, 20), Verdict::Gap);
    assert_eq!(decide(SyncPhase::Streaming, Some(10), 11, 10), Verdict::Gap);
    assert_eq!(decide(SyncPhase::Streaming, Some(10), 5, 8), Verdict::Gap);
    assert_eq!(decide(SyncPhase::Primed, Some(u64::MAX), 0, u64::MAX), Verdict::Drop);
    assert_eq!(decide(SyncPhase::Streaming, Some(u64::MAX), 0, 0), Verdict::Gap);
    assert_eq!(decide(SyncPhase::Streaming, Some(u64::MAX), u64::MAX, u64::MAX), Verdict::Gap);
}

#[test]
fn synchronizer_routes_by_symbol() {
    let symbols = vec!["BTCUSDT".to_string(), "ETHUSDT".to_string()];
    let mut synchronizer = Synchronizer::new(&symbols);
    let mut manager = OrderBookManager::with_depth(20);
    assert!(!synchronizer.synced());
    assert_eq!(synchronizer.on_diff(&mut manager, diff("ETHUSDT", 71, 72)), Verdict::Hold);
    assert_eq!(synchronizer.on_diff(&mut manager, diff("XRPUSDT", 71, 72)), Verdict::Foreign);
    assert_eq!(synchronizer.on_snapshot(&mut manager, "BTCUSDT", snapshot(70)), SnapshotOutcome::Synced);
    assert!(!synchronizer.synced());
    assert_eq!(synchronizer.on_snapshot(&mut manager, "XRPUSDT", snapshot(70)), SnapshotOutcome::Ignored);
    assert!(!manager.has_symbol("XRPUSDT"));
    assert_eq!(synchronizer.on_snapshot(&mut manager, "ETHUSDT", snapshot(70)), SnapshotOutcome::Synced);
    assert!(synchronizer.synced());
    assert_eq!(manager.last_update_id("BTCUSDT"), Some(70));
    assert_eq!(manager.last_update_id("ETHUSDT"), Some(72));
    synchronizer.restart();
    assert!(!synchronizer.synced());
    assert_eq!(synchronizer.on_diff(&mut manager, diff("BTCUSDT", 71, 72)), Verdict::Hold);
    assert_eq!(manager.last_update_id("BTCUSDT"), Some(70));
}

#[test]
fn processed_messages_say_what_to_publish() {
    let symbols = vec!["BTCUSDT".to_string()];
    let mut synchronizer = Synchronizer::new(&symbols);
    let mut manager = OrderBookManager::with_depth(20);
    assert_eq!(synchronizer.on_snapshot(&mut manager, "BTCUSDT", snapshot(100)), SnapshotOutcome::Synced);

    let raw = r#"{"stream":"btcusdt@depth@100ms","data":{"e":"depthUpdate","E":5,"s":"BTCUSDT",
        "U":101,"u":102,"b":[["50000","2.0"]],"a":[]}}"#;
    match synchronizer.process_message(&mut manager, raw) {
        Ok(Processed::Publish(state)) => {
            assert_eq!(state.symbol, "BTCUSDT");
            assert_eq!(state.last_update_id, 102);
            assert_eq!(state.timestamp, 5);
            assert_eq!(state.bids[0].quantity, Decimal::parse("2.0").unwrap());
        },
        other => panic!("expected a state to publish, got {:?}", other),
    }
    let trade = r#"{"e":"trade","E":1,"s":"BTCUSDT","t":1,"p":"1","q":"2","b":1,"a":2,"T":3,"m":false}"#;
    assert!(matches!(synchronizer.process_message(&mut manager, trade), Ok(Processed::Nothing)));
    assert!(matches!(synchronizer.process_message(&mut manager, "{}"), Ok(Processed::Nothing)));
    let foreign = r#"{"e":"depthUpdate","E":5,"s":"ETHUSDT","U":103,"u":104,"b":[],"a":[]}"#;
    assert!(matches!(synchronizer.process_message(&mut manager, foreign), Ok(Processed::Nothing)));
    let broken = r#"{"stream":"btcusdt@depth","data":{"e":"depthUpdate"}}"#;
    assert!(matches!(
        synchronizer.process_message(&mut manager, broken),
        Err(MarketDataError::ParseError(_))
    ));
    assert_eq!(manager.last_update_id("BTCUSDT"), Some(102));
    let gap = r#"{"e":"depthUpdate","E":5,"s":"BTCUSDT","U":110,"u":120,"b":[],"a":[]}"#;
    match synchronizer.process_message(&mut manager, gap) {
        Ok(Processed::Resync(symbol)) => assert_eq!(symbol, "BTCUSDT"),
        other => panic!("expected a resync, got {:?}", other),
    }
    assert!(!synchronizer.synced());
    assert_eq!(manager.last_update_id("BTCUSDT"), Some(102));
}

#[test]
fn on_message_with_unrepresentable_depth_is_an_error() {
    let symbols = vec!["BTCUSDT".to_string()];
    let mut synchronizer = Synchronizer::new(&symbols);
    let mut manager = OrderBookManager::with_depth(20);
    assert_eq!(synchronizer.on_snapshot(&mut manager, "BTCUSDT", snapshot(100)), SnapshotOutcome::Synced);
    let huge = "79228162514264337593543950335";
    let mut update = diff("BTCUSDT", 101, 101);
    update.bids = vec![level("50000", huge), level("49999", huge)];
    assert!(matches!(
        synchronizer.on_message(&mut manager, ParsedMessage::DepthUpdate(update)),
        Err(MarketDataError::OrderBookError(detail)) if detail == "result cannot be represented"
    ));
    assert_eq!(manager.last_update_id("BTCUSDT"), Some(101));
    assert!(matches!(
        synchronizer.on_message(&mut manager, ParsedMessage::Unknown("x".to_string())),
        Ok(Processed::Nothing)
    ));
}

#[test]
fn snapshot_url_names_symbol_and_limit() {
    assert_eq!(
        snapshot_url("https://api.binance.com/api/v3", "BTCUSDT", 20),
        "https://api.binance.com/api/v3/depth?symbol=BTCUSDT&limit=20"
    );
    assert_eq!(snapshot_url("", "", 0), "/depth?symbol=&limit=0");
    assert_eq!(snapshot_url("x", "Y", 1000), "x/depth?symbol=Y&limit=1000");
}
