use market_data::decimal::Decimal;
use market_data::error::MarketDataError;
use market_data::json::Json;
use market_data::parser::{DepthUpdate, OrderBookSnapshot, ParsedMessage, StreamMessage, Trade};

#[test]
fn test_parse_depth_update() {
    let raw = r#"{
            "e": "depthUpdate",
            "E": 1672531200000,
            "s": "BTCUSDT",
            "U": 100,
            "u": 105,
            "b": [["50000.00", "1.5"], ["49999.00", "2.0"]],
            "a": [["50001.00", "1.0"], ["50002.00", "0.5"]]
        }"#;

    let msg = ParsedMessage::parse(raw).unwrap();
    if let ParsedMessage::DepthUpdate(depth) = msg {
        assert_eq!(depth.symbol, "BTCUSDT");
        assert_eq!(depth.bids.len(), 2);
        assert_eq!(depth.asks.len(), 2);
        assert_eq!(depth.bids[0].price, Decimal::parse("50000.00").unwrap());
    } else {
        panic!("Expected DepthUpdate");
    }
}

#[test]
fn test_parse_trade() {
    let raw = r#"{
            "e": "trade",
            "E": 1672531200000,
            "s": "BTCUSDT",
            "t": 12345,
            "p": "50000.50",
            "q": "0.5",
            "b": 111,
            "a": 222,
            "T": 1672531200000,
            "m": false
        }"#;

    let msg = ParsedMessage::parse(raw).unwrap();
    if let ParsedMessage::Trade(trade) = msg {
        assert_eq!(trade.symbol, "BTCUSDT");
        assert_eq!(trade.price, Decimal::parse("50000.50").unwrap());
        assert!(!trade.is_buyer_maker);
    } else {
        panic!("Expected Trade");
    }
}

#[test]
fn depth_update_fields_are_read_exactly() {
    let raw = r#"{"e":"depthUpdate","E":17,"s":"ETHUSDT","U":100,"u":105,
        "b":[["50000.00","1.5"]],"a":[["50001.00","0"],["50002.5","0.500"]],"extra":null}"#;
    match ParsedMessage::parse(raw).unwrap() {
        ParsedMessage::DepthUpdate(depth) => {
            assert_eq!(depth.event_type, "depthUpdate");
            assert_eq!(depth.event_time, 17);
            assert_eq!(depth.symbol, "ETHUSDT");
            assert_eq!(depth.first_update_id, 100);
            assert_eq!(depth.final_update_id, 105);
            assert_eq!((depth.bids[0].price.mantissa(), depth.bids[0].price.scale()), (5000000, 2));
            assert_eq!((depth.bids[0].quantity.mantissa(), depth.bids[0].quantity.scale()), (15, 1));
            assert!(depth.asks[0].quantity.is_zero());
            assert_eq!((depth.asks[1].price.mantissa(), depth.asks[1].price.scale()), (500025, 1));
            assert_eq!((depth.asks[1].quantity.mantissa(), depth.asks[1].quantity.scale()), (500, 3));
        },
        other => panic!("expected a depth update, got {:?}", other),
    }
}

#[test]
fn trade_fields_are_read_exactly() {
    let raw = r#"{"e":"trade","E":1,"s":"BTCUSDT","t":12345,"p":"50000.50","q":"0.5",
        "b":111,"a":222,"T":3,"m":true}"#;
    match ParsedMessage::parse(raw).unwrap() {
        ParsedMessage::Trade(trade) => {
            assert_eq!(trade.event_type, "trade");
            assert_eq!(trade.event_time, 1);
            assert_eq!(trade.trade_id, 12345);
            assert_eq!((trade.price.mantissa(), trade.price.scale()), (5000050, 2));
            assert_eq!((trade.quantity.mantissa(), trade.quantity.scale()), (5, 1));
            assert_eq!(trade.buyer_order_id, 111);
            assert_eq!(trade.seller_order_id, 222);
            assert_eq!(trade.trade_time, 3);
            assert!(trade.is_buyer_maker);
        },
        other => panic!("expected a trade, got {:?}", other),
    }
}

#[test]
fn wrapper_is_routed_by_stream_name() {
    let depth = r#"{"stream":"btcusdt@depth@100ms","data":{"e":"depthUpdate","E":1,"s":"BTCUSDT",
        "U":1,"u":2,"b":[],"a":[["1","2"]]}}"#;
    match ParsedMessage::parse(depth).unwrap() {
        ParsedMessage::DepthUpdate(update) => {
            assert_eq!(update.symbol, "BTCUSDT");
            assert!(update.bids.is_empty());
            assert_eq!(update.asks.len(), 1);
        },
        other => panic!("expected a depth update, got {:?}", other),
    }
    let trade = r#"{"stream":"btcusdt@trade","data":{"e":"trade","E":1,"s":"BTCUSDT","t":1,
        "p":"1.5","q":"2","b":1,"a":2,"T":3,"m":false}}"#;
    match ParsedMessage::parse(trade).unwrap() {
        ParsedMessage::Trade(t) => assert_eq!(t.price, Decimal::parse("1.5").unwrap()),
        other => panic!("expected a trade, got {:?}", other),
    }
    // the event type inside a wrapper is not looked at
    let renamed = r#"{"stream":"x@depth","data":{"e":"other","E":1,"s":"S","U":1,"u":2,"b":[],"a":[]}}"#;
    assert!(matches!(ParsedMessage::parse(renamed), Ok(ParsedMessage::DepthUpdate(_))));
}

#[test]
fn wrapper_with_bad_payload_is_an_error() {
    let wrong_arity = r#"{"stream":"btcusdt@depth@100ms","data":{"e":"depthUpdate","E":1,"s":"BTCUSDT",
        "U":1,"u":2,"b":[["1","2","3"]],"a":[]}}"#;
    assert!(matches!(ParsedMessage::parse(wrong_arity), Err(MarketDataError::ParseError(_))));
    let one_cell = r#"{"stream":"btcusdt@depth@100ms","data":{"e":"depthUpdate","E":1,"s":"BTCUSDT",
        "U":1,"u":2,"b":[["1"]],"a":[]}}"#;
    assert!(matches!(ParsedMessage::parse(one_cell), Err(MarketDataError::ParseError(_))));
    let number_price = r#"{"stream":"btcusdt@depth@100ms","data":{"e":"depthUpdate","E":1,"s":"BTCUSDT",
        "U":1,"u":2,"b":[[1,"2"]],"a":[]}}"#;
    assert!(matches!(ParsedMessage::parse(number_price), Err(MarketDataError::ParseError(_))));
    let not_decimal = r#"{"stream":"btcusdt@depth@100ms","data":{"e":"depthUpdate","E":1,"s":"BTCUSDT",
        "U":1,"u":2,"b":[["abc","2"]],"a":[]}}"#;
    assert!(matches!(ParsedMessage::parse(not_decimal), Err(MarketDataError::ParseError(_))));
    let missing = r#"{"stream":"btcusdt@trade","data":{"e":"trade"}}"#;
    assert!(matches!(
        ParsedMessage::parse(missing),
        Err(MarketDataError::ParseError(detail)) if detail == "invalid trade"
    ));
    assert!(matches!(
        ParsedMessage::parse(wrong_arity),
        Err(MarketDataError::ParseError(detail)) if detail == "invalid depth update"
    ));
    assert_eq!(
        ParsedMessage::parse(missing).unwrap_err().message(),
        "Failed to parse message: invalid trade"
    );
    let negative_id = r#"{"stream":"btcusdt@depth","data":{"e":"depthUpdate","E":1,"s":"BTCUSDT",
        "U":-1,"u":2,"b":[],"a":[]}}"#;
    assert!(matches!(ParsedMessage::parse(negative_id), Err(MarketDataError::ParseError(_))));
}

#[test]
fn unknown_messages_carry_the_frame() {
    for raw in [
        r#"{"result":null,"id":1}"#,
        r#"{"e":"aggTrade","E":1,"s":"BTCUSDT","U":1,"u":2,"b":[],"a":[]}"#,
        r#"{"e":"aggTrade","b":[["1","2","3"]]}"#,
        r#"{"e":17,"E":1,"s":"BTCUSDT","U":1,"u":2,"b":[],"a":[]}"#,
        r#"{"E":1,"s":"BTCUSDT","U":1,"u":2,"b":[],"a":[]}"#,
        "not json at all",
        "",
        "[1,2,3]",
        r#"{"stream":5,"data":{}}"#,
        r#"{"stream":"btcusdt@kline_1m"}"#,
    ] {
        match ParsedMessage::parse(raw) {
            Ok(ParsedMessage::Unknown(text)) => assert_eq!(text, raw),
            other => panic!("expected an unknown message for {:?}, got {:?}", raw, other),
        }
    }
}

#[test]
fn bare_event_with_bad_payload_is_an_error() {
    for levels in [
        r#"[["1","2","3"]]"#,
        r#"[["1"]]"#,
        r#"[[]]"#,
        r#"[["1","2"],["3"]]"#,
        r#"[[1,"2"]]"#,
        r#"[["1",null]]"#,
        r#"[["x","2"]]"#,
        r#"["1","2"]"#,
        r#"{"1":"2"}"#,
    ] {
        for raw in [
            format!(r#"{{"e":"depthUpdate","E":1,"s":"BTCUSDT","U":1,"u":2,"b":{},"a":[]}}"#, levels),
            format!(r#"{{"e":"depthUpdate","E":1,"s":"BTCUSDT","U":1,"u":2,"b":[],"a":{}}}"#, levels),
        ] {
            match ParsedMessage::parse(&raw) {
                Err(MarketDataError::ParseError(detail)) => assert_eq!(detail, "invalid depth update"),
                other => panic!("expected a parse error for {:?}, got {:?}", raw, other),
            }
        }
    }
    for raw in [
        r#"{"e":"depthUpdate"}"#,
        r#"{"e":"depthUpdate","E":1,"s":"BTCUSDT","U":1,"b":[],"a":[]}"#,
        r#"{"e":"depthUpdate","E":"1","s":"BTCUSDT","U":1,"u":2,"b":[],"a":[]}"#,
        r#"{"e":"depthUpdate","E":1,"s":"BTCUSDT","U":1.5,"u":2,"b":[],"a":[]}"#,
    ] {
        assert!(matches!(
            ParsedMessage::parse(raw),
            Err(MarketDataError::ParseError(detail)) if detail == "invalid depth update"
        ));
    }
    for raw in [
        r#"{"e":"trade"}"#,
        r#"{"e":"trade","E":1,"s":"BTCUSDT","t":1,"p":1.5,"q":"2","b":1,"a":2,"T":3,"m":false}"#,
        r#"{"e":"trade","E":1,"s":"BTCUSDT","t":1,"p":"1.5","q":"2","b":1,"a":2,"T":3,"m":"no"}"#,
        r#"{"e":"trade","E":1,"s":"BTCUSDT","t":1,"p":"1.5","q":"two","b":1,"a":2,"T":3,"m":false}"#,
    ] {
        assert!(matches!(
            ParsedMessage::parse(raw),
            Err(MarketDataError::ParseError(detail)) if detail == "invalid trade"
        ));
    }
}

#[test]
fn bare_event_is_dispatched_by_its_event_type() {
    // a trade that also has what a depth update has is a trade
    let raw = r#"{"e":"trade","E":1,"s":"S","U":1,"u":2,"t":9,"p":"1","q":"2","b":1,"a":2,"T":3,"m":true}"#;
    assert!(matches!(ParsedMessage::parse(raw), Ok(ParsedMessage::Trade(trade)) if trade.trade_id == 9));
    // what has all members of a depth update under another event type is unknown
    let raw = r#"{"e":"depth","E":1,"s":"S","U":1,"u":2,"b":[],"a":[]}"#;
    assert!(matches!(ParsedMessage::parse(raw), Ok(ParsedMessage::Unknown(text)) if text == raw));
    let raw = r#"{"e":"depthUpdate","E":1,"s":"S","U":1,"u":2,"b":[],"a":[],"more":[["1","2","3"]]}"#;
    assert!(matches!(ParsedMessage::parse(raw), Ok(ParsedMessage::DepthUpdate(_))));
}

#[test]
fn unknown_wrapper_carries_the_payload_as_written_anew() {
    let raw = r#"{ "stream" : "btcusdt@kline_1m", "data" : { "k" : [ 1.50, "x", null, true ] } }"#;
    match ParsedMessage::parse(raw) {
        Ok(ParsedMessage::Unknown(text)) => assert_eq!(text, r#"{"k":[1.5,"x",null,true]}"#),
        other => panic!("expected an unknown message, got {:?}", other),
    }
    let raw = r#"{"data":"plain A","stream":"other"}"#;
    assert!(matches!(ParsedMessage::parse(raw), Ok(ParsedMessage::Unknown(text)) if text == "\"plain A\""));
    let raw = r#"{"stream":"x","data":null}"#;
    assert!(matches!(ParsedMessage::parse(raw), Ok(ParsedMessage::Unknown(text)) if text == "null"));
    assert_eq!(Json::member_text(r#"{"a": [1, 2]}"#, "a"), Some("[1,2]".to_string()));
    assert_eq!(Json::member_text(r#"{"a": [1, 2]}"#, "b"), None);
    assert_eq!(Json::member_text(r#"[1, 2]"#, "a"), None);
    assert_eq!(Json::member_text("{", "a"), None);
}

#[test]
fn from_document_decides_on_the_document() {
    assert!(matches!(
        ParsedMessage::from_document(None, "whatever"),
        Ok(ParsedMessage::Unknown(text)) if text == "whatever"
    ));
    // the payload of an unknown wrapper is read off the frame
    let other = Json::parse(r#"{"stream":"x","data":1}"#).unwrap();
    assert!(matches!(
        ParsedMessage::from_document(Some(&other), r#"{"stream":"x","data": [ ]}"#),
        Ok(ParsedMessage::Unknown(text)) if text == "[]"
    ));
    assert!(matches!(
        ParsedMessage::from_document(Some(&other), "no frame"),
        Ok(ParsedMessage::Unknown(text)) if text == "no frame"
    ));
    let document = Json::parse(r#"{"e":"trade","E":1,"s":"S","t":1,"p":"1","q":"2","b":1,"a":2,"T":3,"m":false}"#)
        .unwrap();
    assert!(matches!(
        ParsedMessage::from_document(Some(&document), "raw"),
        Ok(ParsedMessage::Trade(_))
    ));
    assert!(Trade::from_json(&document).is_some());
    assert!(DepthUpdate::from_json(&document).is_none());
    assert!(StreamMessage::from_json(&document).is_none());
    let wrapper = Json::parse(r#"{"stream":"a@depth","data":[]}"#).unwrap();
    let message = StreamMessage::from_json(&wrapper).unwrap();
    assert_eq!(message.stream, "a@depth");
    assert_eq!(message.data.as_array().map(|items| items.len()), Some(0));
}

#[test]
fn json_documents_are_read_by_serde_json() {
    let document = Json::parse(r#"{"a":1,"b":"x","c":[true,null,-1,1.5],"d":{"e":18446744073709551615}}"#)
        .unwrap();
    assert_eq!(document.get("a").and_then(|v| v.as_u64()), Some(1));
    assert_eq!(document.get("b").and_then(|v| v.as_str()), Some("x"));
    let items = document.get("c").and_then(|v| v.as_array()).unwrap();
    assert_eq!(items.len(), 4);
    assert_eq!(items[0].as_bool(), Some(true));
    assert!(matches!(items[1], Json::Null));
    assert_eq!(items[2].as_u64(), None);
    assert_eq!(items[3].as_u64(), None);
    assert_eq!(document.get("d").and_then(|v| v.get("e")).and_then(|v| v.as_u64()), Some(u64::MAX));
    assert!(document.get("missing").is_none());
    assert!(document.get("a").unwrap().get("x").is_none());
    assert!(Json::parse("{").is_none());
    assert!(Json::parse("").is_none());
    assert!(matches!(Json::parse("\"text\""), Some(Json::Text(text)) if text == "text"));
}

#[test]
fn snapshot_is_read_from_the_rest_body() {
    let body = r#"{"lastUpdateId":100,"bids":[["50000","1.0"],["49999","2.0"]],"asks":[["50001","1.5"]]}"#;
    let snapshot = OrderBookSnapshot::parse(body).unwrap();
    assert_eq!(snapshot.last_update_id, 100);
    assert_eq!(snapshot.bids.len(), 2);
    assert_eq!(snapshot.asks.len(), 1);
    assert_eq!(snapshot.bids[1].price, Decimal::parse("49999").unwrap());
    assert_eq!(snapshot.asks[0].quantity, Decimal::parse("1.5").unwrap());
    assert!(matches!(
        OrderBookSnapshot::parse("<html>"),
        Err(MarketDataError::RestApiError(detail)) if detail == "response is not JSON"
    ));
    assert!(matches!(
        OrderBookSnapshot::parse(r#"{"lastUpdateId":1,"bids":[]}"#),
        Err(MarketDataError::RestApiError(detail)) if detail == "response holds no snapshot"
    ));
    assert!(matches!(
        OrderBookSnapshot::parse(r#"{"lastUpdateId":1,"bids":[["1"]],"asks":[]}"#),
        Err(MarketDataError::RestApiError(_))
    ));
}
