use okex_stream::error::{Error, ErrorKind};
use okex_stream::event_loop::{needs_decoding, step, Decoded, Incoming, Step};
use okex_stream::order::{OrderSide, OrderType, TradeMode, WSOrder, WSOrderRequest};
use okex_stream::session::{Config, WebSockets};
use okex_stream::wire::{encode_order, encode_request};
use serde_json::Value;

fn connected_session() -> WebSockets<u32> {
    let mut ws: WebSockets<u32> = WebSockets::new();
    assert!(ws.connected(Ok(7)).is_ok());
    ws
}

fn decode(frame: &Incoming) -> Decoded<Value> {
    if !needs_decoding(frame) {
        return Decoded::Neither;
    }
    match frame {
        Incoming::Text(b) => match serde_json::from_slice::<Value>(b) {
            Ok(v) if v.get("data").is_some() => Decoded::Event(v),
            Ok(v) if v.get("event").is_some() => Decoded::Ack,
            _ => Decoded::Neither,
        },
        _ => Decoded::Neither,
    }
}

fn run(frames: Vec<Incoming>) -> (Option<Result<(), Error>>, Vec<Value>) {
    let mut events = Vec::new();
    for f in frames {
        let d = decode(&f);
        match step(f, d) {
            Step::Forward(e) => events.push(e),
            Step::Continue => {}
            Step::Finish => return (Some(Ok(())), events),
            Step::Fail(e) => return (Some(Err(e)), events),
        }
    }
    (None, events)
}

fn text(s: &str) -> Incoming {
    Incoming::Text(s.as_bytes().to_vec())
}

fn sample_order() -> WSOrder {
    WSOrder {
        symbol: "BTC-USDT".to_string(),
        trade_mode: TradeMode::Isolated,
        currency: Some("USDT".to_string()),
        client_order_id: Some("my\"id\\1\n".to_string()),
        tag: None,
        side: OrderSide::Sell,
        position_side: Some("long".to_string()),
        order_type: OrderType::PostOnly,
        qty: "0.5".to_string(),
        price: None,
        reduce_only: Some(true),
        target_currency: Some("quote_ccy\u{1}é".to_string()),
    }
}

#[test]
fn connect_public_then_empty_frame_finishes() {
    let ws: WebSockets<u32> = WebSockets::new();
    assert_eq!(ws.endpoint_url("public"), "wss://ws.okx.com:8443/ws/v5/public");
    let ws = connected_session();
    assert!(ws.is_connected());
    assert!(ws.before_read(true).is_none());
    let (end, events) = run(vec![text("")]);
    assert!(matches!(end, Some(Ok(()))));
    assert!(events.is_empty());
}

#[test]
fn trade_frame_forwards_one_event() {
    let (end, events) = run(vec![text(r#"{"arg":{"channel":"trades"},"data":[{"px":"1"}]}"#)]);
    assert!(end.is_none());
    assert_eq!(events.len(), 1);
    assert_eq!(events[0]["arg"]["channel"], "trades");
}

#[test]
fn events_forwarded_in_order() {
    let (end, events) = run(vec![
        text(r#"{"data":[1]}"#),
        Incoming::Ping(vec![1]),
        text(r#"{"event":"subscribe"}"#),
        text(r#"{"data":[2]}"#),
        text(""),
        text(r#"{"data":[3]}"#),
    ]);
    assert!(matches!(end, Some(Ok(()))));
    assert_eq!(events.len(), 2);
    assert_eq!(events[0]["data"][0], 1);
    assert_eq!(events[1]["data"][0], 2);
}

#[test]
fn close_frame_fails_with_reason() {
    let (end, events) = run(vec![text(r#"{"data":[1]}"#), Incoming::Close("Some(Normal)".to_string())]);
    assert_eq!(events.len(), 1);
    match end {
        Some(Err(e)) => {
            assert_eq!(e.kind(), ErrorKind::Transport);
            assert!(matches!(e, Error::Closed(ref r) if r == "Some(Normal)"));
        }
        _ => panic!("expected a close error"),
    }
}

#[test]
fn unparseable_frame_fails_with_bytes() {
    let (end, _) = run(vec![text("not json")]);
    match end {
        Some(Err(Error::ParseFailed(b))) => assert_eq!(b, b"not json".to_vec()),
        _ => panic!("expected a parse error"),
    }
}

#[test]
fn other_frames_are_passed_over_or_fail() {
    let (end, events) = run(vec![Incoming::Binary(vec![0]), Incoming::Pong(vec![]), Incoming::Continuation]);
    assert!(end.is_none());
    assert!(events.is_empty());
    let (end, _) = run(vec![Incoming::Ended]);
    assert!(matches!(end, Some(Err(Error::StreamEnded))));
    let (end, _) = run(vec![Incoming::Broken("bad frame".to_string())]);
    assert!(matches!(end, Some(Err(Error::Protocol(ref c))) if c == "bad frame"));
}

#[test]
fn before_read_follows_flag_and_connection() {
    let ws: WebSockets<u32> = WebSockets::new();
    assert!(matches!(ws.before_read(false), Some(Ok(()))));
    assert!(matches!(ws.before_read(true), Some(Err(Error::NotConnected))));
}

#[test]
fn limit_buy_sends_one_order_envelope() {
    let ws = connected_session();
    let bytes = ws
        .limit_buy("BTC-USDT".to_string(), "1".to_string(), "50000".to_string(), OrderType::Limit)
        .unwrap();
    let v: Value = serde_json::from_slice(&bytes).unwrap();
    assert_eq!(v["op"], "order");
    assert_eq!(v["id"].as_str().unwrap().len(), 36);
    let args = v["args"].as_array().unwrap();
    assert_eq!(args.len(), 1);
    assert_eq!(args[0]["side"], "buy");
    assert_eq!(args[0]["tdMode"], "cross");
    assert_eq!(args[0]["px"], "50000");
    assert_eq!(args[0]["sz"], "1");
    assert_eq!(args[0]["instId"], "BTC-USDT");
    assert_eq!(args[0]["ordType"], "limit");
    assert!(args[0]["posSide"].is_null());
}

#[test]
fn limit_sell_sets_sell_side() {
    let ws = connected_session();
    let bytes = ws
        .limit_sell("ETH-USDT".to_string(), "2".to_string(), "3000".to_string(), OrderType::Fok)
        .unwrap();
    let v: Value = serde_json::from_slice(&bytes).unwrap();
    assert_eq!(v["args"][0]["side"], "sell");
    assert_eq!(v["args"][0]["ordType"], "fok");
}

#[test]
fn fresh_ids_differ() {
    let ws = connected_session();
    let a: Value = serde_json::from_slice(&ws.place_order(sample_order()).unwrap()).unwrap();
    let b: Value = serde_json::from_slice(&ws.place_order(sample_order()).unwrap()).unwrap();
    assert_ne!(a["id"], b["id"]);
}

#[test]
fn commands_fail_when_disconnected() {
    let ws: WebSockets<u32> = WebSockets::new();
    let r = ws.limit_buy("BTC-USDT".to_string(), "1".to_string(), "50000".to_string(), OrderType::Limit);
    assert!(matches!(r, Err(Error::NotConnected)));
    assert!(matches!(ws.limit_sell("A".to_string(), "1".to_string(), "2".to_string(), OrderType::Limit), Err(Error::NotConnected)));
    assert!(matches!(ws.place_order(sample_order()), Err(Error::NotConnected)));
    assert!(matches!(ws.place_multiple_orders(vec![sample_order()]), Err(Error::NotConnected)));
    assert!(matches!(ws.subscribe_request("{}"), Err(Error::NotConnected)));
    assert_eq!(Error::NotConnected.kind(), ErrorKind::Transport);
}

#[test]
fn batch_orders_envelope() {
    let ws = connected_session();
    let bytes = ws.place_multiple_orders(vec![sample_order(), sample_order()]).unwrap();
    let v: Value = serde_json::from_slice(&bytes).unwrap();
    assert_eq!(v["op"], "batch-orders");
    assert_eq!(v["args"].as_array().unwrap().len(), 2);
}

#[test]
fn envelope_round_trips_through_json() {
    let o = sample_order();
    let req = WSOrderRequest { id: "id-1".to_string(), op: "order".to_string(), args: vec![o.clone(), o] };
    let bytes = encode_request(&req);
    let v: Value = serde_json::from_slice(&bytes).unwrap();
    assert_eq!(v["id"], "id-1");
    let a = &v["args"][1];
    assert_eq!(a["instId"], "BTC-USDT");
    assert_eq!(a["tdMode"], "isolated");
    assert_eq!(a["ccy"], "USDT");
    assert_eq!(a["clOrdId"], "my\"id\\1\n");
    assert!(a["tag"].is_null());
    assert_eq!(a["side"], "sell");
    assert_eq!(a["posSide"], "long");
    assert_eq!(a["ordType"], "post_only");
    assert_eq!(a["sz"], "0.5");
    assert!(a["px"].is_null());
    assert_eq!(a["reduceOnly"], true);
    assert_eq!(a["tgtCcy"], "quote_ccy\u{1}é");
}

#[test]
fn order_text_exact() {
    let o = WSOrder::limit(OrderSide::Buy, "A".to_string(), "1".to_string(), "2".to_string(), OrderType::Ioc);
    let text = String::from_utf8(encode_order(&o)).unwrap();
    assert_eq!(
        text,
        r#"{"instId":"A","tdMode":"cross","ccy":null,"clOrdId":null,"tag":null,"side":"buy","posSide":null,"ordType":"ioc","sz":"1","px":"2","reduceOnly":null,"tgtCcy":null}"#
    );
    let mut q = o.clone();
    q.client_order_id = Some("\u{1f}\"".to_string());
    q.reduce_only = Some(false);
    let text = String::from_utf8(encode_order(&q)).unwrap();
    assert!(text.contains(r#""clOrdId":"\u001f\"""#));
    assert!(text.contains(r#""reduceOnly":false"#));
}

#[test]
fn subscribe_request_passes_text() {
    let ws = connected_session();
    assert_eq!(ws.subscribe_request("{\"op\":\"subscribe\"}").unwrap(), b"{\"op\":\"subscribe\"}".to_vec());
}

#[test]
fn disconnect_twice_fails_second_time() {
    let mut ws = connected_session();
    assert_eq!(ws.disconnect().unwrap(), 7);
    assert!(!ws.is_connected());
    assert!(matches!(ws.disconnect(), Err(Error::NotConnected)));
}

#[test]
fn failed_handshake_keeps_state() {
    let mut ws: WebSockets<u32> = WebSockets::new_with_options(Config { ws_endpoint: "wss://h".to_string() });
    assert_eq!(ws.endpoint_url("private"), "wss://h/private");
    match ws.connected(Err("refused".to_string())) {
        Err(Error::Handshake(c)) => assert_eq!(c, "refused"),
        _ => panic!("expected a handshake error"),
    }
    assert!(!ws.is_connected());
    assert!(ws.connected(Ok(1)).is_ok());
    assert!(ws.connected(Ok(2)).is_ok());
    assert_eq!(ws.disconnect().unwrap(), 2);
}

#[test]
fn defaults() {
    assert_eq!(OrderSide::default(), OrderSide::Buy);
    assert_eq!(TradeMode::default(), TradeMode::Cross);
    assert_eq!(Config::default().ws_endpoint, "wss://ws.okx.com:8443/ws/v5");
}

#[test]
fn error_kinds_and_conversions() {
    let e: Error = serde_json::from_str::<Value>("{").unwrap_err().into();
    assert!(matches!(e, Error::Json(_)));
    assert_eq!(e.kind(), ErrorKind::Encoding);
    let e: Error = "x".parse::<f64>().unwrap_err().into();
    assert_eq!(e.kind(), ErrorKind::Encoding);
    let e: Error = std::io::Error::new(std::io::ErrorKind::Other, "io").into();
    assert_eq!(e.kind(), ErrorKind::Transport);
    let e: Error = url::Url::parse("::").unwrap_err().into();
    assert!(matches!(e, Error::UrlParserError(_)));
    assert_eq!(Error::SendError("ev".to_string()).kind(), ErrorKind::Delivery);
    assert_eq!(Error::InvalidPrice.kind(), ErrorKind::Validation);
    assert_eq!(Error::Unauthorized.kind(), ErrorKind::Validation);
    assert_eq!(Error::Msg("m".to_string()).kind(), ErrorKind::Other);
    assert_eq!(Error::ParseFailed(vec![1]).kind(), ErrorKind::Encoding);
    let mut extra = serde_json::Map::new();
    extra.insert("status".to_string(), Value::from("error"));
    let venue = okex_stream::error::HuobiContentError::new(-1, "bad".to_string(), extra);
    let e: Error = venue.into();
    assert_eq!(e.kind(), ErrorKind::Venue);
    match e {
        Error::HuobiError { response } => {
            assert_eq!(response.code, -1);
            assert_eq!(response.msg, "bad");
            assert_eq!(response.extra["status"], "error");
        }
        _ => panic!("expected a venue error"),
    }
}
