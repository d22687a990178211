use polymarket_arbitrage_bot::ws::{
    classify_message, event_kind, market_ws_url, parse_ask, parse_bid, process_message, subscription,
    subscription_to, ws_step, BestPrices, BookLevel, BookMessage, EventKind, Inbound,
    MarketMessage, NotJson, Price, PriceChange, PriceTable, WsStep,
};

fn level(price: &str) -> BookLevel {
    BookLevel { price: price.to_string(), size: "1".to_string() }
}

fn book(id: &str, buys: &[&str], sells: &[&str]) -> MarketMessage {
    MarketMessage::Book(BookMessage {
        asset_id: id.to_string(),
        buys: buys.iter().map(|p| level(p)).collect(),
        sells: sells.iter().map(|p| level(p)).collect(),
    })
}

fn change(id: &str, bid: Option<&str>, ask: Option<&str>) -> PriceChange {
    PriceChange {
        asset_id: id.to_string(),
        best_bid: bid.map(|s| s.to_string()),
        best_ask: ask.map(|s| s.to_string()),
    }
}

fn nanos(p: Option<Price>) -> Option<i128> {
    match p {
        Some(Price::Amount(d)) => Some(d.units() / 1_000_000_000),
        Some(Price::NoAmount) => panic!("no amount"),
        None => None,
    }
}

fn quote(table: &PriceTable, id: &str) -> Option<(Option<i128>, Option<i128>)> {
    table.get(id).map(|p| (nanos(p.bid), nanos(p.ask)))
}

#[test]
fn prices_are_read_without_white_space() {
    assert_eq!(nanos(parse_bid(" 0.5\n")), Some(500_000_000));
    assert_eq!(nanos(parse_ask("\u{3000}.25\u{a0}")), Some(250_000_000));
    assert_eq!(nanos(parse_bid("  ")), None);
    assert_eq!(nanos(parse_ask("0. 5")), None);
}

#[test]
fn what_cannot_be_counted_is_no_amount() {
    for text in [" NaN ", "-nan", "inf", "-Infinity", "1e400", "-1e30", "50000000000000000000"] {
        assert_eq!(parse_bid(text), Some(Price::NoAmount), "{}", text);
        assert_eq!(parse_ask(text), Some(Price::NoAmount), "{}", text);
    }
}

#[test]
fn asks_are_rounded_up() {
    let units = |p: Option<Price>| match p {
        Some(Price::Amount(d)) => d.units(),
        other => panic!("{:?}", other),
    };
    assert_eq!(units(parse_ask("0.0000000000000000001")), 1);
    assert_eq!(units(parse_bid("0.0000000000000000001")), 0);
    assert_eq!(units(parse_ask("1e-30")), 1);
    assert_eq!(units(parse_ask("0e-30")), 0);
    assert_eq!(units(parse_ask("0.1234567890123456780")), 123_456_789_012_345_678);
    assert_eq!(units(parse_ask("0.1234567890123456781")), 123_456_789_012_345_679);
    assert_eq!(units(parse_ask("-0.1234567890123456789")), -123_456_789_012_345_678);
}

#[test]
fn unknown_tokens_have_no_prices() {
    let table = PriceTable::new();
    assert!(table.get("a").is_none());
    let p = BestPrices::default();
    assert!(p.bid.is_none() && p.ask.is_none());
}

#[test]
fn books_set_the_best_prices() {
    let mut table = PriceTable::new();
    process_message(&mut table, &book("a", &["0.4", "0.3"], &["0.6", "0.7"]));
    assert_eq!(quote(&table, "a"), Some((Some(400_000_000), Some(600_000_000))));
    process_message(&mut table, &book("a", &[], &["0.55"]));
    assert_eq!(quote(&table, "a"), Some((Some(400_000_000), Some(550_000_000))));
    process_message(&mut table, &book("a", &["x"], &[]));
    assert_eq!(quote(&table, "a"), Some((Some(400_000_000), Some(550_000_000))));
    process_message(&mut table, &book("b", &["x"], &[]));
    assert_eq!(quote(&table, "b"), None);
}

#[test]
fn the_best_level_may_stand_anywhere() {
    let mut table = PriceTable::new();
    process_message(&mut table, &book("t", &["0.48", "0.50"], &["0.54", "0.52"]));
    assert_eq!(quote(&table, "t"), Some((Some(500_000_000), Some(520_000_000))));
    let buys = ["x", "0.1", "0.3", "", "0.2"];
    let sells = ["0.9", "0.7", "x", "0.8"];
    process_message(&mut table, &book("t", &buys, &sells));
    assert_eq!(quote(&table, "t"), Some((Some(300_000_000), Some(700_000_000))));
    process_message(&mut table, &book("t", &["x", "y"], &["z"]));
    assert_eq!(quote(&table, "t"), Some((Some(300_000_000), Some(700_000_000))));
}

#[test]
fn levels_without_an_amount_come_last() {
    let mut table = PriceTable::new();
    process_message(&mut table, &book("t", &["NaN", "0.3", "inf"], &["nan", "0.7", "inf"]));
    assert_eq!(quote(&table, "t"), Some((Some(300_000_000), Some(700_000_000))));
    process_message(&mut table, &book("t", &["x"], &["NaN", "x"]));
    let prices = table.get("t").unwrap();
    assert_eq!(prices.ask, Some(Price::NoAmount));
    assert_eq!(nanos(prices.bid), Some(300_000_000));
}

#[test]
fn a_second_reading_changes_nothing() {
    let mut table = PriceTable::new();
    process_message(&mut table, &book("other", &["0.4"], &[]));
    let changes = MarketMessage::PriceChanges(vec![
        change("a", Some("0.1"), None),
        change("b", None, Some("0.9")),
        change("a", None, Some("0.3")),
        change("b", None, None),
    ]);
    process_message(&mut table, &changes);
    let once: Vec<_> = ["a", "b", "c", "other"].iter().map(|id| quote(&table, id)).collect();
    process_message(&mut table, &changes);
    let twice: Vec<_> = ["a", "b", "c", "other"].iter().map(|id| quote(&table, id)).collect();
    assert_eq!(once, twice);
    assert_eq!(quote(&table, "other"), Some((Some(400_000_000), None)));
}

#[test]
fn changes_are_applied_in_order() {
    let mut table = PriceTable::new();
    let changes = MarketMessage::PriceChanges(vec![
        change("a", Some("0.1"), None),
        change("b", None, Some("0.9")),
        change("c", None, None),
        change("a", Some("0.2"), Some("0.3")),
        change("b", Some("bad"), None),
    ]);
    process_message(&mut table, &changes);
    assert_eq!(quote(&table, "a"), Some((Some(200_000_000), Some(300_000_000))));
    assert_eq!(quote(&table, "b"), Some((None, Some(900_000_000))));
    assert_eq!(quote(&table, "c"), None);
}

#[test]
fn quotes_are_local_and_stay_known() {
    let mut table = PriceTable::new();
    process_message(&mut table, &book("a", &["0.4"], &["0.6"]));
    process_message(&mut table, &book("b", &["0.1"], &["0.2"]));
    process_message(&mut table, &MarketMessage::Other);
    assert_eq!(quote(&table, "a"), Some((Some(400_000_000), Some(600_000_000))));
    assert_eq!(quote(&table, "b"), Some((Some(100_000_000), Some(200_000_000))));
}

#[test]
fn event_types_tell_kinds() {
    let kind = |t: Option<&str>| event_kind(&t.map(|s| s.to_string()));
    assert_eq!(kind(Some("book")), EventKind::Book);
    assert_eq!(kind(Some("price_change")), EventKind::PriceChange);
    assert_eq!(kind(Some("Book")), EventKind::Other);
    assert_eq!(kind(None), EventKind::Other);
}

#[test]
fn messages_are_classified() {
    assert_eq!(classify_message("{\"event_type\":\"book\",\"x\":1}"), Ok(EventKind::Book));
    assert_eq!(
        classify_message(" { \"a\" : [1.5], \"event_type\" : \"price\\u005fchange\" } "),
        Ok(EventKind::PriceChange)
    );
    assert_eq!(classify_message("{\"event_type\":\"last_trade_price\"}"), Ok(EventKind::Other));
    assert_eq!(classify_message("{\"event_type\":7}"), Ok(EventKind::Other));
    assert_eq!(classify_message("{}"), Ok(EventKind::Other));
    assert_eq!(classify_message("[{\"event_type\":\"book\"}]"), Ok(EventKind::Other));
    assert_eq!(classify_message("book"), Err(NotJson));
    assert_eq!(classify_message("{\"event_type\":\"book\"} x"), Err(NotJson));
}

#[test]
fn inbound_is_decided() {
    assert!(matches!(ws_step(Inbound::Text("PONG".to_string())), WsStep::Ignore));
    assert!(matches!(ws_step(Inbound::Text("pong".to_string())), WsStep::Ignore));
    match ws_step(Inbound::Text("Pong".to_string())) {
        WsStep::Process(text) => assert_eq!(text, "Pong"),
        other => panic!("{:?}", other),
    }
    match ws_step(Inbound::Ping(vec![1, 2])) {
        WsStep::Pong(data) => assert_eq!(data, vec![1, 2]),
        other => panic!("{:?}", other),
    }
    assert!(matches!(ws_step(Inbound::Close), WsStep::Stop));
    assert!(matches!(ws_step(Inbound::Failed), WsStep::Stop));
    assert!(matches!(ws_step(Inbound::Ended), WsStep::Stop));
    assert!(matches!(ws_step(Inbound::Other), WsStep::Ignore));
}

#[test]
fn a_stream_is_read_until_it_ends() {
    let mut table = PriceTable::new();
    let text = |t: &str| Inbound::Text(t.to_string());
    let stream = vec![text("0.4"), text("PONG"), Inbound::Other, text("0.5"), Inbound::Close, text("0.6")];
    for item in stream {
        match ws_step(item) {
            WsStep::Process(ask) => process_message(&mut table, &book("a", &[], &[ask.as_str()])),
            WsStep::Stop => break,
            _ => {}
        }
    }
    assert_eq!(quote(&table, "a"), Some((None, Some(500_000_000))));
}

#[test]
fn the_channel_lies_under_the_base() {
    assert_eq!(market_ws_url("wss://host"), "wss://host/ws/market");
    assert_eq!(market_ws_url("wss://host//"), "wss://host/ws/market");
    assert_eq!(market_ws_url("///"), "/ws/market");
    assert_eq!(market_ws_url(""), "/ws/market");
}

#[test]
fn subscriptions_list_the_tokens() {
    let ids = vec!["12".to_string(), "34".to_string()];
    assert_eq!(subscription(&ids), "{\"assets_ids\":[\"12\",\"34\"],\"type\":\"market\"}");
    assert_eq!(subscription(&vec![]), "{\"assets_ids\":[],\"type\":\"market\"}");
    assert_eq!(
        subscription(&vec!["a\"b\\c/\u{7f}\u{e9}".to_string()]),
        "{\"assets_ids\":[\"a\\\"b\\\\c/\u{7f}\u{e9}\"],\"type\":\"market\"}"
    );
    assert_eq!(
        subscription(&vec!["\u{8}\t\n\u{b}\u{c}\r\u{0}\u{1f}".to_string()]),
        "{\"assets_ids\":[\"\\b\\t\\n\\u000b\\f\\r\\u0000\\u001f\"],\"type\":\"market\"}"
    );
    assert_eq!(subscription_to("[]"), "{\"assets_ids\":[],\"type\":\"market\"}");
}
