use fanout::feed::{BinanceClient, Payload};
use fanout::text::{contains_text, join, u8_decimal};

#[test]
fn payload_renders_exact_request() {
    let p = Payload::new();
    assert_eq!(
        p.to_string(),
        "{\"method\": \"SUBSCRIBE\", \"params\": [\"bnbusdt@ticker\"], \"id\": 1}".to_string()
    );
}

#[test]
fn client_sends_the_payload_text() {
    let c = BinanceClient::new();
    assert_eq!(c.url(), &"wss://stream.binance.com:9443/ws".to_string());
    assert_eq!(
        c.subscribe_text(),
        "{\"method\": \"SUBSCRIBE\", \"params\": [\"bnbusdt@ticker\"], \"id\": 1}".to_string()
    );
}

#[test]
fn decimal_rendering() {
    assert_eq!(u8_decimal(0), "0".to_string());
    assert_eq!(u8_decimal(7), "7".to_string());
    assert_eq!(u8_decimal(10), "10".to_string());
    assert_eq!(u8_decimal(205), "205".to_string());
    assert_eq!(u8_decimal(255), "255".to_string());
}

#[test]
fn join_with_separator() {
    let none: Vec<String> = vec![];
    assert_eq!(join(&none, ", "), "".to_string());
    let one = vec!["a".to_string()];
    assert_eq!(join(&one, ", "), "a".to_string());
    let three = vec!["a".to_string(), "b".to_string(), "c".to_string()];
    assert_eq!(join(&three, "\", \""), "a\", \"b\", \"c".to_string());
}

#[test]
fn substring_search() {
    assert!(contains_text("abcdef", "cde"));
    assert!(contains_text("abcdef", ""));
    assert!(contains_text("abcdef", "abcdef"));
    assert!(!contains_text("abcdef", "abcdefg"));
    assert!(!contains_text("abcdef", "ace"));
    assert!(!contains_text("", "a"));
}

#[test]
fn parse_channel_extracts_event_field() {
    // a real upstream ticker message carries its event type under "e";
    // the extracted text is the JSON rendering of that field, quotes included
    let msg = "{\"e\":\"24hrTicker\",\"E\":1623823000000,\"s\":\"BNBUSDT\"}".to_string();
    let channel = BinanceClient::parse_channel(&msg).unwrap();
    assert_eq!(channel, "\"24hrTicker\"".to_string());
    assert!(BinanceClient::is_ticker_channel(&channel));
}

#[test]
fn parse_channel_rejects_other_messages() {
    // no "e" field
    assert!(BinanceClient::parse_channel(&"{\"result\":null,\"id\":1}".to_string()).is_none());
    // not JSON at all
    assert!(BinanceClient::parse_channel(&"not json".to_string()).is_none());
}

#[test]
fn non_ticker_channel_is_not_forwarded() {
    let msg = "{\"e\":\"trade\",\"s\":\"BNBUSDT\"}".to_string();
    let channel = BinanceClient::parse_channel(&msg).unwrap();
    assert_eq!(channel, "\"trade\"".to_string());
    assert!(!BinanceClient::is_ticker_channel(&channel));
}
