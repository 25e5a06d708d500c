use quote_streamer::request::{frame_request, subscription_request};

fn owned(symbols: &[&str]) -> Vec<String> {
    symbols.iter().map(|s| s.to_string()).collect()
}

#[test]
fn request_lists_the_symbols() {
    assert_eq!(
        subscription_request(&owned(&["AAPL", "MSFT"])),
        Some("{\"subscribe\":[\"AAPL\",\"MSFT\"]}".to_string())
    );
}

#[test]
fn request_for_one_symbol_has_no_comma() {
    assert_eq!(
        subscription_request(&owned(&["AAPL"])),
        Some("{\"subscribe\":[\"AAPL\"]}".to_string())
    );
}

#[test]
fn request_without_symbols_has_an_empty_array() {
    assert_eq!(subscription_request(&Vec::new()), Some("{\"subscribe\":[]}".to_string()));
}

#[test]
fn request_keeps_the_order_given() {
    assert_eq!(
        subscription_request(&owned(&["ZM", "AAPL", "MSFT"])),
        Some("{\"subscribe\":[\"ZM\",\"AAPL\",\"MSFT\"]}".to_string())
    );
}

#[test]
fn symbols_are_written_as_json_strings() {
    assert_eq!(
        subscription_request(&owned(&["A\"B", "C\\D", "E\nF", "^GSPC", "\u{20ac}"])),
        Some("{\"subscribe\":[\"A\\\"B\",\"C\\\\D\",\"E\\nF\",\"^GSPC\",\"\u{20ac}\"]}".to_string())
    );
}

#[test]
fn request_is_what_serde_json_reads_back() {
    let symbols = owned(&["AAPL", "BRK-B", "A\"B", "tab\there", ""]);
    let text = subscription_request(&symbols).unwrap();
    let value: serde_json::Value = serde_json::from_str(&text).unwrap();
    let object = value.as_object().unwrap();
    assert_eq!(object.len(), 1);
    let array = object.get("subscribe").unwrap().as_array().unwrap();
    let read: Vec<String> = array.iter().map(|v| v.as_str().unwrap().to_string()).collect();
    assert_eq!(read, symbols);
}

#[test]
fn frame_joins_items_with_commas() {
    assert_eq!(frame_request(&owned(&[])), "{\"subscribe\":[]}");
    assert_eq!(frame_request(&owned(&["1"])), "{\"subscribe\":[1]}");
    assert_eq!(frame_request(&owned(&["1", "2", "3"])), "{\"subscribe\":[1,2,3]}");
}
