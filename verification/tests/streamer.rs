use protobuf::CodedOutputStream;
use quote_streamer::{
    Action, DecodeError, DecodePolicy, Event, Quote, QuoteType, RawUpdate, State, StreamError,
    Streamer, TradingSession,
};
use std::cell::RefCell;
use std::rc::Rc;

fn update(id: &str) -> RawUpdate {
    RawUpdate {
        id: id.to_string(),
        quote_type: 8,
        time: 1_583_503_200,
        market_hours: 1,
        price_bits: 10.5f32.to_bits(),
        day_volume: 1_000,
    }
}

fn quote(id: &str) -> Quote {
    Quote {
        symbol: id.to_string(),
        quote_type: QuoteType::Equity,
        timestamp: 1_583_503_200,
        session: TradingSession::Regular,
        price_bits: 10.5f32.to_bits(),
        volume: 1_000,
    }
}

fn frame(id: &str) -> Vec<u8> {
    let mut bytes = Vec::new();
    {
        let mut stream = CodedOutputStream::vec(&mut bytes);
        stream.write_string(1, id).unwrap();
        stream.write_float(2, 10.5).unwrap();
        stream.write_sint64(3, 1_583_503_200).unwrap();
        stream.write_enum(6, 8).unwrap();
        stream.write_enum(7, 1).unwrap();
        stream.write_sint64(9, 1_000).unwrap();
        stream.flush().unwrap();
    }
    base64::encode(&bytes).into_bytes()
}

fn connected<H>(policy: DecodePolicy) -> Streamer<H> {
    match Streamer::new(true, policy) {
        Ok(streamer) => streamer,
        Err(e) => panic!("no engine: {:?}", e),
    }
}

fn listening<H>(policy: DecodePolicy, symbols: Vec<&str>, callback: H) -> Streamer<H> {
    let mut streamer = connected(policy);
    streamer.subscribe(symbols, callback);
    assert!(matches!(streamer.run(), Action::Send(_)));
    assert_eq!(streamer.handle(Event::Sent), Action::Receive);
    streamer
}

#[test]
fn engine_needs_a_connection() {
    let failed = Streamer::<u32>::new(false, DecodePolicy::Skip);
    assert!(matches!(failed, Err(StreamError::Connection)));
    let failed = Streamer::<u32>::new(false, DecodePolicy::Stop);
    assert!(matches!(failed, Err(StreamError::Connection)));
}

#[test]
fn engine_starts_connected_and_empty() {
    let streamer: Streamer<u32> = connected(DecodePolicy::Stop);
    assert_eq!(streamer.state(), State::Connected);
    assert_eq!(streamer.policy(), DecodePolicy::Stop);
    assert_eq!(streamer.announced(), None);
    assert_eq!(streamer.registry().len(), 0);
}

#[test]
fn run_sends_the_request_for_the_symbols_subscribed() {
    let mut streamer: Streamer<u32> = connected(DecodePolicy::Skip);
    streamer.subscribe(vec!["AAPL", "MSFT"], 1);
    let action = streamer.run();
    assert_eq!(action, Action::Send("{\"subscribe\":[\"AAPL\",\"MSFT\"]}".to_string()));
    assert_eq!(streamer.state(), State::Subscribing);
    assert_eq!(streamer.announced(), Some(&vec!["AAPL".to_string(), "MSFT".to_string()]));
}

#[test]
fn run_without_subscriptions_sends_an_empty_list() {
    let mut streamer: Streamer<u32> = connected(DecodePolicy::Skip);
    assert_eq!(streamer.run(), Action::Send("{\"subscribe\":[]}".to_string()));
    assert_eq!(streamer.announced(), Some(&Vec::new()));
}

#[test]
fn request_is_sent_once() {
    let mut streamer: Streamer<u32> = connected(DecodePolicy::Skip);
    streamer.subscribe(vec!["AAPL"], 1);
    assert!(matches!(streamer.run(), Action::Send(_)));
    assert_eq!(streamer.run(), Action::Ignored);
    assert_eq!(streamer.state(), State::Subscribing);
    assert_eq!(streamer.handle(Event::Sent), Action::Receive);
    assert_eq!(streamer.run(), Action::Ignored);
    assert_eq!(streamer.state(), State::Listening);
    assert_eq!(streamer.handle(Event::Closed), Action::Finish(Ok(())));
    assert_eq!(streamer.run(), Action::Ignored);
    assert_eq!(streamer.state(), State::Terminated);
}

#[test]
fn start_hands_out_the_request_given() {
    let mut streamer: Streamer<u32> = connected(DecodePolicy::Skip);
    streamer.subscribe(vec!["AAPL"], 1);
    assert_eq!(streamer.start(Some("hello".to_string())), Action::Send("hello".to_string()));
    assert_eq!(streamer.state(), State::Subscribing);
    assert_eq!(streamer.announced(), Some(&vec!["AAPL".to_string()]));
    assert_eq!(streamer.start(Some("again".to_string())), Action::Ignored);
}

#[test]
fn start_without_a_request_ends_the_session() {
    let mut streamer: Streamer<u32> = connected(DecodePolicy::Skip);
    streamer.subscribe(vec!["AAPL"], 1);
    assert_eq!(streamer.start(None), Action::Finish(Err(StreamError::Request)));
    assert_eq!(streamer.state(), State::Terminated);
    assert_eq!(streamer.announced(), None);
}

#[test]
fn send_failure_ends_the_session() {
    let mut streamer: Streamer<u32> = connected(DecodePolicy::Skip);
    assert!(matches!(streamer.run(), Action::Send(_)));
    assert_eq!(streamer.handle(Event::Failed), Action::Finish(Err(StreamError::Transport)));
    assert_eq!(streamer.state(), State::Terminated);
}

#[test]
fn sent_request_starts_listening() {
    let mut streamer: Streamer<u32> = connected(DecodePolicy::Skip);
    assert!(matches!(streamer.run(), Action::Send(_)));
    assert_eq!(streamer.handle(Event::Sent), Action::Receive);
    assert_eq!(streamer.state(), State::Listening);
}

#[test]
fn stream_end_finishes_without_error() {
    let mut streamer = listening(DecodePolicy::Skip, vec!["AAPL"], 1u32);
    assert_eq!(streamer.handle(Event::Closed), Action::Finish(Ok(())));
    assert_eq!(streamer.state(), State::Terminated);
}

#[test]
fn receive_failure_ends_the_session() {
    let mut streamer = listening(DecodePolicy::Skip, vec!["AAPL"], 1u32);
    assert_eq!(streamer.handle(Event::Failed), Action::Finish(Err(StreamError::Transport)));
    assert_eq!(streamer.state(), State::Terminated);
}

#[test]
fn frame_for_a_subscribed_symbol_is_delivered() {
    let mut streamer = listening(DecodePolicy::Skip, vec!["MSFT", "AAPL"], 1u32);
    let action = streamer.handle(Event::Frame(frame("AAPL")));
    assert_eq!(action, Action::Deliver { subscription: 1, quote: quote("AAPL") });
    assert_eq!(streamer.callback(1), &1);
    assert_eq!(streamer.state(), State::Listening);
}

#[test]
fn frame_for_another_symbol_is_dropped_silently() {
    let mut streamer = listening(DecodePolicy::Stop, vec!["AAPL"], 1u32);
    assert_eq!(streamer.handle(Event::Frame(frame("GOOG"))), Action::Receive);
    assert_eq!(streamer.state(), State::Listening);
}

#[test]
fn dispatch_follows_the_order_of_arrival() {
    let calls: Rc<RefCell<Vec<(&'static str, Quote)>>> = Rc::new(RefCell::new(Vec::new()));
    let mut streamer: Streamer<Box<dyn Fn(Quote)>> = connected(DecodePolicy::Skip);
    let log = calls.clone();
    streamer.subscribe(vec!["A"], Box::new(move |q| log.borrow_mut().push(("for A", q))));
    let log = calls.clone();
    streamer.subscribe(vec!["B"], Box::new(move |q| log.borrow_mut().push(("for B", q))));
    assert!(matches!(streamer.run(), Action::Send(_)));
    assert_eq!(streamer.handle(Event::Sent), Action::Receive);
    for id in ["A", "C", "B"] {
        match streamer.handle(Event::Frame(frame(id))) {
            Action::Deliver { subscription, quote } => (streamer.callback(subscription))(quote),
            Action::Receive => {},
            other => panic!("unexpected action {:?}", other),
        }
    }
    assert_eq!(*calls.borrow(), vec![("for A", quote("A")), ("for B", quote("B"))]);
}

#[test]
fn decoded_updates_are_routed() {
    let mut streamer = listening(DecodePolicy::Skip, vec!["A"], 'a');
    streamer.subscribe(vec!["B"], 'b');
    let mut called = Vec::new();
    for id in ["A", "C", "B", "A"] {
        if let Action::Deliver { subscription, quote } = streamer.deliver(Ok(update(id))) {
            called.push((*streamer.callback(subscription), quote.symbol));
        }
    }
    let expected: Vec<(char, String)> =
        vec![('a', "A".to_string()), ('b', "B".to_string()), ('a', "A".to_string())];
    assert_eq!(called, expected);
}

#[test]
fn later_subscription_is_not_announced() {
    let mut streamer: Streamer<u32> = connected(DecodePolicy::Skip);
    streamer.subscribe(vec!["AAPL"], 1);
    let request = streamer.run();
    assert_eq!(request, Action::Send("{\"subscribe\":[\"AAPL\"]}".to_string()));
    streamer.subscribe(vec!["MSFT"], 2);
    assert_eq!(request, Action::Send("{\"subscribe\":[\"AAPL\"]}".to_string()));
    assert_eq!(streamer.announced(), Some(&vec!["AAPL".to_string()]));
    assert_eq!(streamer.state(), State::Subscribing);
    assert_eq!(streamer.handle(Event::Sent), Action::Receive);
    streamer.subscribe(vec!["GOOG"], 3);
    assert_eq!(streamer.announced(), Some(&vec!["AAPL".to_string()]));
    assert_eq!(streamer.registry().snapshot_keys(), vec!["AAPL", "MSFT", "GOOG"]);
    assert_eq!(streamer.state(), State::Listening);
    assert_eq!(streamer.run(), Action::Ignored);
}

#[test]
fn later_subscription_is_served_when_updates_come() {
    let mut streamer = listening(DecodePolicy::Skip, vec!["AAPL"], 1u32);
    assert_eq!(streamer.handle(Event::Frame(frame("MSFT"))), Action::Receive);
    streamer.subscribe(vec!["MSFT"], 2);
    let action = streamer.handle(Event::Frame(frame("MSFT")));
    assert_eq!(action, Action::Deliver { subscription: 1, quote: quote("MSFT") });
    assert_eq!(streamer.callback(1), &2);
}

#[test]
fn malformed_frame_is_skipped_under_skip() {
    let mut streamer = listening(DecodePolicy::Skip, vec!["AAPL"], 1u32);
    assert_eq!(
        streamer.handle(Event::Frame(b"not base64!".to_vec())),
        Action::Discard(DecodeError::NotBase64)
    );
    assert_eq!(streamer.state(), State::Listening);
    let broken = base64::encode([0x0a, 0x05, b'A']).into_bytes();
    assert_eq!(
        streamer.handle(Event::Frame(broken)),
        Action::Discard(DecodeError::MalformedRecord)
    );
    assert_eq!(streamer.state(), State::Listening);
    let action = streamer.handle(Event::Frame(frame("AAPL")));
    assert_eq!(action, Action::Deliver { subscription: 0, quote: quote("AAPL") });
}

#[test]
fn malformed_frame_ends_the_session_under_stop() {
    let mut streamer = listening(DecodePolicy::Stop, vec!["AAPL"], 1u32);
    assert_eq!(
        streamer.handle(Event::Frame(b"not base64!".to_vec())),
        Action::Finish(Err(StreamError::Decode(DecodeError::NotBase64)))
    );
    assert_eq!(streamer.state(), State::Terminated);
    assert_eq!(streamer.handle(Event::Frame(frame("AAPL"))), Action::Ignored);

    let mut streamer = listening(DecodePolicy::Stop, vec!["AAPL"], 1u32);
    let broken = base64::encode([0x08, 0x01]).into_bytes();
    assert_eq!(
        streamer.handle(Event::Frame(broken)),
        Action::Finish(Err(StreamError::Decode(DecodeError::MalformedRecord)))
    );
    assert_eq!(streamer.state(), State::Terminated);
}

#[test]
fn decoding_error_is_routed_by_policy() {
    let mut skipping = listening(DecodePolicy::Skip, vec!["AAPL"], 1u32);
    assert_eq!(
        skipping.deliver(Err(DecodeError::MalformedRecord)),
        Action::Discard(DecodeError::MalformedRecord)
    );
    let mut stopping = listening(DecodePolicy::Stop, vec!["AAPL"], 1u32);
    assert_eq!(
        stopping.deliver(Err(DecodeError::NotBase64)),
        Action::Finish(Err(StreamError::Decode(DecodeError::NotBase64)))
    );
}

#[test]
fn events_that_do_not_fit_are_ignored() {
    let mut streamer: Streamer<u32> = connected(DecodePolicy::Skip);
    streamer.subscribe(vec!["AAPL"], 1);
    for event in [Event::Sent, Event::Frame(frame("AAPL")), Event::Closed, Event::Failed] {
        assert_eq!(streamer.handle(event), Action::Ignored);
        assert_eq!(streamer.state(), State::Connected);
    }
    assert_eq!(streamer.deliver(Ok(update("AAPL"))), Action::Ignored);
    assert!(matches!(streamer.run(), Action::Send(_)));
    for event in [Event::Frame(frame("AAPL")), Event::Closed] {
        assert_eq!(streamer.handle(event), Action::Ignored);
        assert_eq!(streamer.state(), State::Subscribing);
    }
    assert_eq!(streamer.handle(Event::Sent), Action::Receive);
    assert_eq!(streamer.handle(Event::Sent), Action::Ignored);
    assert_eq!(streamer.state(), State::Listening);
}

#[test]
fn ended_session_stays_ended() {
    let mut streamer = listening(DecodePolicy::Skip, vec!["AAPL"], 1u32);
    assert_eq!(streamer.handle(Event::Closed), Action::Finish(Ok(())));
    for event in [Event::Sent, Event::Frame(frame("AAPL")), Event::Closed, Event::Failed] {
        assert_eq!(streamer.handle(event), Action::Ignored);
        assert_eq!(streamer.state(), State::Terminated);
    }
    assert_eq!(streamer.deliver(Ok(update("AAPL"))), Action::Ignored);
    streamer.subscribe(vec!["MSFT"], 2);
    assert_eq!(streamer.state(), State::Terminated);
    assert_eq!(streamer.registry().len(), 2);
}

#[test]
fn subscribing_does_not_move_the_session() {
    let mut streamer: Streamer<u32> = connected(DecodePolicy::Skip);
    streamer.subscribe(vec!["AAPL"], 1);
    assert_eq!(streamer.state(), State::Connected);
    streamer.subscribe(vec!["AAPL"], 2);
    assert_eq!(streamer.registry().lookup("AAPL"), Some(&1));
    assert_eq!(streamer.registry().len(), 1);
}
