//! The streaming engine: the life cycle of one session, from the
//! established connection over the subscription request to the routing of
//! every update.
//!
//! The engine performs no I/O. Its driver performs the [`Action`] that a
//! call returns and reports the outcome as the next [`Event`].

use crate::decoder::{decode, decoded, outcome, DecodeError};
use crate::quote::{quote_of, Quote, QuoteView};
use crate::record::{RawUpdate, RawUpdateView};
use crate::registry::{
    begins_with, callback_of, distinct, keys, lemma_keys_grow, lemma_new_symbol, lemma_position,
    names, position, subscribed, texts, Entries, SubscriptionRegistry,
};
use crate::request::{request_text, subscription_request, text_of};
use vstd::prelude::*;

verus! {

/// Phase of a session.
#[derive(Debug, Clone, Copy, PartialEq, Eq, Structural)]
pub enum State {
    /// No connection yet. An engine exists only once the connection does,
    /// so no engine is ever in this state.
    Idle,
    /// The connection is established and `run` has not been called.
    Connected,
    /// The subscription request is on its way.
    Subscribing,
    /// The request is sent; updates are received and routed.
    Listening,
    /// The session is over.
    Terminated,
}

/// What the engine does with a frame that cannot be decoded.
#[derive(Debug, Clone, Copy, PartialEq, Eq, Structural)]
pub enum DecodePolicy {
    /// The frame is reported and dropped; the session goes on.
    Skip,
    /// The session ends with the decoding error.
    Stop,
}

/// Why a session could not start or ended.
#[derive(Debug, Clone, Copy, PartialEq, Eq, Structural)]
pub enum StreamError {
    /// The connection could not be established.
    Connection,
    /// Sending or receiving failed.
    Transport,
    /// A frame could not be decoded, under [`DecodePolicy::Stop`].
    Decode(DecodeError),
    /// The subscription request could not be written.
    Request,
}

/// Outcome of the transport operation that the last action asked for.
#[derive(Debug, Clone, PartialEq, Eq)]
pub enum Event {
    /// The frame was sent.
    Sent,
    /// A frame arrived; these are its bytes.
    Frame(Vec<u8>),
    /// The remote endpoint closed the stream.
    Closed,
    /// The transport failed.
    Failed,
}

/// Mathematical value of an [`Event`].
pub enum EventView {
    Sent,
    Frame(Seq<u8>),
    Closed,
    Failed,
}

impl View for Event {
    type V = EventView;

    open spec fn view(&self) -> EventView {
        match self {
            Event::Sent => EventView::Sent,
            Event::Frame(bytes) => EventView::Frame(bytes@),
            Event::Closed => EventView::Closed,
            Event::Failed => EventView::Failed,
        }
    }
}

/// What the driver is to do next.
#[derive(Debug, PartialEq, Eq)]
pub enum Action {
    /// Send this text frame, then report `Sent` or `Failed`.
    Send(String),
    /// Wait for the next frame, then report `Frame`, `Closed` or `Failed`.
    Receive,
    /// Call the callback of the entry `subscription` with `quote`, then
    /// receive.
    Deliver { subscription: usize, quote: Quote },
    /// A frame could not be decoded and was dropped; receive.
    Discard(DecodeError),
    /// Stop: the session ended with this result.
    Finish(Result<(), StreamError>),
    /// The call did not fit the state of the session; nothing changed.
    Ignored,
}

/// Mathematical value of an [`Action`].
pub enum ActionView {
    Send(Seq<char>),
    Receive,
    Deliver { subscription: int, quote: QuoteView },
    Discard(DecodeError),
    Finish(Result<(), StreamError>),
    Ignored,
}

impl View for Action {
    type V = ActionView;

    open spec fn view(&self) -> ActionView {
        match self {
            Action::Send(text) => ActionView::Send(text@),
            Action::Receive => ActionView::Receive,
            Action::Deliver { subscription, quote } => ActionView::Deliver {
                subscription: *subscription as int,
                quote: quote@,
            },
            Action::Discard(e) => ActionView::Discard(*e),
            Action::Finish(result) => ActionView::Finish(*result),
            Action::Ignored => ActionView::Ignored,
        }
    }
}

/// Mathematical value of a [`Streamer`].
pub struct StreamerView<H> {
    /// Phase of the session.
    pub state: State,
    /// What happens to a frame that cannot be decoded.
    pub policy: DecodePolicy,
    /// The registry's entries, oldest first.
    pub entries: Entries<H>,
    /// The symbols of the subscription request, once it has been built.
    pub announced: Option<Seq<Seq<char>>>,
}

impl<H> StreamerView<H> {
    /// What holds of every engine: its entries are distinct; it is past
    /// `Idle`; it has announced nothing while `Connected` and something
    /// once it subscribes or listens; and what it announced are the
    /// symbols that were subscribed first.
    pub open spec fn valid(self) -> bool {
        &&& distinct(self.entries)
        &&& self.state != State::Idle
        &&& self.state == State::Connected ==> self.announced is None
        &&& (self.state == State::Subscribing || self.state == State::Listening)
            ==> self.announced is Some
        &&& self.announced matches Some(symbols) ==> begins_with(keys(self.entries), symbols)
    }

    /// An engine on a fresh connection.
    pub open spec fn fresh(policy: DecodePolicy) -> StreamerView<H> {
        StreamerView {
            state: State::Connected,
            policy,
            entries: Seq::empty(),
            announced: None,
        }
    }

    /// The engine after `symbols` are subscribed with `callback`: only the
    /// entries change.
    pub open spec fn subscribe(self, symbols: Seq<Seq<char>>, callback: H) -> StreamerView<H> {
        StreamerView { entries: subscribed(self.entries, symbols, callback), ..self }
    }

    /// The engine after it is started with `request`, and the action for
    /// that. From `Connected`, a request goes out and the symbols
    /// subscribed at that moment are recorded as announced; without a
    /// request the session ends. In any other state nothing happens.
    pub open spec fn start(self, request: Option<Seq<char>>) -> (StreamerView<H>, ActionView) {
        if self.state != State::Connected {
            (self, ActionView::Ignored)
        } else {
            match request {
                Some(text) => (
                    StreamerView {
                        state: State::Subscribing,
                        announced: Some(keys(self.entries)),
                        ..self
                    },
                    ActionView::Send(text),
                ),
                None => (
                    StreamerView { state: State::Terminated, ..self },
                    ActionView::Finish(Err(StreamError::Request)),
                ),
            }
        }
    }

    /// The engine after `run`, and the action that `run` returns: the
    /// session is started with the request for the symbols subscribed at
    /// that moment.
    pub open spec fn run(self) -> (StreamerView<H>, ActionView) {
        self.start(request_text(keys(self.entries)))
    }

    /// The engine after a frame has been decoded, and the action for it.
    /// An update goes to the entry of its symbol, or nowhere if the
    /// symbol has none; a frame that could not be decoded is dropped or
    /// ends the session, as the policy says.
    pub open spec fn deliver(self, decoded: Result<RawUpdateView, DecodeError>) -> (
        StreamerView<H>,
        ActionView,
    ) {
        if self.state != State::Listening {
            (self, ActionView::Ignored)
        } else {
            match decoded {
                Ok(update) => match position(self.entries, update.id) {
                    Some(i) => (
                        self,
                        ActionView::Deliver { subscription: i, quote: quote_of(update) },
                    ),
                    None => (self, ActionView::Receive),
                },
                Err(e) => match self.policy {
                    DecodePolicy::Skip => (self, ActionView::Discard(e)),
                    DecodePolicy::Stop => (
                        StreamerView { state: State::Terminated, ..self },
                        ActionView::Finish(Err(StreamError::Decode(e))),
                    ),
                },
            }
        }
    }

    /// The engine after `event`, and the action for it.
    pub open spec fn step(self, event: EventView) -> (StreamerView<H>, ActionView) {
        match (self.state, event) {
            (State::Subscribing, EventView::Sent) => (
                StreamerView { state: State::Listening, ..self },
                ActionView::Receive,
            ),
            (State::Subscribing, EventView::Failed) => (
                StreamerView { state: State::Terminated, ..self },
                ActionView::Finish(Err(StreamError::Transport)),
            ),
            (State::Listening, EventView::Frame(bytes)) => self.deliver(decoded(bytes)),
            (State::Listening, EventView::Closed) => (
                StreamerView { state: State::Terminated, ..self },
                ActionView::Finish(Ok(())),
            ),
            (State::Listening, EventView::Failed) => (
                StreamerView { state: State::Terminated, ..self },
                ActionView::Finish(Err(StreamError::Transport)),
            ),
            _ => (self, ActionView::Ignored),
        }
    }
}

/// Place of a state in the order in which a session passes through them.
pub open spec fn rank(state: State) -> nat {
    match state {
        State::Idle => 0,
        State::Connected => 1,
        State::Subscribing => 2,
        State::Listening => 3,
        State::Terminated => 4,
    }
}

/// The callbacks called for a run of decoded updates, each with the quote
/// it is called with, in the order of the calls.
pub open spec fn deliveries<H>(m: StreamerView<H>, updates: Seq<RawUpdateView>) -> Seq<
    (H, QuoteView),
>
    decreases updates.len(),
{
    if updates.len() == 0 {
        Seq::empty()
    } else {
        let front = deliveries(m, updates.drop_last());
        match m.deliver(Ok(updates.last())).1 {
            ActionView::Deliver { subscription, quote } => front.push(
                (m.entries[subscription].1, quote),
            ),
            _ => front,
        }
    }
}

/// Subscribing keeps an engine valid and in its state; the entries it had
/// stay where they were.
pub proof fn lemma_subscribe_valid<H>(m: StreamerView<H>, symbols: Seq<Seq<char>>, callback: H)
    requires
        m.valid(),
    ensures
        m.subscribe(symbols, callback).valid(),
        m.subscribe(symbols, callback).state == m.state,
        begins_with(m.subscribe(symbols, callback).entries, m.entries),
{
    lemma_keys_grow(m.entries, symbols, callback);
    if m.announced is Some {
        let announced = m.announced->0;
        let after = keys(subscribed(m.entries, symbols, callback));
        assert(after.take(announced.len() as int) =~= keys(m.entries).take(announced.len() as int));
    }
}

/// Every transition keeps an engine valid and moves it forward or leaves
/// it where it is; a session that is over stays over. No transition but
/// `subscribe` touches the registry.
pub proof fn lemma_transitions<H>(
    m: StreamerView<H>,
    request: Option<Seq<char>>,
    event: EventView,
    decoded: Result<RawUpdateView, DecodeError>,
)
    requires
        m.valid(),
    ensures
        m.start(request).0.valid(),
        m.run().0.valid(),
        m.deliver(decoded).0.valid(),
        m.step(event).0.valid(),
        rank(m.state) <= rank(m.start(request).0.state),
        rank(m.state) <= rank(m.run().0.state),
        rank(m.state) <= rank(m.deliver(decoded).0.state),
        rank(m.state) <= rank(m.step(event).0.state),
        m.start(request).0.entries == m.entries,
        m.run().0.entries == m.entries,
        m.deliver(decoded).0.entries == m.entries,
        m.step(event).0.entries == m.entries,
{
    assert(keys(m.entries).take(keys(m.entries).len() as int) =~= keys(m.entries));
}

/// Snapshot isolation: once the request has been built, the symbols it
/// announced are fixed. A symbol that is subscribed afterwards for the
/// first time is registered but is not among them: neither `subscribe` nor
/// any later call changes the snapshot, and no later call sends a request
/// again.
pub proof fn lemma_snapshot_fixed<H>(
    m: StreamerView<H>,
    symbols: Seq<Seq<char>>,
    callback: H,
    event: EventView,
    symbol: Seq<char>,
)
    requires
        m.valid(),
        m.announced is Some,
        position(m.entries, symbol) is None,
        symbols.contains(symbol),
    ensures
        callback_of(m.subscribe(symbols, callback).entries, symbol) == Some(callback),
        m.subscribe(symbols, callback).announced == m.announced,
        !(m.announced->0.contains(symbol)),
        m.subscribe(symbols, callback).run() == (
            m.subscribe(symbols, callback),
            ActionView::Ignored,
        ),
        m.subscribe(symbols, callback).step(event).0.announced == m.announced,
        !(m.subscribe(symbols, callback).step(event).1 is Send),
{
    lemma_new_symbol(m.entries, symbols, callback, symbol);
    lemma_position(m.entries, symbol);
    let announced = m.announced->0;
    if announced.contains(symbol) {
        let k = choose|k: int| 0 <= k < announced.len() && announced[k] == symbol;
        assert(keys(m.entries).take(announced.len() as int)[k] == keys(m.entries)[k]);
        assert(m.entries[k].0 == symbol);
    }
}

/// What a request announces: the symbols subscribed at the moment of
/// `run`, in the order in which they were subscribed, and only those.
pub proof fn lemma_request_snapshot<H>(m: StreamerView<H>)
    requires
        m.valid(),
        m.state == State::Connected,
    ensures
        match m.run().1 {
            ActionView::Send(text) => Some(text) == request_text(keys(m.entries))
                && m.run().0.announced == Some(keys(m.entries)) && m.run().0.state
                == State::Subscribing,
            action => action == ActionView::Finish(Err(StreamError::Request))
                && request_text(keys(m.entries)) is None && m.run().0.state == State::Terminated,
        },
{
}

/// Malformed input: a frame that cannot be decoded never reaches a
/// callback. Under `Skip` it is reported and the session goes on
/// unchanged; under `Stop` the session ends with the decoding error.
pub proof fn lemma_malformed_frame<H>(m: StreamerView<H>, frame: Seq<u8>)
    requires
        m.valid(),
        m.state == State::Listening,
        decoded(frame) is Err,
    ensures
        !(m.step(EventView::Frame(frame)).1 is Deliver),
        m.policy == DecodePolicy::Skip ==> m.step(EventView::Frame(frame)) == (
            m,
            ActionView::Discard(decoded(frame)->Err_0),
        ),
        m.policy == DecodePolicy::Stop ==> m.step(EventView::Frame(frame)) == (
            StreamerView { state: State::Terminated, ..m },
            ActionView::Finish(Err(StreamError::Decode(decoded(frame)->Err_0))),
        ),
{
}

/// Dispatch: while listening, the calls made for a run of decoded updates
/// are those for the updates whose symbol is subscribed, in the order of
/// arrival, each to the callback of its symbol and with the quote of the
/// update. An update whose symbol is not subscribed causes no call.
pub proof fn lemma_dispatch_in_order<H>(m: StreamerView<H>, updates: Seq<RawUpdateView>)
    requires
        m.valid(),
        m.state == State::Listening,
    ensures
        deliveries(m, updates) == updates.filter(
            |u: RawUpdateView| callback_of(m.entries, u.id) is Some,
        ).map_values(|u: RawUpdateView| (callback_of(m.entries, u.id)->0, quote_of(u))),
    decreases updates.len(),
{
    let wanted = |u: RawUpdateView| callback_of(m.entries, u.id) is Some;
    let call = |u: RawUpdateView| (callback_of(m.entries, u.id)->0, quote_of(u));
    reveal(Seq::filter);
    if updates.len() > 0 {
        let front = updates.drop_last();
        let last = updates.last();
        lemma_dispatch_in_order(m, front);
        if wanted(last) {
            assert(updates.filter(wanted) == front.filter(wanted).push(last));
            assert(front.filter(wanted).push(last).map_values(call) =~= front.filter(
                wanted,
            ).map_values(call).push(call(last)));
        } else {
            assert(updates.filter(wanted) == front.filter(wanted));
        }
    } else {
        assert(updates.filter(wanted).map_values(call) =~= Seq::<(H, QuoteView)>::empty());
    }
}

/// The engine of one streaming session. `H` is the type of the callbacks.
pub struct Streamer<H> {
    state: State,
    policy: DecodePolicy,
    registry: SubscriptionRegistry<H>,
    announced: Option<Vec<String>>,
}

impl<H> View for Streamer<H> {
    type V = StreamerView<H>;

    closed spec fn view(&self) -> StreamerView<H> {
        StreamerView {
            state: self.state,
            policy: self.policy,
            entries: self.registry@,
            announced: match self.announced {
                Some(symbols) => Some(texts(symbols@)),
                None => None,
            },
        }
    }
}

impl<H> Streamer<H> {
    /// The registry is well formed and the engine's value is valid.
    pub closed spec fn wf(&self) -> bool {
        self.registry.wf() && self@.valid()
    }

    /// The value of a well-formed engine is valid.
    pub proof fn lemma_valid(&self)
        requires
            self.wf(),
        ensures
            self@.valid(),
    {
    }

    /// Builds the engine for a connection attempt that has been made.
    /// Without a connection there is no engine.
    pub fn new(connected: bool, policy: DecodePolicy) -> (r: Result<Self, StreamError>)
        ensures
            match r {
                Ok(streamer) => connected && streamer.wf() && streamer@ == StreamerView::<
                    H,
                >::fresh(policy),
                Err(e) => !connected && e == StreamError::Connection,
            },
    {
        if connected {
            Ok(
                Streamer {
                    state: State::Connected,
                    policy,
                    registry: SubscriptionRegistry::new(),
                    announced: None,
                },
            )
        } else {
            Err(StreamError::Connection)
        }
    }

    /// Phase of the session.
    pub fn state(&self) -> (s: State)
        ensures
            s == self@.state,
    {
        self.state
    }

    /// What the engine does with a frame that cannot be decoded.
    pub fn policy(&self) -> (p: DecodePolicy)
        ensures
            p == self@.policy,
    {
        self.policy
    }

    /// The symbols of the subscription request, once it has been built.
    /// Symbols subscribed later are not among them.
    pub fn announced(&self) -> (r: Option<&Vec<String>>)
        ensures
            match r {
                Some(symbols) => self@.announced == Some(texts(symbols@)),
                None => self@.announced is None,
            },
    {
        self.announced.as_ref()
    }

    /// The registry of the engine.
    pub fn registry(&self) -> (r: &SubscriptionRegistry<H>)
        requires
            self.wf(),
        ensures
            r.wf(),
            r@ == self@.entries,
    {
        &self.registry
    }

    /// The callback of the entry `subscription`, as an action names it.
    pub fn callback(&self, subscription: usize) -> (h: &H)
        requires
            self.wf(),
            subscription < self@.entries.len(),
        ensures
            *h == self@.entries[subscription as int].1,
    {
        self.registry.callback(subscription)
    }

    /// Registers `callback` for each of `symbols` that is not subscribed
    /// yet. This may be done in any state; it neither moves the session
    /// on nor touches a request that has been built.
    pub fn subscribe(&mut self, symbols: Vec<&str>, callback: H)
        requires
            old(self).wf(),
        ensures
            final(self).wf(),
            final(self)@ == old(self)@.subscribe(names(symbols@), callback),
    {
        proof {
            lemma_subscribe_valid(self@, names(symbols@), callback);
        }
        self.registry.subscribe(symbols, callback);
    }

    /// Leaves `Connected` with `request` and the symbols it was built for.
    fn begin(&mut self, symbols: Vec<String>, request: Option<String>) -> (action: Action)
        requires
            old(self).wf(),
            texts(symbols@) == keys(old(self)@.entries),
        ensures
            final(self).wf(),
            (final(self)@, action@) == old(self)@.start(text_of(request)),
    {
        match self.state {
            State::Connected => match request {
                Some(text) => {
                    assert(keys(self@.entries).take(keys(self@.entries).len() as int) =~= keys(
                        self@.entries,
                    ));
                    self.state = State::Subscribing;
                    self.announced = Some(symbols);
                    Action::Send(text)
                },
                None => {
                    self.state = State::Terminated;
                    Action::Finish(Err(StreamError::Request))
                },
            },
            _ => Action::Ignored,
        }
    }

    /// Starts the session with a request that has been built: `request`
    /// is handed out to be sent, and the symbols subscribed now are
    /// recorded as announced. Without a request the session ends.
    pub fn start(&mut self, request: Option<String>) -> (action: Action)
        requires
            old(self).wf(),
        ensures
            final(self).wf(),
            (final(self)@, action@) == old(self)@.start(text_of(request)),
    {
        let symbols = self.registry.snapshot_keys();
        self.begin(symbols, request)
    }

    /// Starts the session: builds the request for the symbols subscribed
    /// now and hands it out to be sent. Symbols subscribed later are not
    /// announced.
    pub fn run(&mut self) -> (action: Action)
        requires
            old(self).wf(),
        ensures
            final(self).wf(),
            (final(self)@, action@) == old(self)@.run(),
    {
        let symbols = self.registry.snapshot_keys();
        let request = match self.state {
            State::Connected => subscription_request(&symbols),
            _ => None,
        };
        self.begin(symbols, request)
    }

    /// Routes one decoded frame.
    pub fn deliver(&mut self, decoded: Result<RawUpdate, DecodeError>) -> (action: Action)
        requires
            old(self).wf(),
        ensures
            final(self).wf(),
            (final(self)@, action@) == old(self)@.deliver(outcome(decoded)),
            action matches Action::Deliver { subscription, .. } ==> subscription
                < final(self)@.entries.len(),
    {
        proof {
            if decoded is Ok {
                lemma_position(self@.entries, decoded->Ok_0@.id);
            }
        }
        match self.state {
            State::Listening => match decoded {
                Ok(update) => match self.registry.find(&update.id) {
                    Some(i) => Action::Deliver { subscription: i, quote: Quote::from_update(update) },
                    None => Action::Receive,
                },
                Err(e) => match self.policy {
                    DecodePolicy::Skip => Action::Discard(e),
                    DecodePolicy::Stop => {
                        self.state = State::Terminated;
                        Action::Finish(Err(StreamError::Decode(e)))
                    },
                },
            },
            _ => Action::Ignored,
        }
    }

    /// Takes the outcome of the last action and answers with the next
    /// one.
    pub fn handle(&mut self, event: Event) -> (action: Action)
        requires
            old(self).wf(),
        ensures
            final(self).wf(),
            (final(self)@, action@) == old(self)@.step(event@),
            action matches Action::Deliver { subscription, .. } ==> subscription
                < final(self)@.entries.len(),
    {
        match self.state {
            State::Subscribing => match event {
                Event::Sent => {
                    self.state = State::Listening;
                    Action::Receive
                },
                Event::Failed => {
                    self.state = State::Terminated;
                    Action::Finish(Err(StreamError::Transport))
                },
                _ => Action::Ignored,
            },
            State::Listening => match event {
                Event::Frame(bytes) => {
                    let decoded = decode(bytes.as_slice());
                    self.deliver(decoded)
                },
                Event::Closed => {
                    self.state = State::Terminated;
                    Action::Finish(Ok(()))
                },
                Event::Failed => {
                    self.state = State::Terminated;
                    Action::Finish(Err(StreamError::Transport))
                },
                _ => Action::Ignored,
            },
            _ => Action::Ignored,
        }
    }
}

} // verus!
