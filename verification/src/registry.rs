//! The subscription registry: which callback is registered for which
//! symbol.
//!
//! The registry is modelled as the sequence of its entries, each a symbol
//! with its callback, in the order in which the symbols were first
//! subscribed. No symbol occurs twice, and no entry is ever removed or
//! replaced.
//!
//! A registry is a plain value. Where subscriptions are made while updates
//! are routed, the caller puts it behind a reader/writer lock: `subscribe`
//! takes the registry exclusively, lookups and snapshots share it.

use vstd::prelude::*;

verus! {

/// The entries of a registry: symbol and callback, oldest first.
pub type Entries<H> = Seq<(Seq<char>, H)>;

/// Index of the entry for `symbol`, if there is one.
pub open spec fn position<H>(entries: Entries<H>, symbol: Seq<char>) -> Option<int>
    decreases entries.len(),
{
    if entries.len() == 0 {
        None
    } else {
        match position(entries.drop_last(), symbol) {
            Some(i) => Some(i),
            None => if entries.last().0 == symbol {
                Some(entries.len() - 1)
            } else {
                None
            },
        }
    }
}

/// The callback registered for `symbol`, if there is one.
pub open spec fn callback_of<H>(entries: Entries<H>, symbol: Seq<char>) -> Option<H> {
    match position(entries, symbol) {
        Some(i) => Some(entries[i].1),
        None => None,
    }
}

/// No symbol has two entries.
pub open spec fn distinct<H>(entries: Entries<H>) -> bool {
    forall|i: int, j: int|
        0 <= i < j < entries.len() ==> (#[trigger] entries[i]).0 != (#[trigger] entries[j]).0
}

/// The symbols of the entries, oldest first.
pub open spec fn keys<H>(entries: Entries<H>) -> Seq<Seq<char>> {
    Seq::new(entries.len(), |i: int| entries[i].0)
}

/// `front` is how `whole` begins.
pub open spec fn begins_with<A>(whole: Seq<A>, front: Seq<A>) -> bool {
    front.len() <= whole.len() && whole.take(front.len() as int) == front
}

/// The entries after `symbol` is subscribed with `callback`: a symbol that
/// has an entry keeps it, a new one is added at the end.
pub open spec fn with_symbol<H>(entries: Entries<H>, symbol: Seq<char>, callback: H) -> Entries<H> {
    if position(entries, symbol) is Some {
        entries
    } else {
        entries.push((symbol, callback))
    }
}

/// The entries after `symbols` are subscribed with `callback`, one after
/// the other.
pub open spec fn subscribed<H>(entries: Entries<H>, symbols: Seq<Seq<char>>, callback: H)
    -> Entries<H>
    decreases symbols.len(),
{
    if symbols.len() == 0 {
        entries
    } else {
        with_symbol(subscribed(entries, symbols.drop_last(), callback), symbols.last(), callback)
    }
}

/// The views of a list of symbols.
pub open spec fn names(symbols: Seq<&str>) -> Seq<Seq<char>> {
    Seq::new(symbols.len(), |i: int| symbols[i]@)
}

/// The views of a list of owned symbols.
pub open spec fn texts(symbols: Seq<String>) -> Seq<Seq<char>> {
    Seq::new(symbols.len(), |i: int| symbols[i]@)
}

/// An index found by an executable search, as the spec functions give it.
pub open spec fn reached_index(r: Option<usize>) -> Option<int> {
    match r {
        Some(i) => Some(i as int),
        None => None,
    }
}

/// `position` finds an entry of the symbol, the first one, and finds none
/// only where there is none.
pub proof fn lemma_position<H>(entries: Entries<H>, symbol: Seq<char>)
    ensures
        match position(entries, symbol) {
            Some(i) => 0 <= i < entries.len() && entries[i].0 == symbol && forall|j: int|
                0 <= j < i ==> (#[trigger] entries[j]).0 != symbol,
            None => forall|j: int| 0 <= j < entries.len() ==> (#[trigger] entries[j]).0 != symbol,
        },
    decreases entries.len(),
{
    if entries.len() > 0 {
        let front = entries.drop_last();
        lemma_position(front, symbol);
        assert forall|j: int| 0 <= j < front.len() implies #[trigger] entries[j] == front[j] by {}
        match position(front, symbol) {
            Some(i) => {
                assert forall|j: int| 0 <= j < i implies (#[trigger] entries[j]).0 != symbol by {
                    assert(front[j].0 != symbol);
                }
            },
            None => {
                assert forall|j: int| 0 <= j < front.len() implies (#[trigger] entries[j]).0
                    != symbol by {
                    assert(front[j].0 != symbol);
                }
            },
        }
    }
}

/// Subscribing a symbol keeps every entry where it was, keeps the entries
/// distinct, and leaves the symbol with an entry.
pub proof fn lemma_with_symbol<H>(entries: Entries<H>, symbol: Seq<char>, callback: H)
    requires
        distinct(entries),
    ensures
        distinct(with_symbol(entries, symbol, callback)),
        entries.len() <= with_symbol(entries, symbol, callback).len() <= entries.len() + 1,
        forall|i: int|
            0 <= i < entries.len() ==> #[trigger] with_symbol(entries, symbol, callback)[i]
                == entries[i],
        position(with_symbol(entries, symbol, callback), symbol) is Some,
        forall|other: Seq<char>|
            position(entries, other) is Some ==> #[trigger] position(
                with_symbol(entries, symbol, callback),
                other,
            ) == position(entries, other),
{
    let after = with_symbol(entries, symbol, callback);
    lemma_position(entries, symbol);
    if position(entries, symbol) is None {
        assert(after.drop_last() == entries);
        assert forall|other: Seq<char>| position(entries, other) is Some implies #[trigger] position(
            after,
            other,
        ) == position(entries, other) by {}
    }
}

/// Subscribing a list of symbols keeps every entry where it was and keeps
/// the entries distinct.
pub proof fn lemma_subscribed<H>(entries: Entries<H>, symbols: Seq<Seq<char>>, callback: H)
    requires
        distinct(entries),
    ensures
        distinct(subscribed(entries, symbols, callback)),
        entries.len() <= subscribed(entries, symbols, callback).len(),
        forall|i: int|
            0 <= i < entries.len() ==> #[trigger] subscribed(entries, symbols, callback)[i]
                == entries[i],
        forall|other: Seq<char>|
            position(entries, other) is Some ==> #[trigger] position(
                subscribed(entries, symbols, callback),
                other,
            ) == position(entries, other),
        forall|k: int|
            0 <= k < symbols.len() ==> position(
                subscribed(entries, symbols, callback),
                #[trigger] symbols[k],
            ) is Some,
    decreases symbols.len(),
{
    if symbols.len() > 0 {
        let before = subscribed(entries, symbols.drop_last(), callback);
        lemma_subscribed(entries, symbols.drop_last(), callback);
        lemma_with_symbol(before, symbols.last(), callback);
        let after = subscribed(entries, symbols, callback);
        assert forall|k: int| 0 <= k < symbols.len() implies position(
            after,
            #[trigger] symbols[k],
        ) is Some by {
            if k < symbols.len() - 1 {
                assert(symbols[k] == symbols.drop_last()[k]);
            }
        }
    }
}

/// Subscribing adds entries at the end: the entries, and so the symbols,
/// begin as they did before.
pub proof fn lemma_keys_grow<H>(entries: Entries<H>, symbols: Seq<Seq<char>>, callback: H)
    requires
        distinct(entries),
    ensures
        distinct(subscribed(entries, symbols, callback)),
        begins_with(subscribed(entries, symbols, callback), entries),
        begins_with(keys(subscribed(entries, symbols, callback)), keys(entries)),
{
    let after = subscribed(entries, symbols, callback);
    lemma_subscribed(entries, symbols, callback);
    assert(after.take(entries.len() as int) =~= entries);
    assert(keys(after).take(keys(entries).len() as int) =~= keys(entries));
}

/// Subscribing symbols that all have an entry changes nothing, whatever
/// the callback.
pub proof fn lemma_subscribed_present<H>(entries: Entries<H>, symbols: Seq<Seq<char>>, callback: H)
    requires
        forall|k: int| 0 <= k < symbols.len() ==> position(entries, #[trigger] symbols[k]) is Some,
    ensures
        subscribed(entries, symbols, callback) == entries,
    decreases symbols.len(),
{
    if symbols.len() > 0 {
        assert forall|k: int| 0 <= k < symbols.drop_last().len() implies position(
            entries,
            #[trigger] symbols.drop_last()[k],
        ) is Some by {
            assert(symbols.drop_last()[k] == symbols[k]);
        }
        lemma_subscribed_present(entries, symbols.drop_last(), callback);
        assert(symbols.last() == symbols[symbols.len() - 1]);
    }
}

/// A symbol without an entry gets `callback` exactly when it is among the
/// symbols subscribed.
pub proof fn lemma_new_symbol<H>(
    entries: Entries<H>,
    symbols: Seq<Seq<char>>,
    callback: H,
    symbol: Seq<char>,
)
    requires
        distinct(entries),
        position(entries, symbol) is None,
    ensures
        symbols.contains(symbol) ==> callback_of(subscribed(entries, symbols, callback), symbol)
            == Some(callback),
        !symbols.contains(symbol) ==> callback_of(subscribed(entries, symbols, callback), symbol)
            is None,
    decreases symbols.len(),
{
    if symbols.len() > 0 {
        let front = symbols.drop_last();
        let before = subscribed(entries, front, callback);
        let after = subscribed(entries, symbols, callback);
        lemma_new_symbol(entries, front, callback, symbol);
        lemma_subscribed(entries, front, callback);
        lemma_with_symbol(before, symbols.last(), callback);
        lemma_position(before, symbol);
        lemma_position(before, symbols.last());
        lemma_position(after, symbol);
        assert(symbols.last() == symbols[symbols.len() - 1]);
        assert forall|k: int| 0 <= k < front.len() implies front[k] == symbols[k] by {}
        if front.contains(symbol) {
            let k = choose|k: int| 0 <= k < front.len() && front[k] == symbol;
            assert(symbols[k] == symbol);
        } else if symbols.last() == symbol {
            assert(after == before.push((symbol, callback)));
            assert(after.drop_last() == before);
        } else {
            if symbols.contains(symbol) {
                let k = choose|k: int| 0 <= k < symbols.len() && symbols[k] == symbol;
                assert(front[k] == symbol);
            }
            if position(before, symbols.last()) is None {
                assert(after.drop_last() == before);
            }
        }
    }
}

/// Uniqueness: a symbol that has been subscribed keeps the callback it was
/// first registered with. Subscribing it again, with whatever callback and
/// among whatever other symbols, does not replace it.
pub proof fn lemma_first_callback_kept<H>(
    entries: Entries<H>,
    first: Seq<Seq<char>>,
    c1: H,
    second: Seq<Seq<char>>,
    c2: H,
    symbol: Seq<char>,
)
    requires
        distinct(entries),
        first.contains(symbol),
    ensures
        callback_of(subscribed(subscribed(entries, first, c1), second, c2), symbol) == callback_of(
            subscribed(entries, first, c1),
            symbol,
        ),
        callback_of(subscribed(entries, first, c1), symbol) == if position(entries, symbol)
            is Some {
            callback_of(entries, symbol)
        } else {
            Some(c1)
        },
{
    let once = subscribed(entries, first, c1);
    let twice = subscribed(once, second, c2);
    lemma_subscribed(entries, first, c1);
    lemma_subscribed(once, second, c2);
    let k = choose|k: int| 0 <= k < first.len() && first[k] == symbol;
    assert(position(once, first[k]) is Some);
    lemma_position(once, symbol);
    lemma_position(entries, symbol);
    if position(entries, symbol) is None {
        lemma_new_symbol(entries, first, c1, symbol);
    }
}

/// Idempotence: subscribing the same symbols a second time leaves the
/// registry as it is, and so its size, whether the callback is the same or
/// another.
pub proof fn lemma_subscribe_idempotent<H>(
    entries: Entries<H>,
    symbols: Seq<Seq<char>>,
    callback: H,
    again: H,
)
    requires
        distinct(entries),
    ensures
        subscribed(subscribed(entries, symbols, callback), symbols, again) == subscribed(
            entries,
            symbols,
            callback,
        ),
{
    lemma_subscribed(entries, symbols, callback);
    lemma_subscribed_present(subscribed(entries, symbols, callback), symbols, again);
}

/// The callbacks registered for symbols.
pub struct SubscriptionRegistry<H> {
    /// Subscribed symbols, oldest first.
    symbols: Vec<String>,
    /// For each symbol, the index of its callback in `handlers`.
    targets: Vec<usize>,
    /// Callbacks, each stored once however many symbols share it.
    handlers: Vec<H>,
}

impl<H> View for SubscriptionRegistry<H> {
    type V = Entries<H>;

    closed spec fn view(&self) -> Entries<H> {
        Seq::new(
            self.symbols@.len(),
            |i: int| (self.symbols@[i]@, self.handlers@[self.targets@[i] as int]),
        )
    }
}

impl<H> SubscriptionRegistry<H> {
    /// Every symbol has its callback, and no symbol has two entries.
    pub closed spec fn wf(&self) -> bool {
        &&& self.symbols@.len() == self.targets@.len()
        &&& forall|i: int|
            0 <= i < self.targets@.len() ==> #[trigger] self.targets@[i] < self.handlers@.len()
        &&& distinct(self@)
    }

    /// Symbols are unique keys: a well-formed registry holds no symbol
    /// twice.
    pub proof fn lemma_distinct(&self)
        requires
            self.wf(),
        ensures
            distinct(self@),
    {
    }

    /// A registry without entries.
    pub fn new() -> (r: Self)
        ensures
            r.wf(),
            r@ == Seq::<(Seq<char>, H)>::empty(),
    {
        SubscriptionRegistry { symbols: Vec::new(), targets: Vec::new(), handlers: Vec::new() }
    }

    /// Number of subscribed symbols.
    pub fn len(&self) -> (n: usize)
        requires
            self.wf(),
        ensures
            n == self@.len(),
    {
        self.symbols.len()
    }

    /// Index of the entry for `symbol`.
    pub(crate) fn find(&self, symbol: &String) -> (r: Option<usize>)
        requires
            self.wf(),
        ensures
            reached_index(r) == position(self@, symbol@),
    {
        let mut i: usize = 0;
        while i < self.symbols.len()
            invariant
                self.wf(),
                i <= self.symbols@.len(),
                forall|j: int| 0 <= j < i ==> (#[trigger] self@[j]).0 != symbol@,
            decreases self.symbols@.len() - i,
        {
            if self.symbols[i] == *symbol {
                proof {
                    lemma_position(self@, symbol@);
                    assert(self@[i as int].0 == symbol@);
                }
                return Some(i);
            }
            i = i + 1;
        }
        proof {
            lemma_position(self@, symbol@);
        }
        None
    }

    /// Index of the entry for `symbol`, if it is subscribed.
    pub fn index_of(&self, symbol: &str) -> (r: Option<usize>)
        requires
            self.wf(),
        ensures
            reached_index(r) == position(self@, symbol@),
    {
        let owned = symbol.to_owned();
        self.find(&owned)
    }

    /// The callback of the entry at `index`.
    pub fn callback(&self, index: usize) -> (h: &H)
        requires
            self.wf(),
            index < self@.len(),
        ensures
            *h == self@[index as int].1,
    {
        &self.handlers[self.targets[index]]
    }

    /// The callback registered for `symbol`, if it is subscribed.
    pub fn lookup(&self, symbol: &str) -> (r: Option<&H>)
        requires
            self.wf(),
        ensures
            match r {
                Some(h) => callback_of(self@, symbol@) == Some(*h),
                None => callback_of(self@, symbol@) is None,
            },
    {
        proof {
            lemma_position(self@, symbol@);
        }
        match self.index_of(symbol) {
            Some(i) => Some(self.callback(i)),
            None => None,
        }
    }

    /// The subscribed symbols, oldest first.
    pub fn snapshot_keys(&self) -> (r: Vec<String>)
        requires
            self.wf(),
        ensures
            texts(r@) == keys(self@),
    {
        let mut out: Vec<String> = Vec::new();
        let mut i: usize = 0;
        while i < self.symbols.len()
            invariant
                i <= self.symbols@.len(),
                out@.len() == i,
                forall|j: int| 0 <= j < i ==> (#[trigger] out@[j])@ == self.symbols@[j]@,
            decreases self.symbols@.len() - i,
        {
            out.push(self.symbols[i].clone());
            i = i + 1;
        }
        assert(texts(out@) =~= keys(self@));
        out
    }

    /// Registers `callback` for each of `symbols` that is not subscribed
    /// yet. A symbol that is subscribed keeps the callback it has.
    pub fn subscribe(&mut self, symbols: Vec<&str>, callback: H)
        requires
            old(self).wf(),
        ensures
            final(self).wf(),
            final(self)@ == subscribed(old(self)@, names(symbols@), callback),
    {
        let ghost start = self@;
        let ghost start_symbols = self.symbols@;
        let ghost start_targets = self.targets@;
        let ghost start_handlers = self.handlers@;
        let ghost wanted = names(symbols@);
        let h: usize = self.handlers.len();
        self.handlers.push(callback);
        assert(self@ =~= start);
        let mut used = false;
        let mut i: usize = 0;
        while i < symbols.len()
            invariant
                self.wf(),
                i <= symbols@.len(),
                wanted == names(symbols@),
                h == start_handlers.len(),
                self.handlers@ == start_handlers.push(callback),
                self@ == subscribed(start, wanted.take(i as int), callback),
                !used ==> self.symbols@ == start_symbols && self.targets@ == start_targets,
            decreases symbols@.len() - i,
        {
            let owned = symbols[i].to_owned();
            let ghost before = self@;
            proof {
                assert(wanted.take(i as int + 1).drop_last() =~= wanted.take(i as int));
                assert(wanted.take(i as int + 1).last() == owned@);
                lemma_with_symbol(before, owned@, callback);
            }
            match self.find(&owned) {
                Some(_) => {},
                None => {
                    self.symbols.push(owned);
                    self.targets.push(h);
                    used = true;
                    assert(self@ =~= before.push((owned@, callback)));
                },
            }
            i = i + 1;
        }
        assert(wanted.take(symbols@.len() as int) =~= wanted);
        if !used {
            self.handlers.pop();
            assert(self@ =~= start);
        }
    }
}

} // verus!
