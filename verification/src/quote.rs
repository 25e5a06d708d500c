//! The quote handed to callbacks, and the classification of the codes that
//! an update carries on the wire.

use crate::record::{RawUpdate, RawUpdateView};
use vstd::prelude::*;

verus! {

/// Kind of instrument a quote is about.
#[derive(Debug, Clone, Copy, PartialEq, Eq, Structural)]
pub enum QuoteType {
    /// No classification, or a code this library does not know.
    Unclassified,
    AltSymbol,
    HeartBeat,
    Equity,
    Index,
    MutualFund,
    MoneyMarket,
    OptionContract,
    Currency,
    Warrant,
    Bond,
    Future,
    Etf,
    Commodity,
    EcnQuote,
    CryptoCurrency,
    Indicator,
    Industry,
}

/// Trading session in which a quote was made.
#[derive(Debug, Clone, Copy, PartialEq, Eq, Structural)]
pub enum TradingSession {
    PreMarket,
    Regular,
    AfterHours,
    /// Extended hours, or a code this library does not know.
    Other,
}

/// The kind of instrument that a classification code stands for.
pub open spec fn quote_type_of(code: i32) -> QuoteType {
    if code == 5 {
        QuoteType::AltSymbol
    } else if code == 7 {
        QuoteType::HeartBeat
    } else if code == 8 {
        QuoteType::Equity
    } else if code == 9 {
        QuoteType::Index
    } else if code == 11 {
        QuoteType::MutualFund
    } else if code == 12 {
        QuoteType::MoneyMarket
    } else if code == 13 {
        QuoteType::OptionContract
    } else if code == 14 {
        QuoteType::Currency
    } else if code == 15 {
        QuoteType::Warrant
    } else if code == 17 {
        QuoteType::Bond
    } else if code == 18 {
        QuoteType::Future
    } else if code == 20 {
        QuoteType::Etf
    } else if code == 23 {
        QuoteType::Commodity
    } else if code == 28 {
        QuoteType::EcnQuote
    } else if code == 41 {
        QuoteType::CryptoCurrency
    } else if code == 42 {
        QuoteType::Indicator
    } else if code == 1000 {
        QuoteType::Industry
    } else {
        QuoteType::Unclassified
    }
}

/// The trading session that a session code stands for.
pub open spec fn session_of(code: i32) -> TradingSession {
    if code == 0 {
        TradingSession::PreMarket
    } else if code == 1 {
        TradingSession::Regular
    } else if code == 2 {
        TradingSession::AfterHours
    } else {
        TradingSession::Other
    }
}

impl QuoteType {
    /// Classifies a code from the wire.
    pub fn from_code(code: i32) -> (r: QuoteType)
        ensures
            r == quote_type_of(code),
    {
        match code {
            5 => QuoteType::AltSymbol,
            7 => QuoteType::HeartBeat,
            8 => QuoteType::Equity,
            9 => QuoteType::Index,
            11 => QuoteType::MutualFund,
            12 => QuoteType::MoneyMarket,
            13 => QuoteType::OptionContract,
            14 => QuoteType::Currency,
            15 => QuoteType::Warrant,
            17 => QuoteType::Bond,
            18 => QuoteType::Future,
            20 => QuoteType::Etf,
            23 => QuoteType::Commodity,
            28 => QuoteType::EcnQuote,
            41 => QuoteType::CryptoCurrency,
            42 => QuoteType::Indicator,
            1000 => QuoteType::Industry,
            _ => QuoteType::Unclassified,
        }
    }
}

impl TradingSession {
    /// Classifies a code from the wire.
    pub fn from_code(code: i32) -> (r: TradingSession)
        ensures
            r == session_of(code),
    {
        match code {
            0 => TradingSession::PreMarket,
            1 => TradingSession::Regular,
            2 => TradingSession::AfterHours,
            _ => TradingSession::Other,
        }
    }
}

/// One price update, as callbacks receive it.
#[derive(Debug, Clone, PartialEq, Eq)]
pub struct Quote {
    /// Symbol the quote is about.
    pub symbol: String,
    /// Kind of instrument.
    pub quote_type: QuoteType,
    /// Time of the quote, in seconds since the epoch, UTC.
    pub timestamp: i64,
    /// Trading session in which the quote was made.
    pub session: TradingSession,
    /// Bit pattern of the price, an IEEE 754 single-precision number.
    pub price_bits: u32,
    /// Cumulative volume of the day.
    pub volume: i64,
}

/// Mathematical value of a [`Quote`].
pub struct QuoteView {
    pub symbol: Seq<char>,
    pub quote_type: QuoteType,
    pub timestamp: i64,
    pub session: TradingSession,
    pub price_bits: u32,
    pub volume: i64,
}

impl View for Quote {
    type V = QuoteView;

    open spec fn view(&self) -> QuoteView {
        QuoteView {
            symbol: self.symbol@,
            quote_type: self.quote_type,
            timestamp: self.timestamp,
            session: self.session,
            price_bits: self.price_bits,
            volume: self.volume,
        }
    }
}

/// The quote that an update becomes: its codes are classified and the
/// other fields are carried over.
pub open spec fn quote_of(update: RawUpdateView) -> QuoteView {
    QuoteView {
        symbol: update.id,
        quote_type: quote_type_of(update.quote_type),
        timestamp: update.time,
        session: session_of(update.market_hours),
        price_bits: update.price_bits,
        volume: update.day_volume,
    }
}

impl Quote {
    /// Builds the quote for an update.
    pub fn from_update(update: RawUpdate) -> (q: Quote)
        ensures
            q@ == quote_of(update@),
    {
        Quote {
            symbol: update.id,
            quote_type: QuoteType::from_code(update.quote_type),
            timestamp: update.time,
            session: TradingSession::from_code(update.market_hours),
            price_bits: update.price_bits,
            volume: update.day_volume,
        }
    }
}

} // verus!
