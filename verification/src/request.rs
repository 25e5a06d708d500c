//! The subscription request: the one text frame that tells the remote
//! endpoint which symbols to watch.
//!
//! The request is a JSON object with the single key `subscribe`, whose
//! value is the array of the symbols, each written as a JSON string.

use crate::registry::texts;
use vstd::prelude::*;
use vstd::string::StringExecFns;

verus! {

/// What `serde_json::to_string` makes of a string: the JSON string literal
/// for it, quotes and escapes included, or `None` where it reports an
/// error.
pub uninterp spec fn json_string(text: Seq<char>) -> Option<Seq<char>>;

/// The characters held by `r`.
pub open spec fn text_of(r: Option<String>) -> Option<Seq<char>> {
    match r {
        Some(s) => Some(s@),
        None => None,
    }
}

/// `serde_json::to_string` on a string slice: the slice is written as one
/// JSON string literal, and any error of the crate is reported as `None`.
#[verifier::external_body]
fn json_quote(text: &str) -> (r: Option<String>)
    ensures
        text_of(r) == json_string(text@),
{
    match serde_json::to_string(text) {
        Ok(s) => Some(s),
        Err(_) => None,
    }
}

/// The JSON string literals of `symbols`, in their order, or `None` where
/// one of them cannot be written.
pub open spec fn quoted(symbols: Seq<Seq<char>>) -> Option<Seq<Seq<char>>>
    decreases symbols.len(),
{
    if symbols.len() == 0 {
        Some(Seq::empty())
    } else {
        match (quoted(symbols.drop_last()), json_string(symbols.last())) {
            (Some(front), Some(last)) => Some(front.push(last)),
            _ => None,
        }
    }
}

/// The items in their order, with a comma between neighbours.
pub open spec fn joined(items: Seq<Seq<char>>) -> Seq<char>
    decreases items.len(),
{
    if items.len() == 0 {
        Seq::empty()
    } else if items.len() == 1 {
        items[0]
    } else {
        joined(items.drop_last()) + ","@ + items.last()
    }
}

/// The request whose array holds the given JSON string literals.
pub open spec fn framed(items: Seq<Seq<char>>) -> Seq<char> {
    "{\"subscribe\":["@ + joined(items) + "]}"@
}

/// The request for `symbols`, or `None` where one of them cannot be
/// written as a JSON string.
pub open spec fn request_text(symbols: Seq<Seq<char>>) -> Option<Seq<char>> {
    match quoted(symbols) {
        Some(items) => Some(framed(items)),
        None => None,
    }
}

/// Frames JSON string literals as a subscription request.
pub fn frame_request(items: &Vec<String>) -> (r: String)
    ensures
        r@ == framed(texts(items@)),
{
    let ghost all = texts(items@);
    let mut out = "{\"subscribe\":[".to_owned();
    let mut i: usize = 0;
    while i < items.len()
        invariant
            i <= items@.len(),
            all == texts(items@),
            out@ == "{\"subscribe\":["@ + joined(all.take(i as int)),
        decreases items@.len() - i,
    {
        proof {
            assert(all.take(i as int + 1).drop_last() =~= all.take(i as int));
            assert(all.take(i as int + 1).last() == items@[i as int]@);
        }
        if i > 0 {
            out.append(",");
        } else {
            assert(joined(all.take(0)) =~= Seq::<char>::empty());
            assert(all.take(1)[0] == items@[0]@);
        }
        out.append(items[i].as_str());
        i = i + 1;
        assert(out@ =~= "{\"subscribe\":["@ + joined(all.take(i as int)));
    }
    assert(all.take(items@.len() as int) =~= all);
    out.append("]}");
    out
}

/// Builds the subscription request for `symbols`.
pub fn subscription_request(symbols: &Vec<String>) -> (r: Option<String>)
    ensures
        text_of(r) == request_text(texts(symbols@)),
{
    let ghost all = texts(symbols@);
    let mut items: Vec<String> = Vec::new();
    let mut i: usize = 0;
    while i < symbols.len()
        invariant
            i <= symbols@.len(),
            all == texts(symbols@),
            quoted(all.take(i as int)) == Some(texts(items@)),
        decreases symbols@.len() - i,
    {
        proof {
            assert(all.take(i as int + 1).drop_last() =~= all.take(i as int));
            assert(all.take(i as int + 1).last() == symbols@[i as int]@);
        }
        let ghost front = texts(items@);
        match json_quote(symbols[i].as_str()) {
            Some(item) => {
                items.push(item);
                assert(texts(items@) =~= front.push(item@));
            },
            None => {
                proof {
                    lemma_quoted_prefix(all, i as int + 1);
                }
                return None;
            },
        }
        i = i + 1;
    }
    assert(all.take(symbols@.len() as int) =~= all);
    Some(frame_request(&items))
}

/// Where a prefix of the symbols cannot be written, the whole list cannot
/// either.
pub proof fn lemma_quoted_prefix(symbols: Seq<Seq<char>>, n: int)
    requires
        0 <= n <= symbols.len(),
        quoted(symbols.take(n)) is None,
    ensures
        quoted(symbols) is None,
    decreases symbols.len() - n,
{
    if n < symbols.len() {
        assert(symbols.take(n + 1).drop_last() =~= symbols.take(n));
        lemma_quoted_prefix(symbols, n + 1);
    } else {
        assert(symbols.take(n) =~= symbols);
    }
}

} // verus!
