//! The first polling exchange: checking its reply envelope and reading its book.
use vstd::prelude::*;
use vstd::string::StringExecFns;
use crate::error::PriceIndexError;
use crate::exchange::{levels_read, levels_readable, parse_levels, RawLevel};
use crate::models::OrderBook;
use crate::text::{debug_quoted, debug_quoted_text};

verus! {

/// Both sides of the book in the exchange's reply.
#[derive(Clone, Debug)]
pub struct KrakenOrderBook {
    pub bids: Vec<RawLevel>,
    pub asks: Vec<RawLevel>,
}

/// The `result` part of the reply, holding the book of the traded pair.
#[derive(Clone, Debug)]
pub struct KrakenResult {
    pub xbtusdt: KrakenOrderBook,
}

/// The whole reply: a list of error texts (empty on success) and the result.
#[derive(Clone, Debug)]
pub struct KrakenResponse {
    pub error: Vec<String>,
    pub result: KrakenResult,
}

/// The error texts as `Debug` shows a list of strings, without the brackets:
/// each quoted, separated by `", "`.
pub open spec fn debug_items(v: Seq<String>) -> Seq<char>
    decreases v.len(),
{
    if v.len() == 0 {
        Seq::empty()
    } else if v.len() == 1 {
        debug_quoted(v[0]@)
    } else {
        debug_items(v.drop_last()) + ", "@ + debug_quoted(v.last()@)
    }
}

/// The error texts as `Debug` shows a list of strings: `["a", "b"]`.
pub open spec fn debug_list(v: Seq<String>) -> Seq<char> {
    "["@ + debug_items(v) + "]"@
}

fn error_text(prefix: &str, v: &Vec<String>) -> (r: String)
    ensures
        r@ == prefix@ + debug_list(v@),
{
    let mut out = String::from_str(prefix);
    out.append("[");
    let mut i: usize = 0;
    while i < v.len()
        invariant
            0 <= i <= v@.len(),
            out@ == prefix@ + "["@ + debug_items(v@.subrange(0, i as int)),
        decreases v@.len() - i,
    {
        assert(v@.subrange(0, i + 1).drop_last() =~= v@.subrange(0, i as int));
        if i > 0 {
            out.append(", ");
        }
        out.append(debug_quoted_text(v[i].as_str()).as_str());
        assert(out@ =~= prefix@ + "["@ + debug_items(v@.subrange(0, i + 1)));
        i = i + 1;
    }
    assert(v@.subrange(0, v@.len() as int) =~= v@);
    out.append("]");
    assert(out@ =~= prefix@ + debug_list(v@));
    out
}

/// Text of the error raised when the start-up probe reports errors.
pub open spec fn probe_error_text(errors: Seq<String>) -> Seq<char> {
    "Kraken API error during initialization: "@ + debug_list(errors)
}

/// Text of the error raised when a fetch reports errors.
pub open spec fn fetch_error_text(errors: Seq<String>) -> Seq<char> {
    "Kraken API error: "@ + debug_list(errors)
}

/// Judges the reply to the start-up probe: the exchange is usable exactly when
/// the reply lists no error.
pub fn check_kraken_probe(response: &KrakenResponse) -> (r: Result<(), PriceIndexError>)
    ensures
        r is Ok <==> response.error@.len() == 0,
        r matches Err(e) ==> (e matches PriceIndexError::ExchangeError(m) && m@ == probe_error_text(
            response.error@,
        )),
{
    if response.error.len() == 0 {
        Ok(())
    } else {
        Err(PriceIndexError::ExchangeError(error_text("Kraken API error during initialization: ", &response.error)))
    }
}

/// The book in a fetch reply, stamped with `now`: an `ExchangeError` when the
/// reply lists errors, a `JsonError` when a level is not decimal text.
pub fn kraken_order_book(response: &KrakenResponse, now: u64) -> (r: Result<OrderBook, PriceIndexError>)
    ensures
        response.error@.len() > 0 ==> (r matches Err(PriceIndexError::ExchangeError(m)) && m@
            == fetch_error_text(response.error@)),
        response.error@.len() == 0 ==> {
            let book = response.result.xbtusdt;
            if levels_readable(book.bids@) && levels_readable(book.asks@) {
                r matches Ok(b) && levels_read(book.bids@, b.bids@) && levels_read(book.asks@, b.asks@)
                    && b.timestamp == now
            } else {
                r matches Err(PriceIndexError::JsonError(_))
            }
        },
{
    if response.error.len() > 0 {
        return Err(PriceIndexError::ExchangeError(error_text("Kraken API error: ", &response.error)));
    }
    let bids = parse_levels(&response.result.xbtusdt.bids);
    let asks = parse_levels(&response.result.xbtusdt.asks);
    match (bids, asks) {
        (Some(bids), Some(asks)) => Ok(OrderBook { bids, asks, timestamp: now }),
        _ => Err(PriceIndexError::JsonError(String::from_str("Failed to parse Kraken price level"))),
    }
}

} // verus!
