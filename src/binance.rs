//! The streaming exchange: its REST snapshot, its incremental depth updates and
//! the address of its stream.
use vstd::prelude::*;
use vstd::string::StringExecFns;
use crate::config::Settings;
use crate::error::PriceIndexError;
use crate::exchange::{levels_read, levels_readable, parse_levels, RawLevel};
use crate::merge::{apply_deltas, is_sorted_side, merge_order_book_updates};
use crate::models::{Order, OrderBook};

verus! {

/// A depth message of the exchange, as a snapshot or as an incremental update.
#[derive(Clone, Debug)]
pub struct BinanceOrderBook {
    pub bids: Vec<RawLevel>,
    pub asks: Vec<RawLevel>,
    /// The exchange's sequence number; observed, not enforced.
    pub last_update_id: i64,
}

/// `url::Url`, carried through as an opaque value.
#[verifier::external_type_specification]
#[verifier::external_body]
pub struct ExUrl(url::Url);

/// `url::ParseError`, carried through as an opaque value.
#[verifier::external_type_specification]
#[verifier::external_body]
pub struct ExParseError(url::ParseError);

/// Whether `url::Url::parse` accepts the text as an absolute URL.
pub uninterp spec fn url_parses(s: Seq<char>) -> bool;

/// Relies on `url::Url::parse`: it returns `Ok` exactly on the texts it accepts,
/// which depends on the text alone.
#[verifier::external_body]
fn parse_url(s: &str) -> (r: Result<url::Url, url::ParseError>)
    ensures
        r is Ok <==> url_parses(s@),
{
    url::Url::parse(s)
}

/// The address of the depth stream, or a `WebSocketError` when the configured
/// text is not a URL.
pub fn websocket_url(settings: &Settings) -> (r: Result<url::Url, PriceIndexError>)
    ensures
        r is Ok <==> url_parses(settings.exchange.binance.ws_url@),
        r matches Err(e) ==> e is WebSocketError,
{
    match parse_url(settings.exchange.binance.ws_url.as_str()) {
        Ok(u) => Ok(u),
        Err(e) => {
            let mut m = String::from_str("Failed to parse WebSocket URL: ");
            m.append(e.to_string().as_str());
            Err(PriceIndexError::WebSocketError(m))
        },
    }
}

/// The side built from the levels `ds`, as the merge engine lays it out.
pub open spec fn side_from(s: Seq<Order>, ds: Seq<Order>, is_bids: bool) -> bool {
    is_sorted_side(s, is_bids) && s.to_set() == apply_deltas(Set::empty(), ds)
}

/// The book of a REST snapshot, stamped with `now`. Each side is laid out as the
/// merge engine keeps it (levels of zero quantity dropped, the last level of a
/// price kept, sorted); a `JsonError` when a level is not decimal text.
pub fn snapshot_book(snapshot: &BinanceOrderBook, now: u64) -> (r: Result<OrderBook, PriceIndexError>)
    ensures
        levels_readable(snapshot.bids@) && levels_readable(snapshot.asks@) ==> (r matches Ok(b)
            && b.timestamp == now && exists|bids: Seq<Order>, asks: Seq<Order>|
            levels_read(snapshot.bids@, bids) && levels_read(snapshot.asks@, asks) && side_from(
                b.bids@,
                bids,
                true,
            ) && side_from(b.asks@, asks, false)),
        !(levels_readable(snapshot.bids@) && levels_readable(snapshot.asks@)) ==> (r matches Err(
            PriceIndexError::JsonError(_),
        )),
        r matches Ok(b) ==> b.is_well_formed(),
{
    let (bid_levels, ask_levels) = match (parse_levels(&snapshot.bids), parse_levels(&snapshot.asks)) {
        (Some(b), Some(a)) => (b, a),
        _ => {
            return Err(PriceIndexError::JsonError(String::from_str("Failed to parse Binance price level")));
        },
    };
    let mut bids: Vec<Order> = Vec::new();
    let mut asks: Vec<Order> = Vec::new();
    assert(bids@.to_set() =~= Set::<Order>::empty());
    assert(asks@.to_set() =~= Set::<Order>::empty());
    merge_order_book_updates(&mut bids, bid_levels.as_slice(), true);
    merge_order_book_updates(&mut asks, ask_levels.as_slice(), false);
    Ok(OrderBook { bids, asks, timestamp: now })
}

/// Applies one incremental update to a well-formed book. It is applied only when
/// every level reads as decimal text and both sides are non-empty: then each side
/// is merged and the book is stamped with `now`. Otherwise the book is left as it
/// is. Returns whether the update was applied.
pub fn apply_depth_update(book: &mut OrderBook, update: &BinanceOrderBook, now: u64) -> (applied: bool)
    requires
        old(book).is_well_formed(),
    ensures
        final(book).is_well_formed(),
        applied <==> levels_readable(update.bids@) && levels_readable(update.asks@)
            && update.bids@.len() > 0 && update.asks@.len() > 0,
        !applied ==> *final(book) == *old(book),
        applied ==> final(book).timestamp == now && exists|bids: Seq<Order>, asks: Seq<Order>|
            levels_read(update.bids@, bids) && levels_read(update.asks@, asks)
            && final(book).bids@.to_set() == apply_deltas(old(book).bids@.to_set(), bids)
            && final(book).asks@.to_set() == apply_deltas(old(book).asks@.to_set(), asks),
{
    let (bid_levels, ask_levels) = match (parse_levels(&update.bids), parse_levels(&update.asks)) {
        (Some(b), Some(a)) => (b, a),
        _ => {
            return false;
        },
    };
    if bid_levels.len() == 0 || ask_levels.len() == 0 {
        return false;
    }
    merge_order_book_updates(&mut book.bids, bid_levels.as_slice(), true);
    merge_order_book_updates(&mut book.asks, ask_levels.as_slice(), false);
    book.timestamp = now;
    true
}

} // verus!
