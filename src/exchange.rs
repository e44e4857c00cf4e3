//! What every exchange client shares: reading raw price levels, deriving an
//! exchange price from a fetched book, and gathering the prices of one round.
use vstd::prelude::*;
use vstd::string::StringExecFns;
use crate::decimal::{decimal_units, parse_decimal};
use crate::error::PriceIndexError;
use crate::models::{book_mid_price, mid_price_fits, ExchangePrice, Order, OrderBook};

verus! {

/// A price level as an exchange writes it: decimal text for price and quantity.
#[derive(Clone, Debug)]
pub struct RawLevel {
    pub price: String,
    pub quantity: String,
}

/// Whether every raw level reads as decimal text.
pub open spec fn levels_readable(raw: Seq<RawLevel>) -> bool {
    forall|i: int|
        0 <= i < raw.len() ==> (#[trigger] decimal_units(raw[i].price@)) is Some
            && decimal_units(raw[i].quantity@) is Some
}

/// `levels` is what `raw` reads as, level by level.
pub open spec fn levels_read(raw: Seq<RawLevel>, levels: Seq<Order>) -> bool {
    &&& levels.len() == raw.len()
    &&& forall|i: int|
        0 <= i < raw.len() ==> decimal_units(raw[i].price@) == Some(#[trigger] levels[i].price as int)
            && decimal_units(raw[i].quantity@) == Some(levels[i].quantity as int)
}

/// Reads raw levels into orders, in the same order; `None` if any price or
/// quantity is not decimal text.
pub fn parse_levels(raw: &Vec<RawLevel>) -> (r: Option<Vec<Order>>)
    ensures
        r is Some <==> levels_readable(raw@),
        r matches Some(v) ==> levels_read(raw@, v@),
{
    let mut out: Vec<Order> = Vec::new();
    let mut i: usize = 0;
    while i < raw.len()
        invariant
            0 <= i <= raw@.len(),
            out@.len() == i,
            forall|j: int|
                0 <= j < i ==> decimal_units(raw@[j].price@) == Some(#[trigger] out@[j].price as int)
                    && decimal_units(raw@[j].quantity@) == Some(out@[j].quantity as int),
        decreases raw@.len() - i,
    {
        let price = match parse_decimal(raw[i].price.as_str()) {
            Some(p) => p,
            None => {
                return None;
            },
        };
        let quantity = match parse_decimal(raw[i].quantity.as_str()) {
            Some(q) => q,
            None => {
                return None;
            },
        };
        out.push(Order { price, quantity });
        i = i + 1;
    }
    assert forall|j: int| 0 <= j < raw@.len() implies (#[trigger] decimal_units(raw@[j].price@)) is Some
        && decimal_units(raw@[j].quantity@) is Some by {
        assert(decimal_units(raw@[j].price@) == Some(out@[j].price as int));
    }
    Some(out)
}

/// The text of the error for a book without a valid mid-price.
pub open spec fn no_mid_price_message(name: Seq<char>) -> Seq<char> {
    "Failed to calculate mid price for "@ + name
}

/// The price an exchange reports for one fetch: the fetch's own error, or the
/// book's mid-price under the exchange's name, stamped with the book's own time
/// (so a stale book shows in the decay weight), or `InvalidPriceData` when the
/// book has no valid mid-price.
pub fn exchange_price_from(name: &str, fetched: Result<OrderBook, PriceIndexError>) -> (r: Result<
    ExchangePrice,
    PriceIndexError,
>)
    requires
        fetched matches Ok(book) ==> mid_price_fits(book.bids@, book.asks@),
    ensures
        fetched matches Err(e) ==> r == Err::<ExchangePrice, PriceIndexError>(e),
        fetched matches Ok(book) ==> match book_mid_price(book.bids@, book.asks@) {
            Some(m) => r matches Ok(p) && p.exchange@ == name@ && p.mid_price == m && p.timestamp
                == book.timestamp,
            None => r matches Err(PriceIndexError::InvalidPriceData(msg)) && msg@
                == no_mid_price_message(name@),
        },
{
    let book = match fetched {
        Ok(b) => b,
        Err(e) => {
            return Err(e);
        },
    };
    match book.calculate_mid_price() {
        Some(mid_price) => Ok(
            ExchangePrice { exchange: String::from_str(name), mid_price, timestamp: book.timestamp },
        ),
        None => {
            let mut msg = String::from_str("Failed to calculate mid price for ");
            msg.append(name);
            Err(PriceIndexError::InvalidPriceData(msg))
        },
    }
}

fn copy_price(p: &ExchangePrice) -> (r: ExchangePrice)
    ensures
        r == *p,
{
    ExchangePrice { exchange: p.exchange.clone(), mid_price: p.mid_price, timestamp: p.timestamp }
}

/// The successful prices among `outcomes`, in order.
pub open spec fn successes(outcomes: Seq<Result<ExchangePrice, PriceIndexError>>) -> Seq<ExchangePrice>
    decreases outcomes.len(),
{
    if outcomes.len() == 0 {
        Seq::empty()
    } else {
        let rest = successes(outcomes.drop_last());
        match outcomes.last() {
            Ok(p) => rest.push(p),
            Err(_) => rest,
        }
    }
}

/// Gathers the prices of one round of exchange calls, dropping the failures.
/// `None` signals that no exchange delivered a price.
pub fn collect_exchange_prices(outcomes: Vec<Result<ExchangePrice, PriceIndexError>>) -> (r: Option<
    Vec<ExchangePrice>,
>)
    ensures
        r is None <==> successes(outcomes@).len() == 0,
        r matches Some(v) ==> v@ == successes(outcomes@),
{
    let ghost all = outcomes@;
    let mut prices: Vec<ExchangePrice> = Vec::new();
    let mut i: usize = 0;
    while i < outcomes.len()
        invariant
            outcomes@ == all,
            0 <= i <= all.len(),
            prices@ == successes(all.subrange(0, i as int)),
        decreases all.len() - i,
    {
        assert(all.subrange(0, i + 1).drop_last() =~= all.subrange(0, i as int));
        match &outcomes[i] {
            Ok(p) => prices.push(copy_price(p)),
            Err(_) => {},
        }
        i = i + 1;
    }
    assert(all.subrange(0, all.len() as int) =~= all);
    if prices.len() == 0 {
        None
    } else {
        Some(prices)
    }
}

/// Age of a price stamped at `timestamp` when seen at `now`, in whole seconds;
/// zero for a stamp in the future.
pub fn price_age_secs(now: u64, timestamp: u64) -> (r: u64)
    ensures
        r == if now >= timestamp { (now - timestamp) / 1000 } else { 0 },
{
    if now >= timestamp {
        (now - timestamp) / 1000
    } else {
        0
    }
}

} // verus!
