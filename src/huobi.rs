//! The second polling exchange: checking its reply envelope and reading its book.
use vstd::prelude::*;
use vstd::string::StringExecFns;
use crate::error::PriceIndexError;
use crate::models::{Order, OrderBook};
use crate::text::{debug_quoted, debug_quoted_text};

verus! {

/// The book in the exchange's reply; its levels arrive as numbers.
#[derive(Clone, Debug)]
pub struct HuobiOrderBook {
    pub bids: Vec<Order>,
    pub asks: Vec<Order>,
}

/// The whole reply: a status (`"ok"` on success), error details, the exchange's
/// time stamp and the book.
#[derive(Clone, Debug)]
pub struct HuobiResponse {
    pub status: String,
    pub err_code: Option<String>,
    pub err_msg: Option<String>,
    pub ts: i64,
    pub tick: Option<HuobiOrderBook>,
}

/// The error detail shown in a message, as `Debug` shows it: `Some("text")` or
/// `None`.
pub open spec fn detail_text(err_msg: Option<String>) -> Seq<char> {
    match err_msg {
        Some(m) => "Some("@ + debug_quoted(m@) + ")"@,
        None => "None"@,
    }
}

/// Text of an error for a reply whose status is not `ok`.
pub open spec fn status_error_text(prefix: Seq<char>, r: HuobiResponse) -> Seq<char> {
    prefix + "status = "@ + r.status@ + ", error = "@ + detail_text(r.err_msg)
}

fn status_error(prefix: &str, response: &HuobiResponse) -> (r: PriceIndexError)
    ensures
        r matches PriceIndexError::ExchangeError(m) && m@ == status_error_text(prefix@, *response),
{
    let mut m = String::from_str(prefix);
    m.append("status = ");
    m.append(response.status.as_str());
    m.append(", error = ");
    match &response.err_msg {
        Some(e) => {
            m.append("Some(");
            m.append(debug_quoted_text(e.as_str()).as_str());
            m.append(")");
        },
        None => m.append("None"),
    }
    assert(m@ =~= status_error_text(prefix@, *response));
    PriceIndexError::ExchangeError(m)
}

fn status_is_ok(status: &String) -> (r: bool)
    ensures
        r == (status@ == "ok"@),
{
    *status == String::from_str("ok")
}

/// Judges the reply to the start-up probe: the exchange is usable exactly when
/// the status is `ok`.
pub fn check_huobi_probe(response: &HuobiResponse) -> (r: Result<(), PriceIndexError>)
    ensures
        r is Ok <==> response.status@ == "ok"@,
        r matches Err(e) ==> (e matches PriceIndexError::ExchangeError(m) && m@
            == status_error_text("Huobi API error during initialization: "@, *response)),
{
    if status_is_ok(&response.status) {
        Ok(())
    } else {
        Err(status_error("Huobi API error during initialization: ", response))
    }
}

/// The text of the error for a successful reply without a book.
pub open spec fn no_book_text() -> Seq<char> {
    "No order book data received from Huobi"@
}

/// The book in a fetch reply, stamped with `now`: an `ExchangeError` when the
/// status is not `ok` or the reply holds no book.
pub fn huobi_order_book(response: HuobiResponse, now: u64) -> (r: Result<OrderBook, PriceIndexError>)
    ensures
        response.status@ != "ok"@ ==> (r matches Err(PriceIndexError::ExchangeError(m)) && m@
            == status_error_text("Huobi API error: "@, response)),
        response.status@ == "ok"@ ==> match response.tick {
            Some(t) => r matches Ok(b) && b.bids@ == t.bids@ && b.asks@ == t.asks@ && b.timestamp
                == now,
            None => r matches Err(PriceIndexError::ExchangeError(m)) && m@ == no_book_text(),
        },
{
    if !status_is_ok(&response.status) {
        return Err(status_error("Huobi API error: ", &response));
    }
    match response.tick {
        Some(tick) => Ok(OrderBook { bids: tick.bids, asks: tick.asks, timestamp: now }),
        None => Err(PriceIndexError::ExchangeError(String::from_str("No order book data received from Huobi"))),
    }
}

} // verus!
