//! Value types of the order model and the mid-price rule.
use vstd::prelude::*;
use vstd::arithmetic::div_mod::lemma_div_multiples_vanish_quotient;
use crate::merge::is_sorted_side;

verus! {

/// Number of fixed-point units in one whole unit of price or quantity.
pub const PRICE_SCALE: i64 = 100_000_000;

/// Number of fixed-point units in one cent, the precision of a mid-price.
pub const CENT: i64 = 1_000_000;

/// One price level of an order book.
#[derive(Clone, Copy, Debug, PartialEq, Eq, Structural)]
pub struct Order {
    /// Price in units of `1 / PRICE_SCALE`.
    pub price: i64,
    /// Quantity in units of `1 / PRICE_SCALE`.
    pub quantity: i64,
}

/// A two-sided order book: bids best (highest) first, asks best (lowest) first.
#[derive(Clone, Debug)]
pub struct OrderBook {
    pub bids: Vec<Order>,
    pub asks: Vec<Order>,
    /// Milliseconds since the Unix epoch at which the book was last refreshed.
    pub timestamp: u64,
}

/// A mid-price reported by one exchange.
#[derive(Clone, Debug)]
pub struct ExchangePrice {
    pub exchange: String,
    /// Mid-price in units of `1 / PRICE_SCALE`.
    pub mid_price: i64,
    /// Milliseconds since the Unix epoch at which the price was taken.
    pub timestamp: u64,
}

/// The aggregated index price and the exchange prices it was built from.
#[derive(Clone, Debug)]
pub struct GlobalPriceIndex {
    /// Index price in units of `1 / PRICE_SCALE`.
    pub price: i64,
    /// Milliseconds since the Unix epoch at which the index was built.
    pub timestamp: u64,
    pub exchange_prices: Vec<ExchangePrice>,
}

/// The weight of a fresh price; a price's weight decays from here toward zero
/// with its age.
pub const WEIGHT_ONE: u64 = 1_000_000_000;

/// Most exchange prices that one index is built from.
pub const MAX_SOURCES: usize = 4_294_967_295;

/// An exchange price takes part in the index only when it is positive.
pub open spec fn is_valid_price(e: ExchangePrice) -> bool {
    e.mid_price > 0
}

/// How many of the first `n` prices are valid.
pub open spec fn valid_count(ps: Seq<ExchangePrice>, n: nat) -> nat
    decreases n,
{
    if n == 0 {
        0
    } else {
        valid_count(ps, (n - 1) as nat) + if is_valid_price(ps[n - 1]) { 1nat } else { 0nat }
    }
}

/// Sum of the valid prices among the first `n`.
pub open spec fn price_sum(ps: Seq<ExchangePrice>, n: nat) -> int
    decreases n,
{
    if n == 0 {
        0
    } else {
        price_sum(ps, (n - 1) as nat) + if is_valid_price(ps[n - 1]) {
            ps[n - 1].mid_price as int
        } else {
            0
        }
    }
}

/// Sum of the weights of the valid prices among the first `n`.
pub open spec fn weight_sum(ps: Seq<ExchangePrice>, ws: Seq<u64>, n: nat) -> int
    decreases n,
{
    if n == 0 {
        0
    } else {
        weight_sum(ps, ws, (n - 1) as nat) + if is_valid_price(ps[n - 1]) {
            ws[n - 1] as int
        } else {
            0
        }
    }
}

/// Sum of price times weight over the valid prices among the first `n`.
pub open spec fn weighted_sum(ps: Seq<ExchangePrice>, ws: Seq<u64>, n: nat) -> int
    decreases n,
{
    if n == 0 {
        0
    } else {
        weighted_sum(ps, ws, (n - 1) as nat) + if is_valid_price(ps[n - 1]) {
            ps[n - 1].mid_price * ws[n - 1]
        } else {
            0
        }
    }
}

/// The index price of `ps`, where `ws[i]` is the decay weight of `ps[i]`: the
/// weighted mean of the valid prices, rounded down; their plain mean when all their
/// weights are zero; zero when no price is valid.
pub open spec fn aggregate_price(ps: Seq<ExchangePrice>, ws: Seq<u64>) -> int {
    let n = ps.len();
    if valid_count(ps, n) == 0 {
        0
    } else if weight_sum(ps, ws, n) > 0 {
        weighted_sum(ps, ws, n) / weight_sum(ps, ws, n)
    } else {
        price_sum(ps, n) / valid_count(ps, n) as int
    }
}

/// The average of `bid` and `ask`, rounded to the nearest cent, halves upward.
pub open spec fn rounded_mid(bid: int, ask: int) -> int {
    ((bid + ask + CENT) / (2 * CENT)) * CENT
}

/// The mid-price of a book whose first levels are `bids[0]` and `asks[0]`, if the
/// book is usable: both sides non-empty, both best prices positive, and the best
/// ask strictly above the best bid.
pub open spec fn book_mid_price(bids: Seq<Order>, asks: Seq<Order>) -> Option<int> {
    if bids.len() == 0 || asks.len() == 0 {
        None
    } else if bids[0].price <= 0 || asks[0].price <= 0 || asks[0].price <= bids[0].price {
        None
    } else {
        Some(rounded_mid(bids[0].price as int, asks[0].price as int))
    }
}

/// For a usable book whose spread is at least two cents, the mid-price lies
/// strictly between the best bid and the best ask, and is `(bid + ask) / 2`
/// rounded to the nearest cent.
pub proof fn lemma_mid_price_between(bids: Seq<Order>, asks: Seq<Order>)
    requires
        bids.len() > 0,
        asks.len() > 0,
        bids[0].price > 0,
        asks[0].price - bids[0].price >= 2 * CENT,
    ensures
        book_mid_price(bids, asks) == Some(rounded_mid(bids[0].price as int, asks[0].price as int)),
        bids[0].price < rounded_mid(bids[0].price as int, asks[0].price as int) < asks[0].price,
        -CENT < 2 * rounded_mid(bids[0].price as int, asks[0].price as int) - (bids[0].price
            + asks[0].price) <= CENT,
{
    let b = bids[0].price as int;
    let a = asks[0].price as int;
    let q = (b + a + CENT) / (2 * CENT);
    assert(q * (2 * CENT) <= b + a + CENT < q * (2 * CENT) + 2 * CENT) by (nonlinear_arith)
        requires
            q == (b + a + CENT) / (2 * CENT),
            CENT == 1_000_000,
    ;
    let m = rounded_mid(b, a);
    assert(m == q * CENT);
    assert(2 * m == q * (2 * CENT)) by (nonlinear_arith)
        requires
            m == q * CENT,
    ;
}

/// Whether the book's mid-price, if it has one, fits in an `i64`. It can exceed
/// `i64::MAX` only when the best prices lie within about a cent of it.
pub open spec fn mid_price_fits(bids: Seq<Order>, asks: Seq<Order>) -> bool {
    match book_mid_price(bids, asks) {
        Some(m) => m <= i64::MAX,
        None => true,
    }
}

impl OrderBook {
    /// Bids strictly descending and asks strictly ascending by price, with
    /// positive quantities: the shape the merge engine keeps.
    pub open spec fn is_well_formed(&self) -> bool {
        is_sorted_side(self.bids@, true) && is_sorted_side(self.asks@, false)
    }

    /// Whether the book's mid-price, if it has one, fits in an `i64`; this is
    /// what `calculate_mid_price` asks of its book.
    pub fn mid_price_in_range(&self) -> (r: bool)
        ensures
            r == mid_price_fits(self.bids@, self.asks@),
    {
        if self.bids.len() == 0 || self.asks.len() == 0 {
            return true;
        }
        let best_bid = self.bids[0].price;
        let best_ask = self.asks[0].price;
        if best_bid <= 0 || best_ask <= 0 || best_ask <= best_bid {
            return true;
        }
        let cents: i128 = (best_bid as i128 + best_ask as i128 + CENT as i128) / (2 * CENT as i128);
        assert(0 <= cents * CENT <= 2 * i64::MAX) by (nonlinear_arith)
            requires
                cents == (best_bid + best_ask + CENT) / (2 * CENT),
                0 < best_bid < best_ask <= i64::MAX,
                CENT == 1_000_000,
        ;
        cents * (CENT as i128) <= i64::MAX as i128
    }

    /// The average of the best bid and the best ask, rounded to the cent, or
    /// `None` when a side is empty, a best price is not positive, or the market
    /// is crossed or locked.
    pub fn calculate_mid_price(&self) -> (r: Option<i64>)
        requires
            mid_price_fits(self.bids@, self.asks@),
        ensures
            r matches Some(m) ==> book_mid_price(self.bids@, self.asks@) == Some(m as int),
            r is None <==> book_mid_price(self.bids@, self.asks@) is None,
    {
        if self.bids.len() == 0 || self.asks.len() == 0 {
            return None;
        }
        let best_bid = self.bids[0].price;
        if best_bid <= 0 {
            return None;
        }
        let best_ask = self.asks[0].price;
        if best_ask <= 0 {
            return None;
        }
        if best_ask <= best_bid {
            return None;
        }
        let sum: i128 = best_bid as i128 + best_ask as i128 + CENT as i128;
        let cents: i128 = sum / (2 * CENT as i128);
        assert(0 <= cents * CENT <= 2 * i64::MAX) by (nonlinear_arith)
            requires
                cents == (best_bid + best_ask + CENT) / (2 * CENT),
                0 < best_bid < best_ask <= i64::MAX,
                CENT == 1_000_000,
        ;
        Some((cents * CENT as i128) as i64)
    }
}

proof fn lemma_price_sum_nonneg(ps: Seq<ExchangePrice>, n: nat)
    requires
        n <= ps.len(),
    ensures
        price_sum(ps, n) >= 0,
    decreases n,
{
    if n > 0 {
        lemma_price_sum_nonneg(ps, (n - 1) as nat);
    }
}

/// The four sums over a prefix depend only on the entries of that prefix.
proof fn lemma_sums_prefix(
    ps1: Seq<ExchangePrice>,
    ws1: Seq<u64>,
    ps2: Seq<ExchangePrice>,
    ws2: Seq<u64>,
    n: nat,
)
    requires
        n <= ps1.len(),
        n <= ps2.len(),
        n <= ws1.len(),
        n <= ws2.len(),
        forall|i: int| 0 <= i < n ==> ps1[i] == ps2[i] && ws1[i] == ws2[i],
    ensures
        valid_count(ps1, n) == valid_count(ps2, n),
        price_sum(ps1, n) == price_sum(ps2, n),
        weight_sum(ps1, ws1, n) == weight_sum(ps2, ws2, n),
        weighted_sum(ps1, ws1, n) == weighted_sum(ps2, ws2, n),
    decreases n,
{
    if n > 0 {
        lemma_sums_prefix(ps1, ws1, ps2, ws2, (n - 1) as nat);
    }
}

proof fn lemma_equal_weight_sums(ps: Seq<ExchangePrice>, ws: Seq<u64>, w: u64, n: nat)
    requires
        n <= ps.len() == ws.len(),
        forall|i: int| 0 <= i < ps.len() ==> ws[i] == w,
    ensures
        weight_sum(ps, ws, n) == w * valid_count(ps, n),
        weighted_sum(ps, ws, n) == w * price_sum(ps, n),
    decreases n,
{
    if n > 0 {
        let m = (n - 1) as nat;
        lemma_equal_weight_sums(ps, ws, w, m);
        assert(ws[m as int] == w);
        if is_valid_price(ps[m as int]) {
            let c = valid_count(ps, m) as int;
            assert(w * (c + 1) == w * c + w) by (nonlinear_arith);
            let p = ps[m as int].mid_price as int;
            let t = price_sum(ps, m);
            assert(w * (t + p) == w * t + p * w) by (nonlinear_arith);
        }
    } else {
        assert(w * 0 == 0);
    }
}

/// When every price was taken at the same instant, each carries the same weight
/// and the index is the plain mean of the valid prices (rounded down).
pub proof fn lemma_equal_timestamps_plain_mean(ps: Seq<ExchangePrice>, ws: Seq<u64>)
    requires
        ps.len() == ws.len(),
        forall|i: int, j: int|
            0 <= i < ps.len() && 0 <= j < ps.len() ==> ps[i].timestamp == ps[j].timestamp,
        forall|i: int, j: int|
            0 <= i < ps.len() && 0 <= j < ps.len() && ps[i].timestamp == ps[j].timestamp
                ==> ws[i] == ws[j],
        valid_count(ps, ps.len()) > 0,
    ensures
        aggregate_price(ps, ws) == price_sum(ps, ps.len()) / valid_count(ps, ps.len()) as int,
{
    let n = ps.len();
    let w = ws[0];
    assert(forall|i: int| 0 <= i < ps.len() ==> ws[i] == w);
    lemma_equal_weight_sums(ps, ws, w, n);
    lemma_price_sum_nonneg(ps, n);
    let t = price_sum(ps, n);
    let c = valid_count(ps, n) as int;
    if w > 0 {
        lemma_div_multiples_vanish_quotient(w as int, t, c);
        assert(weight_sum(ps, ws, n) > 0);
        assert(weighted_sum(ps, ws, n) / weight_sum(ps, ws, n) == t / c);
    } else {
        assert(w * c == 0) by (nonlinear_arith)
            requires
                w == 0,
        ;
    }
}

proof fn lemma_single_valid_sums(ps: Seq<ExchangePrice>, ws: Seq<u64>, k: int, n: nat)
    requires
        n <= ps.len() == ws.len(),
        0 <= k < ps.len(),
        forall|i: int| 0 <= i < ps.len() && i != k ==> !is_valid_price(#[trigger] ps[i]),
    ensures
        valid_count(ps, n) == if is_valid_price(ps[k]) && k < n { 1nat } else { 0nat },
        price_sum(ps, n) == if is_valid_price(ps[k]) && k < n { ps[k].mid_price as int } else { 0 },
        weight_sum(ps, ws, n) == if is_valid_price(ps[k]) && k < n { ws[k] as int } else { 0 },
        weighted_sum(ps, ws, n) == if is_valid_price(ps[k]) && k < n {
            ps[k].mid_price * ws[k]
        } else {
            0
        },
    decreases n,
{
    if n > 0 {
        lemma_single_valid_sums(ps, ws, k, (n - 1) as nat);
    }
}

/// With exactly one valid price, the index is that price, whatever its weight.
pub proof fn lemma_single_valid_price(ps: Seq<ExchangePrice>, ws: Seq<u64>, k: int)
    requires
        ps.len() == ws.len(),
        0 <= k < ps.len(),
        is_valid_price(ps[k]),
        forall|i: int| 0 <= i < ps.len() && i != k ==> !is_valid_price(#[trigger] ps[i]),
    ensures
        aggregate_price(ps, ws) == ps[k].mid_price,
{
    lemma_single_valid_sums(ps, ws, k, ps.len());
    let p = ps[k].mid_price as int;
    let w = ws[k] as int;
    if w > 0 {
        assert((p * w) / w == p) by (nonlinear_arith)
            requires
                w > 0,
        ;
    }
}

proof fn lemma_remove_invalid_sums(ps: Seq<ExchangePrice>, ws: Seq<u64>, k: int, n: nat)
    requires
        ps.len() == ws.len(),
        0 <= k < n <= ps.len(),
        !is_valid_price(ps[k]),
    ensures
        valid_count(ps.remove(k), (n - 1) as nat) == valid_count(ps, n),
        price_sum(ps.remove(k), (n - 1) as nat) == price_sum(ps, n),
        weight_sum(ps.remove(k), ws.remove(k), (n - 1) as nat) == weight_sum(ps, ws, n),
        weighted_sum(ps.remove(k), ws.remove(k), (n - 1) as nat) == weighted_sum(ps, ws, n),
    decreases n,
{
    if n == k + 1 {
        lemma_sums_prefix(ps.remove(k), ws.remove(k), ps, ws, k as nat);
    } else {
        lemma_remove_invalid_sums(ps, ws, k, (n - 1) as nat);
        assert(ps.remove(k)[n - 2] == ps[n - 1]);
        assert(ws.remove(k)[n - 2] == ws[n - 1]);
    }
}

/// A price that is not positive has no part in the index: taking it out of the
/// input, with its weight, leaves the index price as it is.
pub proof fn lemma_invalid_price_ignored(ps: Seq<ExchangePrice>, ws: Seq<u64>, k: int)
    requires
        ps.len() == ws.len(),
        0 <= k < ps.len(),
        !is_valid_price(ps[k]),
    ensures
        aggregate_price(ps.remove(k), ws.remove(k)) == aggregate_price(ps, ws),
{
    lemma_remove_invalid_sums(ps, ws, k, ps.len());
}

/// The valid prices among the first `n`, in order.
pub open spec fn valid_prices(ps: Seq<ExchangePrice>, n: nat) -> Seq<ExchangePrice>
    decreases n,
{
    if n == 0 {
        Seq::empty()
    } else if is_valid_price(ps[n - 1]) {
        valid_prices(ps, (n - 1) as nat).push(ps[n - 1])
    } else {
        valid_prices(ps, (n - 1) as nat)
    }
}

/// The weights of the valid prices among the first `n`, in order.
pub open spec fn valid_weights(ps: Seq<ExchangePrice>, ws: Seq<u64>, n: nat) -> Seq<u64>
    decreases n,
{
    if n == 0 {
        Seq::empty()
    } else if is_valid_price(ps[n - 1]) {
        valid_weights(ps, ws, (n - 1) as nat).push(ws[n - 1])
    } else {
        valid_weights(ps, ws, (n - 1) as nat)
    }
}

proof fn lemma_filtered_sums(ps: Seq<ExchangePrice>, ws: Seq<u64>, n: nat)
    requires
        n <= ps.len() == ws.len(),
    ensures
        valid_prices(ps, n).len() == valid_weights(ps, ws, n).len() == valid_count(ps, n),
        valid_count(valid_prices(ps, n), valid_count(ps, n)) == valid_count(ps, n),
        price_sum(valid_prices(ps, n), valid_count(ps, n)) == price_sum(ps, n),
        weight_sum(valid_prices(ps, n), valid_weights(ps, ws, n), valid_count(ps, n)) == weight_sum(
            ps,
            ws,
            n,
        ),
        weighted_sum(valid_prices(ps, n), valid_weights(ps, ws, n), valid_count(ps, n))
            == weighted_sum(ps, ws, n),
    decreases n,
{
    if n > 0 {
        let m = (n - 1) as nat;
        lemma_filtered_sums(ps, ws, m);
        if is_valid_price(ps[m as int]) {
            let c = valid_count(ps, m);
            let fp = valid_prices(ps, n);
            let fw = valid_weights(ps, ws, n);
            lemma_sums_prefix(fp, fw, valid_prices(ps, m), valid_weights(ps, ws, m), c);
        }
    }
}

/// Prices that are not positive have no part in the index, however many there
/// are and wherever they stand: the index equals that of the valid prices alone,
/// with their weights.
pub proof fn lemma_only_valid_prices_count(ps: Seq<ExchangePrice>, ws: Seq<u64>)
    requires
        ps.len() == ws.len(),
    ensures
        aggregate_price(ps, ws) == aggregate_price(
            valid_prices(ps, ps.len()),
            valid_weights(ps, ws, ps.len()),
        ),
{
    lemma_filtered_sums(ps, ws, ps.len());
}

impl GlobalPriceIndex {
    /// Builds the index from `exchange_prices`, where `weights[i]` is the decay
    /// weight of `exchange_prices[i]` (`WEIGHT_ONE` for a fresh price) and `now` is
    /// the current time. Non-positive prices are left out of the mean but kept in
    /// `exchange_prices`.
    pub fn new(exchange_prices: Vec<ExchangePrice>, weights: &Vec<u64>, now: u64) -> (r: Self)
        requires
            exchange_prices@.len() == weights@.len(),
            exchange_prices@.len() <= MAX_SOURCES,
            forall|i: int| 0 <= i < weights@.len() ==> #[trigger] weights@[i] <= WEIGHT_ONE,
        ensures
            r.price == aggregate_price(exchange_prices@, weights@),
            r.timestamp == now,
            r.exchange_prices@ == exchange_prices@,
    {
        let ghost ps = exchange_prices@;
        let ghost ws = weights@;
        let mut count: u64 = 0;
        let mut psum: u128 = 0;
        let mut wsum: u128 = 0;
        let mut pwsum: u128 = 0;
        let mut i: usize = 0;
        while i < exchange_prices.len()
            invariant
                exchange_prices@ == ps,
                weights@ == ws,
                ps.len() == ws.len(),
                ps.len() <= MAX_SOURCES,
                forall|j: int| 0 <= j < ws.len() ==> #[trigger] ws[j] <= WEIGHT_ONE,
                0 <= i <= ps.len(),
                count == valid_count(ps, i as nat),
                psum == price_sum(ps, i as nat),
                wsum == weight_sum(ps, ws, i as nat),
                pwsum == weighted_sum(ps, ws, i as nat),
                count <= i,
                psum <= i64::MAX * count,
                wsum <= WEIGHT_ONE * i,
                pwsum <= i64::MAX * wsum,
            decreases ps.len() - i,
        {
            let e = &exchange_prices[i];
            if e.mid_price > 0 {
                let w = weights[i];
                let p = e.mid_price as u128;
                assert(p * w <= i64::MAX * w) by (nonlinear_arith)
                    requires
                        p <= i64::MAX,
                ;
                assert(pwsum + p * w <= i64::MAX * (wsum + w)) by (nonlinear_arith)
                    requires
                        pwsum <= i64::MAX * wsum,
                        p * w <= i64::MAX * w,
                ;
                assert(i64::MAX * (wsum + w) <= i64::MAX * (WEIGHT_ONE * (i + 1))) by (nonlinear_arith)
                    requires
                        wsum + w <= WEIGHT_ONE * (i + 1),
                ;
                assert(psum + p <= i64::MAX * (count + 1)) by (nonlinear_arith)
                    requires
                        psum <= i64::MAX * count,
                        p <= i64::MAX,
                ;
                assert(i64::MAX * (count + 1) <= i64::MAX * MAX_SOURCES) by (nonlinear_arith)
                    requires
                        count + 1 <= MAX_SOURCES,
                ;
                count = count + 1;
                psum = psum + p;
                wsum = wsum + w as u128;
                pwsum = pwsum + p * w as u128;
            }
            i = i + 1;
        }
        let price: i64 = if count == 0 {
            0
        } else if wsum > 0 {
            let q = pwsum / wsum;
            assert(q <= i64::MAX) by (nonlinear_arith)
                requires
                    q == pwsum / wsum,
                    pwsum <= i64::MAX * wsum,
                    wsum > 0,
            ;
            q as i64
        } else {
            let q = psum / count as u128;
            assert(q <= i64::MAX) by (nonlinear_arith)
                requires
                    q == psum / count as u128,
                    psum <= i64::MAX * count,
                    count > 0,
            ;
            q as i64
        };
        GlobalPriceIndex { price, timestamp: now, exchange_prices }
    }
}

} // verus!
