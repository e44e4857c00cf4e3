//! Incremental order-book merge: folding `(price, quantity)` deltas into a
//! sorted side of a book.
use vstd::prelude::*;
use crate::models::Order;

verus! {

/// True when a level at price `a` stands strictly before one at price `b`:
/// bids run from the highest price down, asks from the lowest price up.
pub open spec fn precedes(a: i64, b: i64, is_bids: bool) -> bool {
    if is_bids {
        a > b
    } else {
        a < b
    }
}

/// A well-formed side: strictly ordered by price in the side's direction (so no
/// price occurs twice) and every stored quantity positive.
pub open spec fn is_sorted_side(s: Seq<Order>, is_bids: bool) -> bool {
    &&& forall|i: int, j: int|
        0 <= i < j < s.len() ==> #[trigger] precedes(s[i].price, s[j].price, is_bids)
    &&& forall|i: int| 0 <= i < s.len() ==> #[trigger] s[i].quantity > 0
}

/// The levels after one delta: any level at the delta's price is dropped, and the
/// delta itself is kept when its quantity is positive.
pub open spec fn apply_delta(levels: Set<Order>, d: Order) -> Set<Order> {
    let rest = levels.filter(|o: Order| o.price != d.price);
    if d.quantity > 0 {
        rest.insert(d)
    } else {
        rest
    }
}

/// The levels after a batch of deltas, applied in order.
pub open spec fn apply_deltas(levels: Set<Order>, ds: Seq<Order>) -> Set<Order>
    decreases ds.len(),
{
    if ds.len() == 0 {
        levels
    } else {
        apply_delta(apply_deltas(levels, ds.drop_last()), ds.last())
    }
}

/// Whether some delta of `ds` is at price `p`.
pub open spec fn touches(ds: Seq<Order>, p: i64) -> bool
    decreases ds.len(),
{
    ds.len() > 0 && (ds.last().price == p || touches(ds.drop_last(), p))
}

/// The last delta of `ds` at price `p` (meaningful when `touches(ds, p)`).
pub open spec fn last_at(ds: Seq<Order>, p: i64) -> Order
    decreases ds.len(),
{
    if ds.len() == 0 {
        Order { price: p, quantity: 0 }
    } else if ds.last().price == p {
        ds.last()
    } else {
        last_at(ds.drop_last(), p)
    }
}

/// After a batch, a level at a price the batch touches is exactly its last delta
/// there (kept when positive); a level at any other price is as before.
proof fn lemma_apply_deltas_contains(levels: Set<Order>, ds: Seq<Order>, o: Order)
    ensures
        apply_deltas(levels, ds).contains(o) <==> if touches(ds, o.price) {
            last_at(ds, o.price) == o && o.quantity > 0
        } else {
            levels.contains(o)
        },
    decreases ds.len(),
{
    if ds.len() > 0 {
        lemma_apply_deltas_contains(levels, ds.drop_last(), o);
    }
}

/// Applying the same batch twice leaves the levels as applying it once.
pub proof fn lemma_batch_idempotent(levels: Set<Order>, ds: Seq<Order>)
    ensures
        apply_deltas(apply_deltas(levels, ds), ds) == apply_deltas(levels, ds),
{
    let once = apply_deltas(levels, ds);
    assert forall|o: Order| #[trigger] apply_deltas(once, ds).contains(o) <==> once.contains(o) by {
        lemma_apply_deltas_contains(once, ds, o);
        lemma_apply_deltas_contains(levels, ds, o);
    }
    assert(apply_deltas(once, ds) =~= once);
}

/// Two well-formed sides holding the same levels are the same sequence.
proof fn lemma_sorted_side_unique(a: Seq<Order>, b: Seq<Order>, is_bids: bool)
    requires
        is_sorted_side(a, is_bids),
        is_sorted_side(b, is_bids),
        a.to_set() == b.to_set(),
    ensures
        a == b,
    decreases a.len(),
{
    if a.len() == 0 {
        if b.len() > 0 {
            assert(b.to_set().contains(b[0]));
        }
        assert(a =~= b);
    } else if b.len() == 0 {
        assert(a.to_set().contains(a[0]));
    } else {
        // the first levels agree: each is in the other side, and nothing precedes
        // a side's first level
        assert(a.to_set().contains(a[0]));
        assert(b.to_set().contains(b[0]));
        let i = choose|i: int| 0 <= i < b.len() && b[i] == a[0];
        let j = choose|j: int| 0 <= j < a.len() && a[j] == b[0];
        if i > 0 && j > 0 {
            assert(precedes(b[0].price, b[i].price, is_bids));
            assert(precedes(a[0].price, a[j].price, is_bids));
        }
        if i == 0 {
            assert(b[0] == a[0]);
        } else {
            assert(j == 0);
        }
        let a1 = a.drop_first();
        let b1 = b.drop_first();
        assert forall|o: Order| a1.to_set().contains(o) <==> b1.to_set().contains(o) by {
            if a1.to_set().contains(o) {
                let k = choose|k: int| 0 <= k < a1.len() && a1[k] == o;
                assert(a[k + 1] == o);
                assert(precedes(a[0].price, a[k + 1].price, is_bids));
                assert(a.to_set().contains(o));
                let m = choose|m: int| 0 <= m < b.len() && b[m] == o;
                assert(m != 0);
                assert(b1[m - 1] == o);
            }
            if b1.to_set().contains(o) {
                let k = choose|k: int| 0 <= k < b1.len() && b1[k] == o;
                assert(b[k + 1] == o);
                assert(precedes(b[0].price, b[k + 1].price, is_bids));
                assert(b.to_set().contains(o));
                let m = choose|m: int| 0 <= m < a.len() && a[m] == o;
                assert(m != 0);
                assert(a1[m - 1] == o);
            }
        }
        assert(a1.to_set() =~= b1.to_set());
        assert forall|x: int, y: int| 0 <= x < y < a1.len() implies #[trigger] precedes(
            a1[x].price,
            a1[y].price,
            is_bids,
        ) by {
            assert(precedes(a[x + 1].price, a[y + 1].price, is_bids));
        }
        assert forall|x: int, y: int| 0 <= x < y < b1.len() implies #[trigger] precedes(
            b1[x].price,
            b1[y].price,
            is_bids,
        ) by {
            assert(precedes(b[x + 1].price, b[y + 1].price, is_bids));
        }
        assert forall|x: int| 0 <= x < a1.len() implies #[trigger] a1[x].quantity > 0 by {
            assert(a[x + 1].quantity > 0);
        }
        assert forall|x: int| 0 <= x < b1.len() implies #[trigger] b1[x].quantity > 0 by {
            assert(b[x + 1].quantity > 0);
        }
        lemma_sorted_side_unique(a1, b1, is_bids);
        assert(a[0] == b[0]);
        assert forall|k: int| 0 < k < a.len() implies a[k] == b[k] by {
            assert(a[k] == a1[k - 1]);
            assert(b[k] == b1[k - 1]);
        }
        assert(a =~= b);
    }
}

/// Merging the same batch a second time leaves the side exactly as the first
/// merge left it.
pub proof fn lemma_merge_idempotent(
    start: Seq<Order>,
    ds: Seq<Order>,
    once: Seq<Order>,
    twice: Seq<Order>,
    is_bids: bool,
)
    requires
        is_sorted_side(start, is_bids),
        is_sorted_side(once, is_bids),
        once.to_set() == apply_deltas(start.to_set(), ds),
        is_sorted_side(twice, is_bids),
        twice.to_set() == apply_deltas(once.to_set(), ds),
    ensures
        twice == once,
{
    lemma_batch_idempotent(start.to_set(), ds);
    lemma_sorted_side_unique(twice, once, is_bids);
}

/// One delta merged into a well-formed side: a zero quantity leaves no level at its
/// price, a positive quantity leaves exactly that level (in its ordered place, as
/// the result is well-formed), and every level at another price stays.
pub proof fn lemma_single_delta(old_side: Seq<Order>, d: Order, new_side: Seq<Order>, is_bids: bool)
    requires
        is_sorted_side(old_side, is_bids),
        is_sorted_side(new_side, is_bids),
        new_side.to_set() == apply_deltas(old_side.to_set(), seq![d]),
    ensures
        d.quantity == 0 ==> forall|i: int| 0 <= i < new_side.len() ==> #[trigger] new_side[i].price
            != d.price,
        d.quantity > 0 ==> new_side.contains(d),
        forall|o: Order| #[trigger]
            old_side.contains(o) && o.price != d.price ==> new_side.contains(o),
        forall|o: Order| #[trigger]
            new_side.contains(o) ==> o == d || old_side.contains(o),
{
    assert(seq![d].drop_last() =~= Seq::<Order>::empty());
    assert(apply_deltas(old_side.to_set(), Seq::<Order>::empty()) == old_side.to_set());
    assert(apply_deltas(old_side.to_set(), seq![d]) == apply_delta(old_side.to_set(), d));
    if d.quantity == 0 {
        assert forall|i: int| 0 <= i < new_side.len() implies #[trigger] new_side[i].price
            != d.price by {
            assert(new_side.to_set().contains(new_side[i]));
        }
    }
    if d.quantity > 0 {
        assert(new_side.to_set().contains(d));
    }
    assert forall|o: Order| #[trigger]
        old_side.contains(o) && o.price != d.price implies new_side.contains(o) by {
        assert(old_side.to_set().contains(o));
        assert(new_side.to_set().contains(o));
    }
    assert forall|o: Order| #[trigger] new_side.contains(o) implies o == d || old_side.contains(o) by {
        assert(new_side.to_set().contains(o));
    }
}

/// Where a level at price `p` belongs in a side: after every level that
/// precedes it.
pub open spec fn insertion_index(s: Seq<Order>, p: i64, is_bids: bool) -> int
    decreases s.len(),
{
    if s.len() == 0 || !precedes(s[0].price, p, is_bids) {
        0
    } else {
        1 + insertion_index(s.drop_first(), p, is_bids)
    }
}

proof fn lemma_insertion_index(s: Seq<Order>, p: i64, is_bids: bool)
    requires
        is_sorted_side(s, is_bids),
    ensures
        0 <= insertion_index(s, p, is_bids) <= s.len(),
        forall|j: int|
            0 <= j < s.len() ==> (precedes(s[j].price, p, is_bids) <==> j < insertion_index(
                s,
                p,
                is_bids,
            )),
    decreases s.len(),
{
    if s.len() > 0 {
        let t = s.drop_first();
        assert forall|x: int, y: int| 0 <= x < y < t.len() implies #[trigger] precedes(
            t[x].price,
            t[y].price,
            is_bids,
        ) by {
            assert(precedes(s[x + 1].price, s[y + 1].price, is_bids));
        }
        assert forall|x: int| 0 <= x < t.len() implies #[trigger] t[x].quantity > 0 by {
            assert(s[x + 1].quantity > 0);
        }
        lemma_insertion_index(t, p, is_bids);
        assert forall|j: int| 0 <= j < s.len() implies (precedes(s[j].price, p, is_bids) <==> j
            < insertion_index(s, p, is_bids)) by {
            if j > 0 {
                assert(s[j] == t[j - 1]);
                if !precedes(s[0].price, p, is_bids) {
                    assert(precedes(s[0].price, s[j].price, is_bids));
                }
            }
        }
    }
}

/// A positive delta at a price the side does not hold adds exactly that level,
/// at the place that keeps the side ordered, and nothing else.
pub proof fn lemma_new_level_inserted(
    old_side: Seq<Order>,
    d: Order,
    new_side: Seq<Order>,
    is_bids: bool,
)
    requires
        is_sorted_side(old_side, is_bids),
        is_sorted_side(new_side, is_bids),
        new_side.to_set() == apply_deltas(old_side.to_set(), seq![d]),
        d.quantity > 0,
        forall|i: int| 0 <= i < old_side.len() ==> #[trigger] old_side[i].price != d.price,
    ensures
        new_side == old_side.insert(insertion_index(old_side, d.price, is_bids), d),
        new_side.len() == old_side.len() + 1,
{
    assert(seq![d].drop_last() =~= Seq::<Order>::empty());
    assert(apply_deltas(old_side.to_set(), Seq::<Order>::empty()) == old_side.to_set());
    lemma_insertion_index(old_side, d.price, is_bids);
    let k = insertion_index(old_side, d.price, is_bids);
    let c = old_side.insert(k, d);
    assert forall|x: int, y: int| 0 <= x < y < c.len() implies #[trigger] precedes(
        c[x].price,
        c[y].price,
        is_bids,
    ) by {
        if y < k {
            assert(precedes(old_side[x].price, old_side[y].price, is_bids));
        } else if y == k {
            assert(c[x] == old_side[x]);
        } else if x < k {
            assert(precedes(old_side[x].price, old_side[y - 1].price, is_bids));
        } else if x == k {
            assert(c[y] == old_side[y - 1]);
            assert(!precedes(old_side[y - 1].price, d.price, is_bids));
            assert(old_side[y - 1].price != d.price);
        } else {
            assert(precedes(old_side[x - 1].price, old_side[y - 1].price, is_bids));
        }
    }
    assert forall|x: int| 0 <= x < c.len() implies #[trigger] c[x].quantity > 0 by {
        if x < k {
            assert(c[x] == old_side[x]);
        } else if x > k {
            assert(c[x] == old_side[x - 1]);
        }
    }
    assert forall|o: Order| c.to_set().contains(o) <==> new_side.to_set().contains(o) by {
        if c.to_set().contains(o) {
            let m = choose|m: int| 0 <= m < c.len() && c[m] == o;
            if m < k {
                assert(old_side[m] == o);
                assert(old_side.to_set().contains(o));
            } else if m > k {
                assert(old_side[m - 1] == o);
                assert(old_side.to_set().contains(o));
            }
        }
        if new_side.to_set().contains(o) && o != d {
            assert(old_side.to_set().contains(o));
            let m = choose|m: int| 0 <= m < old_side.len() && old_side[m] == o;
            if m < k {
                assert(c[m] == o);
            } else {
                assert(c[m + 1] == o);
            }
        }
        if o == d {
            assert(c[k] == d);
        }
    }
    assert(c.to_set() =~= new_side.to_set());
    lemma_sorted_side_unique(new_side, c, is_bids);
}

fn precedes_exec(a: i64, b: i64, is_bids: bool) -> (r: bool)
    ensures
        r == precedes(a, b, is_bids),
{
    if is_bids {
        a > b
    } else {
        a < b
    }
}

/// Applies one delta to a well-formed side, keeping it well-formed.
fn apply_level(side: &mut Vec<Order>, d: Order, is_bids: bool)
    requires
        is_sorted_side(old(side)@, is_bids),
    ensures
        is_sorted_side(final(side)@, is_bids),
        final(side)@.to_set() == apply_delta(old(side)@.to_set(), d),
{
    let ghost s = side@;
    let mut i: usize = 0;
    while i < side.len() && precedes_exec(side[i].price, d.price, is_bids)
        invariant
            side@ == s,
            0 <= i <= s.len(),
            forall|j: int| 0 <= j < i ==> #[trigger] precedes(s[j].price, d.price, is_bids),
        decreases s.len() - i,
    {
        i = i + 1;
    }
    // every level from `i` on stands after the delta's price, or at it (only at `i`)
    assert forall|j: int| i < j < s.len() implies precedes(d.price, #[trigger] s[j].price, is_bids) by {
        assert(precedes(s[i as int].price, s[j].price, is_bids));
    }
    let ghost at_price = i < s.len() && s[i as int].price == d.price;
    assert forall|j: int| 0 <= j < s.len() && (j != i || !at_price) implies #[trigger] s[j].price
        != d.price by {
        if j < i {
            assert(precedes(s[j].price, d.price, is_bids));
        } else if j > i {
            assert(precedes(d.price, s[j].price, is_bids));
        }
    }
    let ghost target = apply_delta(s.to_set(), d);
    if i < side.len() && side[i].price == d.price {
        if d.quantity > 0 {
            side.set(i, d);
            assert forall|o: Order| side@.to_set().contains(o) <==> target.contains(o) by {
                if target.contains(o) {
                    if o != d {
                        let k = choose|k: int| 0 <= k < s.len() && s[k] == o;
                        assert(side@[k] == o);
                    } else {
                        assert(side@[i as int] == o);
                    }
                }
                if side@.to_set().contains(o) {
                    let k = choose|k: int| 0 <= k < side@.len() && side@[k] == o;
                    if k != i {
                        assert(s[k] == o);
                        assert(s.contains(o));
                    }
                }
            }
            assert(side@.to_set() =~= target);
        } else {
            side.remove(i);
            assert forall|o: Order| side@.to_set().contains(o) <==> target.contains(o) by {
                if target.contains(o) {
                    let k = choose|k: int| 0 <= k < s.len() && s[k] == o;
                    if k < i {
                        assert(side@[k] == o);
                    } else {
                        assert(side@[k - 1] == o);
                    }
                }
                if side@.to_set().contains(o) {
                    let k = choose|k: int| 0 <= k < side@.len() && side@[k] == o;
                    if k < i {
                        assert(s[k] == o);
                    } else {
                        assert(s[k + 1] == o);
                    }
                    assert(s.contains(o));
                }
            }
            assert(side@.to_set() =~= target);
        }
    } else if d.quantity > 0 {
        side.insert(i, d);
        assert forall|o: Order| side@.to_set().contains(o) <==> target.contains(o) by {
            if target.contains(o) {
                if o != d {
                    let k = choose|k: int| 0 <= k < s.len() && s[k] == o;
                    if k < i {
                        assert(side@[k] == o);
                    } else {
                        assert(side@[k + 1] == o);
                    }
                } else {
                    assert(side@[i as int] == o);
                }
            }
            if side@.to_set().contains(o) {
                let k = choose|k: int| 0 <= k < side@.len() && side@[k] == o;
                if k < i {
                    assert(s[k] == o);
                    assert(s.contains(o));
                } else if k > i {
                    assert(s[k - 1] == o);
                    assert(s.contains(o));
                }
            }
        }
        assert(side@.to_set() =~= target);
    } else {
        assert forall|o: Order| s.to_set().contains(o) <==> target.contains(o) by {
            if s.to_set().contains(o) {
                let k = choose|k: int| 0 <= k < s.len() && s[k] == o;
                assert(o.price != d.price);
            }
        }
        assert(s.to_set() =~= target);
    }
}

/// Folds a batch of deltas into one side of a book, in order: a positive quantity
/// sets (or adds) the level at its price, any other quantity removes the level at
/// its price if there is one. The side stays strictly ordered with positive
/// quantities.
pub fn merge_order_book_updates(existing: &mut Vec<Order>, updates: &[Order], is_bids: bool)
    requires
        is_sorted_side(old(existing)@, is_bids),
    ensures
        is_sorted_side(final(existing)@, is_bids),
        final(existing)@.to_set() == apply_deltas(old(existing)@.to_set(), updates@),
{
    let ghost start = existing@.to_set();
    let mut k: usize = 0;
    while k < updates.len()
        invariant
            0 <= k <= updates@.len(),
            is_sorted_side(existing@, is_bids),
            existing@.to_set() == apply_deltas(start, updates@.subrange(0, k as int)),
        decreases updates@.len() - k,
    {
        apply_level(existing, updates[k], is_bids);
        assert(updates@.subrange(0, k + 1).drop_last() =~= updates@.subrange(0, k as int));
        k = k + 1;
    }
    assert(updates@.subrange(0, updates@.len() as int) =~= updates@);
}

} // verus!
