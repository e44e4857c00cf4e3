use global_price_index::merge::merge_order_book_updates;
use global_price_index::models::Order;

fn o(price: i64, quantity: i64) -> Order {
    Order { price, quantity }
}

#[test]
fn zero_quantity_removes_existing_level() {
    let mut bids = vec![o(300, 1), o(200, 2), o(100, 3)];
    merge_order_book_updates(&mut bids, &[o(200, 0)], true);
    assert_eq!(bids, vec![o(300, 1), o(100, 3)]);
}

#[test]
fn zero_quantity_for_missing_price_is_a_no_op() {
    let mut asks = vec![o(100, 1), o(200, 2)];
    merge_order_book_updates(&mut asks, &[o(150, 0)], false);
    assert_eq!(asks, vec![o(100, 1), o(200, 2)]);
}

#[test]
fn new_price_is_inserted_in_sorted_position() {
    let mut bids = vec![o(300, 1), o(100, 3)];
    merge_order_book_updates(&mut bids, &[o(200, 5), o(400, 1), o(50, 2)], true);
    assert_eq!(bids, vec![o(400, 1), o(300, 1), o(200, 5), o(100, 3), o(50, 2)]);

    let mut asks = vec![o(100, 1), o(300, 3)];
    merge_order_book_updates(&mut asks, &[o(200, 5), o(50, 1), o(400, 2)], false);
    assert_eq!(asks, vec![o(50, 1), o(100, 1), o(200, 5), o(300, 3), o(400, 2)]);
}

#[test]
fn positive_quantity_replaces_existing_level() {
    let mut asks = vec![o(100, 1), o(200, 2)];
    merge_order_book_updates(&mut asks, &[o(200, 7)], false);
    assert_eq!(asks, vec![o(100, 1), o(200, 7)]);
}

#[test]
fn last_delta_for_a_price_wins() {
    let mut bids = vec![o(100, 1)];
    merge_order_book_updates(&mut bids, &[o(200, 1), o(200, 0), o(100, 0), o(100, 9), o(200, 4)], true);
    assert_eq!(bids, vec![o(200, 4), o(100, 9)]);
}

#[test]
fn repeating_a_batch_changes_nothing() {
    let batch = [o(150, 2), o(100, 0), o(175, 3), o(150, 5)];
    let mut asks = vec![o(100, 1), o(200, 2)];
    merge_order_book_updates(&mut asks, &batch, false);
    let once = asks.clone();
    merge_order_book_updates(&mut asks, &batch, false);
    assert_eq!(asks, once);
    assert_eq!(once, vec![o(150, 5), o(175, 3), o(200, 2)]);
}

#[test]
fn merge_into_empty_side_and_empty_batch() {
    let mut bids: Vec<Order> = vec![];
    merge_order_book_updates(&mut bids, &[], true);
    assert!(bids.is_empty());
    merge_order_book_updates(&mut bids, &[o(5, 1), o(7, 0), o(9, 2)], true);
    assert_eq!(bids, vec![o(9, 2), o(5, 1)]);
}

#[test]
fn negative_quantity_removes_like_zero() {
    let mut bids = vec![o(300, 1), o(200, 2)];
    merge_order_book_updates(&mut bids, &[o(300, -1)], true);
    assert_eq!(bids, vec![o(200, 2)]);
}
