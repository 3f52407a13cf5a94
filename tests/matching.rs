use perp_dex::book::{Engine, MatchResult, Order, Side};

fn order(user: &str, side: Side, price: u64, quantity: u64) -> Order {
    Order { user_id: user.to_string(), price, quantity, side }
}

fn resting(book: &[Order]) -> Vec<(String, u64, u64)> {
    book.iter().map(|o| (o.user_id.clone(), o.price, o.quantity)).collect()
}

fn summary(m: &MatchResult) -> (u64, u64, u64, String, String) {
    (m.trade_id, m.price, m.quantity, m.buyer_id.clone(), m.seller_id.clone())
}

#[test]
fn passive_resting_then_cross() {
    let mut e = Engine::new();
    let first = e.match_order(order("A", Side::Sell, 100, 5));
    assert!(first.is_empty());
    assert_eq!(resting(&e.asks), vec![("A".to_string(), 100, 5)]);
    let out = e.match_order(order("B", Side::Buy, 100, 3));
    assert_eq!(out.len(), 1);
    assert_eq!(summary(&out[0]), (1, 100, 3, "B".to_string(), "A".to_string()));
    assert_eq!(resting(&e.asks), vec![("A".to_string(), 100, 2)]);
    assert!(e.bids.is_empty());
}

#[test]
fn price_improvement_goes_to_taker() {
    let mut e = Engine::new();
    e.match_order(order("A", Side::Sell, 100, 5));
    let out = e.match_order(order("B", Side::Buy, 110, 5));
    assert_eq!(out.len(), 1);
    assert_eq!(summary(&out[0]), (1, 100, 5, "B".to_string(), "A".to_string()));
    assert!(e.asks.is_empty());
    assert!(e.bids.is_empty());
}

#[test]
fn fifo_within_price() {
    let mut e = Engine::new();
    e.match_order(order("A", Side::Sell, 100, 2));
    e.match_order(order("C", Side::Sell, 100, 2));
    let out = e.match_order(order("B", Side::Buy, 100, 3));
    assert_eq!(out.len(), 2);
    assert_eq!(summary(&out[0]), (1, 100, 2, "B".to_string(), "A".to_string()));
    assert_eq!(summary(&out[1]), (2, 100, 1, "B".to_string(), "C".to_string()));
    assert_eq!(resting(&e.asks), vec![("C".to_string(), 100, 1)]);
}

#[test]
fn sell_taker_walks_bids_best_first_and_rests_remainder() {
    let mut e = Engine::new();
    e.match_order(order("A", Side::Buy, 99, 4));
    e.match_order(order("C", Side::Buy, 101, 1));
    e.match_order(order("D", Side::Buy, 100, 2));
    assert_eq!(
        resting(&e.bids),
        vec![("C".to_string(), 101, 1), ("D".to_string(), 100, 2), ("A".to_string(), 99, 4)]
    );
    let out = e.match_order(order("S", Side::Sell, 100, 5));
    assert_eq!(out.len(), 2);
    assert_eq!(summary(&out[0]), (1, 101, 1, "C".to_string(), "S".to_string()));
    assert_eq!(summary(&out[1]), (2, 100, 2, "D".to_string(), "S".to_string()));
    assert_eq!(resting(&e.bids), vec![("A".to_string(), 99, 4)]);
    assert_eq!(resting(&e.asks), vec![("S".to_string(), 100, 2)]);
    assert!(e.bids[0].price < e.asks[0].price);
}

#[test]
fn non_crossing_orders_rest_on_both_sides() {
    let mut e = Engine::new();
    assert!(e.match_order(order("A", Side::Buy, 90, 1)).is_empty());
    assert!(e.match_order(order("B", Side::Sell, 95, 1)).is_empty());
    assert_eq!(e.bids.len(), 1);
    assert_eq!(e.asks.len(), 1);
    assert_eq!(e.trade_counter, 0);
}

#[test]
fn trade_ids_increase_across_orders() {
    let mut e = Engine::new();
    e.match_order(order("A", Side::Sell, 100, 1));
    e.match_order(order("C", Side::Sell, 101, 1));
    e.match_order(order("D", Side::Sell, 102, 1));
    let first = e.match_order(order("B", Side::Buy, 101, 2));
    let second = e.match_order(order("B", Side::Buy, 105, 1));
    let ids: Vec<u64> = first.iter().chain(second.iter()).map(|m| m.trade_id).collect();
    assert_eq!(ids, vec![1, 2, 3]);
    assert_eq!(e.trade_counter, 3);
}

#[test]
fn filled_quantity_matches_book_reduction() {
    let mut e = Engine::new();
    e.match_order(order("A", Side::Sell, 100, 3));
    e.match_order(order("C", Side::Sell, 100, 4));
    e.match_order(order("D", Side::Sell, 102, 5));
    let before: u64 = e.asks.iter().map(|o| o.quantity).sum();
    let out = e.match_order(order("B", Side::Buy, 102, 9));
    let filled: u64 = out.iter().map(|m| m.quantity).sum();
    let after: u64 = e.asks.iter().map(|o| o.quantity).sum();
    assert_eq!(filled, 9);
    assert_eq!(before - after, filled);
    assert_eq!(resting(&e.asks), vec![("D".to_string(), 102, 3)]);
}

#[test]
fn taker_larger_than_book_rests_at_its_limit() {
    let mut e = Engine::new();
    e.match_order(order("A", Side::Sell, 100, 2));
    let out = e.match_order(order("B", Side::Buy, 105, 7));
    assert_eq!(out.len(), 1);
    assert_eq!(out[0].quantity, 2);
    assert!(e.asks.is_empty());
    assert_eq!(resting(&e.bids), vec![("B".to_string(), 105, 5)]);
}
