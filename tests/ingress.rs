use perp_dex::book::Side;
use perp_dex::ingress::{parse_units, units_from_decimal, IngressError, OrderRequest};

fn request(price: &str, quantity: &str, side: &str) -> OrderRequest {
    OrderRequest {
        user_id: "Alice".to_string(),
        price: price.to_string(),
        quantity: quantity.to_string(),
        side: side.to_string(),
    }
}

#[test]
fn decimal_text_becomes_fixed_point_units() {
    assert_eq!(parse_units("100"), Some(100_000_000));
    assert_eq!(parse_units("1.5"), Some(1_500_000));
    assert_eq!(parse_units("0.000001"), Some(1));
    assert_eq!(parse_units("150.25"), Some(150_250_000));
}

#[test]
fn decimal_text_with_too_many_digits_or_no_number_is_refused() {
    assert_eq!(parse_units("0.0000001"), None);
    assert_eq!(parse_units("abc"), None);
    assert_eq!(parse_units("-1"), None);
    assert_eq!(parse_units("18446744073709.551616"), None);
    assert_eq!(parse_units("18446744073709.551615"), Some(u64::MAX));
}

#[test]
fn units_from_mantissa_and_scale() {
    assert_eq!(units_from_decimal(150, 2), Some(1_500_000));
    assert_eq!(units_from_decimal(7, 6), Some(7));
    assert_eq!(units_from_decimal(7, 7), None);
    assert_eq!(units_from_decimal(-7, 0), None);
}

#[test]
fn order_request_becomes_order() {
    let o = request("100.5", "2", "BUY").to_order().unwrap();
    assert_eq!(o.user_id, "Alice");
    assert_eq!(o.price, 100_500_000);
    assert_eq!(o.quantity, 2_000_000);
    assert_eq!(o.side, Side::Buy);
    let s = request("1", "1", "SELL").to_order().unwrap();
    assert_eq!(s.side, Side::Sell);
}

#[test]
fn malformed_order_requests_are_rejected() {
    assert_eq!(request("x", "1", "BUY").to_order().unwrap_err(), IngressError::InvalidDecimal);
    assert_eq!(request("1", "1.1234567", "BUY").to_order().unwrap_err(), IngressError::InvalidDecimal);
    assert_eq!(request("0", "1", "BUY").to_order().unwrap_err(), IngressError::NonPositive);
    assert_eq!(request("1", "0.0", "SELL").to_order().unwrap_err(), IngressError::NonPositive);
    assert_eq!(request("1", "1", "HOLD").to_order().unwrap_err(), IngressError::UnknownSide);
}
