use crate::book::{Order, Side};
use vstd::prelude::*;

verus! {

/// The number a decimal text denotes, as a mantissa and a count of fractional
/// digits (`"1.50"` is `(150, 2)`), or `None` where the text is not a decimal.
pub uninterp spec fn decimal_of(s: Seq<char>) -> Option<(int, int)>;

/// Relies on rust_decimal's `Decimal::from_str`, `mantissa` and `scale`: the
/// parsed number depends on the text alone; its scale is at most 28 and its
/// mantissa is held in 96 bits and a sign.
#[verifier::external_body]
fn parse_decimal(s: &str) -> (r: Option<(i128, u32)>)
    ensures
        match r {
            Some((m, sc)) => {
                &&& decimal_of(s@) == Some((m as int, sc as int))
                &&& sc <= 28
                &&& -0x1_0000_0000_0000_0000_0000_0000 < m < 0x1_0000_0000_0000_0000_0000_0000
            },
            None => decimal_of(s@).is_none(),
        },
{
    match <rust_decimal::Decimal as std::str::FromStr>::from_str(s) {
        Ok(d) => Some((d.mantissa(), d.scale())),
        Err(_) => None,
    }
}

pub open spec fn pow10(n: nat) -> int
    decreases n,
{
    if n == 0 {
        1
    } else {
        10 * pow10((n - 1) as nat)
    }
}

/// Fixed-point units (millionths) of the decimal `mantissa / 10^scale`: `None`
/// where it is negative, has more than six fractional digits or exceeds a `u64`.
pub open spec fn fixed_units(mantissa: int, scale: int) -> Option<int> {
    if mantissa < 0 || scale < 0 || scale > 6 {
        None
    } else {
        let u = mantissa * pow10((6 - scale) as nat);
        if u > u64::MAX {
            None
        } else {
            Some(u)
        }
    }
}

/// Converts the decimal `mantissa / 10^scale` to fixed-point units without loss.
pub fn units_from_decimal(mantissa: i128, scale: u32) -> (r: Option<u64>)
    ensures
        r.is_some() == fixed_units(mantissa as int, scale as int).is_some(),
        r matches Some(v) ==> fixed_units(mantissa as int, scale as int) == Some(v as int),
{
    if mantissa < 0 || scale > 6 {
        return None;
    }
    let mut u: u128 = mantissa as u128;
    let mut k: u32 = scale;
    while k < 6
        invariant
            scale <= k <= 6,
            0 <= mantissa,
            u as int == mantissa * pow10((k - scale) as nat),
            k == scale || u <= 10 * (u64::MAX as int),
            mantissa <= i128::MAX,
        decreases 6 - k,
    {
        if u > u64::MAX as u128 {
            proof {
                lemma_pow10_grows((k - scale) as nat, (6 - scale) as nat);
                assert(mantissa * pow10((6 - scale) as nat) >= mantissa * pow10((k - scale) as nat)) by (nonlinear_arith)
                    requires
                        pow10((6 - scale) as nat) >= pow10((k - scale) as nat),
                        mantissa >= 0,
                ;
            }
            return None;
        }
        assert(pow10((k + 1 - scale) as nat) == 10 * pow10((k - scale) as nat));
        assert(mantissa * pow10((k + 1 - scale) as nat) == 10 * (mantissa * pow10((k - scale) as nat))) by (nonlinear_arith)
            requires
                pow10((k + 1 - scale) as nat) == 10 * pow10((k - scale) as nat),
        ;
        u = u * 10;
        k = k + 1;
    }
    if u > u64::MAX as u128 {
        None
    } else {
        Some(u as u64)
    }
}

proof fn lemma_pow10_grows(a: nat, b: nat)
    requires
        a <= b,
    ensures
        pow10(a) <= pow10(b),
        pow10(a) >= 1,
    decreases b,
{
    if b > a {
        lemma_pow10_grows(a, (b - 1) as nat);
    } else if a > 0 {
        lemma_pow10_grows((a - 1) as nat, (a - 1) as nat);
    }
}

/// Fixed-point units of a decimal text, as `units_from_decimal` gives them.
pub open spec fn units_of_text(s: Seq<char>) -> Option<int> {
    match decimal_of(s) {
        Some((m, sc)) => fixed_units(m, sc),
        None => None,
    }
}

/// Parses a decimal text into fixed-point units.
pub fn parse_units(s: &str) -> (r: Option<u64>)
    ensures
        r.is_some() == units_of_text(s@).is_some(),
        r matches Some(v) ==> units_of_text(s@) == Some(v as int),
{
    match parse_decimal(s) {
        Some((m, sc)) => units_from_decimal(m, sc),
        None => None,
    }
}

/// An order as it arrives at the ingress: every field is text.
#[derive(Debug, Clone)]
pub struct OrderRequest {
    pub user_id: String,
    pub price: String,
    pub quantity: String,
    pub side: String,
}

/// Why the ingress turns an order away.
#[derive(Debug, Clone, Copy, PartialEq, Eq, Structural)]
pub enum IngressError {
    InvalidDecimal,
    NonPositive,
    UnknownSide,
}

pub open spec fn side_of(s: Seq<char>) -> Option<Side> {
    if s == seq!['B', 'U', 'Y'] {
        Some(Side::Buy)
    } else if s == seq!['S', 'E', 'L', 'L'] {
        Some(Side::Sell)
    } else {
        None
    }
}

/// Price, quantity and side of a request, or why it is rejected: the price
/// is looked at first, then the quantity, then the side.
pub open spec fn request_terms(price: Seq<char>, quantity: Seq<char>, side: Seq<char>) -> Result<(int, int, Side), IngressError> {
    let p = units_of_text(price);
    let q = units_of_text(quantity);
    if p.is_none() || q.is_none() {
        Err(IngressError::InvalidDecimal)
    } else if p.unwrap() == 0 || q.unwrap() == 0 {
        Err(IngressError::NonPositive)
    } else {
        match side_of(side) {
            Some(sd) => Ok((p.unwrap(), q.unwrap(), sd)),
            None => Err(IngressError::UnknownSide),
        }
    }
}

fn parse_side(s: &String) -> (r: Option<Side>)
    ensures
        r == side_of(s@),
{
    let buy = "BUY".to_owned();
    let sell = "SELL".to_owned();
    proof {
        reveal_strlit("BUY");
        reveal_strlit("SELL");
        assert(buy@ =~= seq!['B', 'U', 'Y']);
        assert(sell@ =~= seq!['S', 'E', 'L', 'L']);
    }
    if *s == buy {
        Some(Side::Buy)
    } else if *s == sell {
        Some(Side::Sell)
    } else {
        None
    }
}

impl OrderRequest {
    /// The engine's order for this request, in fixed-point units.
    pub fn to_order(&self) -> (r: Result<Order, IngressError>)
        ensures
            match request_terms(self.price@, self.quantity@, self.side@) {
                Ok((p, q, sd)) => r matches Ok(o) && o.user_id@ == self.user_id@ && o.price == p && o.quantity == q
                    && o.side == sd,
                Err(e) => r == Err::<Order, IngressError>(e),
            },
    {
        let price = parse_units(self.price.as_str());
        let quantity = parse_units(self.quantity.as_str());
        match (price, quantity) {
            (Some(p), Some(q)) => {
                if p == 0 || q == 0 {
                    return Err(IngressError::NonPositive);
                }
                match parse_side(&self.side) {
                    Some(side) => Ok(Order { user_id: self.user_id.clone(), price: p, quantity: q, side }),
                    None => Err(IngressError::UnknownSide),
                }
            },
            _ => Err(IngressError::InvalidDecimal),
        }
    }
}

} // verus!
