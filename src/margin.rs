use vstd::prelude::*;

verus! {

/// Fixed number of position slots in a margin account.
pub const MAX_POSITIONS: usize = 8;

/// Length of a market tag, zero-padded.
pub const MARKET_NAME_LEN: usize = 16;

/// Collateral may back at most this multiple of itself in notional.
pub const MAX_LEVERAGE: u64 = 10;

/// Fixed-point scale shared by prices, sizes and collateral.
pub const FIXED_POINT_SCALE: u64 = 1_000_000;

/// Reasons for which the on-chain handlers abort a transaction.
#[derive(Debug, Clone, Copy, PartialEq, Eq, Structural)]
pub enum PerpError {
    MissingSignature,
    InvalidSignatureProgram,
    StaleNonce,
    PriceOutOfBounds,
    ZeroPositionSize,
    InsufficientCollateral,
    MathOverflow,
    MaxPositionsReached,
    TradeMessageMismatch,
}

/// One open position: a signed size in fixed-point units (positive is long)
/// and the average price at which it was entered.
#[derive(Debug, Clone, Copy)]
pub struct Position {
    pub market: [u8; 16],
    pub size: i64,
    pub avg_entry_price: u64,
}

impl Position {
    /// The content of a free slot.
    pub open spec fn is_empty_slot(self) -> bool {
        &&& self.size == 0
        &&& self.avg_entry_price == 0
        &&& forall|k: int| 0 <= k < 16 ==> self.market@[k] == 0u8
    }

    pub fn empty() -> (r: Position)
        ensures
            r.is_empty_slot(),
    {
        Position { market: [0u8; 16], size: 0, avg_entry_price: 0 }
    }
}

/// Static settings of the exchange program.
#[derive(Debug, Clone, Copy)]
pub struct EngineConfig {
    pub authority: [u8; 32],
    pub engine_signer: [u8; 32],
    pub usdc_mint: [u8; 32],
    pub maintenance_margin_bps: u16,
    pub bump: u8,
}

/// Sets up the program's configuration with the key that must sign every trade.
pub fn initialize(authority: [u8; 32], engine_signer: [u8; 32], bump: u8) -> (r: EngineConfig)
    ensures
        r.authority == authority,
        r.engine_signer == engine_signer,
        r.bump == bump,
        r.maintenance_margin_bps == 0,
        forall|k: int| 0 <= k < 32 ==> r.usdc_mint@[k] == 0u8,
{
    EngineConfig {
        authority,
        engine_signer,
        usdc_mint: [0u8; 32],
        maintenance_margin_bps: 0,
        bump,
    }
}

/// A user's collateral, positions and replay-protection nonce.
#[derive(Debug, Clone, Copy)]
pub struct MarginAccount {
    pub owner: [u8; 32],
    pub collateral: u64,
    pub positions: [Position; 8],
    pub position_count: u8,
    pub nonce: u64,
    pub bump: u8,
}

impl MarginAccount {
    /// Open positions fill the slots below `position_count`, each with a
    /// non-zero size and its own market; the other slots are free.
    pub open spec fn wf(self) -> bool {
        let ps = self.positions@;
        let n = self.position_count as int;
        &&& n <= MAX_POSITIONS
        &&& forall|i: int| 0 <= i < n ==> ps[i].size != 0
        &&& forall|i: int| n <= i < MAX_POSITIONS ==> ps[i].is_empty_slot()
        &&& forall|i: int, j: int| 0 <= i < n && 0 <= j < n && i != j ==> ps[i].market@ != ps[j].market@
    }

    /// The open positions, in slot order.
    pub open spec fn open_positions(self) -> Seq<Position> {
        self.positions@.take(self.position_count as int)
    }

    /// Whether the account's state after a fill is `o`, with the fields that a
    /// fill does not touch kept.
    pub open spec fn holds_outcome(self, before: MarginAccount, o: FillOutcome) -> bool {
        &&& self.wf()
        &&& self.collateral == o.collateral
        &&& self.open_positions() == o.open
        &&& self.owner == before.owner
        &&& self.bump == before.bump
    }
}

pub open spec fn abs(x: int) -> int {
    if x < 0 {
        -x
    } else {
        x
    }
}

/// Integer division that rounds toward zero, as signed machine division does.
pub open spec fn div_toward_zero(x: int, d: int) -> int {
    if x >= 0 {
        x / d
    } else {
        -((-x) / d)
    }
}

/// Collateral gained (or lost, when negative) by a fill of `qty_delta` at `price`
/// against a position of `size` entered at `avg`: only the part that closes the
/// position is realized.
pub open spec fn realized_pnl(size: int, avg: int, qty_delta: int, price: int) -> int {
    if size != 0 && (size > 0) != (qty_delta > 0) {
        let closed = if abs(size) <= abs(qty_delta) {
            abs(size)
        } else {
            abs(qty_delta)
        };
        let per_unit = if size > 0 {
            price - avg
        } else {
            avg - price
        };
        div_toward_zero(per_unit * closed, FIXED_POINT_SCALE as int)
    } else {
        0
    }
}

/// Entry price of a position after a fill that leaves it non-zero: the weighted
/// average while it keeps its side, the fill price once it has flipped.
pub open spec fn next_entry_price(size: int, avg: int, qty_delta: int, price: int) -> int {
    let new_size = size + qty_delta;
    if (new_size > 0) == (size > 0) {
        (avg * abs(size) + price * abs(qty_delta)) / abs(new_size)
    } else {
        price
    }
}

/// Notional of a list of positions, each valued at `price`.
pub open spec fn notional(ps: Seq<Position>, price: int) -> int
    decreases ps.len(),
{
    if ps.len() == 0 {
        0
    } else {
        notional(ps.drop_last(), price) + (abs(ps.last().size as int) * price) / (FIXED_POINT_SCALE as int)
    }
}

/// The leverage rule: collateral times the maximum leverage covers the
/// notional of the open positions at `price`.
pub open spec fn leverage_ok(collateral: int, open: Seq<Position>, price: int) -> bool {
    collateral * (MAX_LEVERAGE as int) >= notional(open, price)
}

/// Index of the first slot from `start` up to (not including) `end` that
/// holds `market`.
pub open spec fn market_slot(ps: Seq<Position>, start: int, end: int, market: Seq<u8>) -> Option<int>
    decreases end - start,
{
    if start >= end {
        None
    } else if ps[start].market@ == market {
        Some(start)
    } else {
        market_slot(ps, start + 1, end, market)
    }
}

/// Collateral and open positions of an account after a fill.
pub struct FillOutcome {
    pub collateral: int,
    pub open: Seq<Position>,
}

/// What applying a signed fill to an account yields: the new state, or the
/// reason for which the transaction aborts. A closed position's slot is taken
/// by the last open one. A zero fill leaves an open position as it is and
/// opens no new one.
pub open spec fn fill_outcome(acc: MarginAccount, market: [u8; 16], qty_delta: int, price: int) -> Result<FillOutcome, PerpError> {
    let open = acc.open_positions();
    let staged: Result<FillOutcome, PerpError> = {
        match market_slot(open, 0, open.len() as int, market@) {
            None => if open.len() >= MAX_POSITIONS {
                Err(PerpError::MaxPositionsReached)
            } else if qty_delta == 0 {
                Err(PerpError::ZeroPositionSize)
            } else {
                Ok(FillOutcome {
                    collateral: acc.collateral as int,
                    open: open.push(Position { market, size: qty_delta as i64, avg_entry_price: price as u64 }),
                })
            },
            Some(i) => {
                let pos = open[i];
                let collateral = acc.collateral + realized_pnl(pos.size as int, pos.avg_entry_price as int, qty_delta, price);
                let new_size = pos.size + qty_delta;
                if collateral < 0 || collateral > u64::MAX {
                    Err(PerpError::MathOverflow)
                } else if new_size < i64::MIN || new_size > i64::MAX {
                    Err(PerpError::MathOverflow)
                } else if new_size == 0 {
                    Ok(FillOutcome { collateral, open: open.update(i, open.last()).drop_last() })
                } else {
                    let avg = next_entry_price(pos.size as int, pos.avg_entry_price as int, qty_delta, price);
                    if avg > u64::MAX {
                        Err(PerpError::MathOverflow)
                    } else {
                        Ok(FillOutcome {
                            collateral,
                            open: open.update(i, Position { market: pos.market, size: new_size as i64, avg_entry_price: avg as u64 }),
                        })
                    }
                }
            },
        }
    };
    match staged {
        Ok(o) => if leverage_ok(o.collateral, o.open, price) {
            Ok(o)
        } else {
            Err(PerpError::InsufficientCollateral)
        },
        Err(e) => Err(e),
    }
}

proof fn lemma_market_slot(ps: Seq<Position>, start: int, end: int, market: Seq<u8>)
    requires
        0 <= start,
        end <= ps.len(),
    ensures
        match market_slot(ps, start, end, market) {
            Some(i) => start <= i < end && ps[i].market@ == market,
            None => forall|j: int| start <= j < end ==> ps[j].market@ != market,
        },
    decreases end - start,
{
    if start < end && ps[start].market@ != market {
        lemma_market_slot(ps, start + 1, end, market);
    }
}

fn markets_equal(a: &[u8; 16], b: &[u8; 16]) -> (r: bool)
    ensures
        r == (a@ == b@),
{
    let mut k: usize = 0;
    while k < 16
        invariant
            k <= 16,
            forall|j: int| 0 <= j < k ==> a@[j] == b@[j],
        decreases 16 - k,
    {
        if a[k] != b[k] {
            return false;
        }
        k = k + 1;
    }
    assert(a@ =~= b@);
    true
}

/// Slot of the open position in `market`, if there is one.
fn find_market(acc: &MarginAccount, market: &[u8; 16]) -> (r: Option<usize>)
    requires
        acc.wf(),
    ensures
        match market_slot(acc.open_positions(), 0, acc.position_count as int, market@) {
            Some(i) => r == Some(i as usize),
            None => r.is_none(),
        },
{
    let ghost open = acc.open_positions();
    let n = acc.position_count as usize;
    let mut i: usize = 0;
    while i < n
        invariant
            n == acc.position_count,
            n <= MAX_POSITIONS,
            i <= n,
            open == acc.open_positions(),
            market_slot(open, 0, n as int, market@) == market_slot(open, i as int, n as int, market@),
        decreases n - i,
    {
        if markets_equal(&acc.positions[i].market, market) {
            return Some(i);
        }
        i = i + 1;
    }
    None
}

fn abs_u128(x: i64) -> (r: u128)
    ensures
        r == abs(x as int),
{
    if x >= 0 {
        x as u128
    } else {
        (0 - (x as i128)) as u128
    }
}

/// Realized PnL of a fill, in collateral units.
fn pnl_of_fill(size: i64, avg: u64, qty_delta: i64, price: u64) -> (r: i128)
    ensures
        r == realized_pnl(size as int, avg as int, qty_delta as int, price as int),
        r > i128::MIN,
{
    if size != 0 && (size > 0) != (qty_delta > 0) {
        let a = abs_u128(size);
        let b = abs_u128(qty_delta);
        let closed: u128 = if a <= b { a } else { b };
        let per_unit: i128 = if size > 0 {
            price as i128 - avg as i128
        } else {
            avg as i128 - price as i128
        };
        assert(closed <= 0x8000_0000_0000_0000);
        let mag: u128 = if per_unit >= 0 { per_unit as u128 } else { (0 - per_unit) as u128 };
        assert(mag < 0x1_0000_0000_0000_0000);
        assert(mag * closed <= 0xffff_ffff_ffff_ffff * 0x8000_0000_0000_0000) by (nonlinear_arith)
            requires
                mag < 0x1_0000_0000_0000_0000,
                closed <= 0x8000_0000_0000_0000,
        ;
        let prod: u128 = mag * closed;
        let q: u128 = prod / (FIXED_POINT_SCALE as u128);
        assert(q <= prod);
        proof {
            if per_unit >= 0 {
                assert(per_unit as int * closed as int == prod as int);
            } else {
                assert(per_unit as int * closed as int == -(prod as int)) by (nonlinear_arith)
                    requires
                        mag as int == -(per_unit as int),
                        prod as int == mag as int * closed as int,
                ;
            }
        }
        if per_unit >= 0 {
            q as i128
        } else {
            0 - (q as i128)
        }
    } else {
        0
    }
}

/// Weighted entry price, or `None` where it does not fit in a `u64`.
fn entry_price_of_fill(size: i64, avg: u64, qty_delta: i64, price: u64, new_size: i64) -> (r: Option<u64>)
    requires
        new_size != 0,
        new_size as int == size as int + qty_delta as int,
    ensures
        match r {
            Some(v) => v as int == next_entry_price(size as int, avg as int, qty_delta as int, price as int),
            None => next_entry_price(size as int, avg as int, qty_delta as int, price as int) > u64::MAX,
        },
{
    if (new_size > 0) == (size > 0) {
        let a = abs_u128(size);
        let b = abs_u128(qty_delta);
        let c = abs_u128(new_size);
        assert(avg * a <= 0xffff_ffff_ffff_ffff * 0x8000_0000_0000_0000) by (nonlinear_arith)
            requires
                avg <= 0xffff_ffff_ffff_ffff,
                a <= 0x8000_0000_0000_0000,
        ;
        assert(price * b <= 0xffff_ffff_ffff_ffff * 0x8000_0000_0000_0000) by (nonlinear_arith)
            requires
                price <= 0xffff_ffff_ffff_ffff,
                b <= 0x8000_0000_0000_0000,
        ;
        let v: u128 = ((avg as u128) * a + (price as u128) * b) / c;
        if v > u64::MAX as u128 {
            None
        } else {
            Some(v as u64)
        }
    } else {
        Some(price)
    }
}

/// Sum over the first `n` slots of each position's notional at `price`.
fn total_notional(positions: &[Position; 8], n: usize, price: u64) -> (r: u128)
    requires
        n <= MAX_POSITIONS,
    ensures
        r == notional(positions@.take(n as int), price as int),
{
    let mut total: u128 = 0;
    let mut i: usize = 0;
    while i < n
        invariant
            i <= n,
            n <= MAX_POSITIONS,
            total == notional(positions@.take(i as int), price as int),
            total <= i * 0x1_0000_0000_0000_0000_0000_0000_0000,
        decreases n - i,
    {
        let a = abs_u128(positions[i].size);
        assert(a * price <= 0x8000_0000_0000_0000 * 0xffff_ffff_ffff_ffff) by (nonlinear_arith)
            requires
                a <= 0x8000_0000_0000_0000,
                price <= 0xffff_ffff_ffff_ffff,
        ;
        let term: u128 = (a * (price as u128)) / (FIXED_POINT_SCALE as u128);
        assert(term <= 0x1_0000_0000_0000_0000_0000_0000_0000) by (nonlinear_arith)
            requires
                term == (a * price) / 1_000_000,
                a * price <= 0x8000_0000_0000_0000 * 0xffff_ffff_ffff_ffff,
        ;
        proof {
            let t = positions@.take(i + 1);
            assert(t.drop_last() =~= positions@.take(i as int));
            assert(t.last() == positions@[i as int]);
        }
        total = total + term;
        i = i + 1;
    }
    total
}

/// Applies a signed fill of `qty_delta` at `price` in `market` to the account:
/// opens, grows, reduces, closes or flips the position, realizes PnL into
/// collateral, and then requires the leverage rule at `price`. On an error the
/// account is left as it was.
pub fn apply_fill_to_account(acc: &mut MarginAccount, market: [u8; 16], qty_delta: i64, price: u64) -> (r: Result<(), PerpError>)
    requires
        old(acc).wf(),
    ensures
        final(acc).nonce == old(acc).nonce,
        match fill_outcome(*old(acc), market, qty_delta as int, price as int) {
            Ok(o) => r is Ok && final(acc).holds_outcome(*old(acc), o),
            Err(e) => r == Err::<(), PerpError>(e) && *final(acc) == *old(acc),
        },
{
    let ghost open = acc.open_positions();
    let count = acc.position_count as usize;
    let mut positions = acc.positions;
    let mut collateral = acc.collateral;
    let mut new_count = count;
    match find_market(acc, &market) {
        None => {
            proof {
                lemma_market_slot(open, 0, count as int, market@);
            }
            if count >= MAX_POSITIONS {
                return Err(PerpError::MaxPositionsReached);
            }
            if qty_delta == 0 {
                return Err(PerpError::ZeroPositionSize);
            }
            assert(forall|j: int| 0 <= j < count ==> open[j] == positions@[j] && #[trigger] positions@[j].market@ != market@);
            positions[count] = Position { market, size: qty_delta, avg_entry_price: price };
            new_count = count + 1;
            assert(positions@.take(new_count as int) =~= open.push(positions@[count as int]));
            assert(forall|j: int, k: int| 0 <= j < new_count && 0 <= k < new_count && j != k ==> positions@[j].market@ != positions@[k].market@);
        },
        Some(i) => {
            proof {
                lemma_market_slot(open, 0, count as int, market@);
            }
            let pos = positions[i];
            let pnl = pnl_of_fill(pos.size, pos.avg_entry_price, qty_delta, price);
            if pnl >= 0 {
                if pnl > (u64::MAX - collateral) as i128 {
                    return Err(PerpError::MathOverflow);
                }
                collateral = collateral + pnl as u64;
            } else {
                if 0 - pnl > collateral as i128 {
                    return Err(PerpError::MathOverflow);
                }
                collateral = collateral - (0 - pnl) as u64;
            }
            let wide: i128 = pos.size as i128 + qty_delta as i128;
            if wide < i64::MIN as i128 || wide > i64::MAX as i128 {
                return Err(PerpError::MathOverflow);
            }
            let new_size = wide as i64;
            if new_size == 0 {
                let last = positions[count - 1];
                positions[i] = last;
                positions[count - 1] = Position::empty();
                new_count = count - 1;
                assert(positions@.take(new_count as int) =~= open.update(i as int, open.last()).drop_last());
                assert(forall|j: int, k: int| 0 <= j < new_count && 0 <= k < new_count && j != k ==> positions@[j].market@ != positions@[k].market@);
            } else {
                match entry_price_of_fill(pos.size, pos.avg_entry_price, qty_delta, price, new_size) {
                    None => {
                        return Err(PerpError::MathOverflow);
                    },
                    Some(avg) => {
                        positions[i] = Position { market: pos.market, size: new_size, avg_entry_price: avg };
                        assert(positions@.take(new_count as int) =~= open.update(
                            i as int,
                            Position { market: pos.market, size: new_size, avg_entry_price: avg },
                        ));
                        assert(forall|j: int, k: int| 0 <= j < new_count && 0 <= k < new_count && j != k ==> positions@[j].market@ != positions@[k].market@);
                    },
                }
            }
        },
    }
    let total = total_notional(&positions, new_count, price);
    if (collateral as u128) * (MAX_LEVERAGE as u128) < total {
        return Err(PerpError::InsufficientCollateral);
    }
    acc.collateral = collateral;
    acc.positions = positions;
    acc.position_count = new_count as u8;
    assert(acc.open_positions() == positions@.take(new_count as int));
    assert(acc.position_count <= MAX_POSITIONS);
    assert(forall|j: int| 0 <= j < new_count ==> positions@[j].size != 0);
    assert(forall|j: int| new_count <= j < MAX_POSITIONS ==> positions@[j].is_empty_slot());
    assert(forall|j: int, k: int| 0 <= j < new_count && 0 <= k < new_count && j != k ==> positions@[j].market@ != positions@[k].market@);
    Ok(())
}

/// Program id of the signature-verifier primitive that must run just before a
/// settlement.
pub open spec fn verifier_program_id() -> Seq<u8> {
    seq![
        3u8, 125, 70, 214, 124, 147, 251, 190, 18, 249, 66, 143, 131, 141, 64, 255,
        5, 112, 116, 73, 39, 244, 138, 100, 252, 202, 112, 68, 128, 0, 0, 0,
    ]
}

pub fn ed25519_program_id() -> (r: [u8; 32])
    ensures
        r@ == verifier_program_id(),
{
    let r: [u8; 32] = [
        3u8, 125, 70, 214, 124, 147, 251, 190, 18, 249, 66, 143, 131, 141, 64, 255,
        5, 112, 116, 73, 39, 244, 138, 100, 252, 202, 112, 68, 128, 0, 0, 0,
    ];
    assert(r@ =~= verifier_program_id());
    r
}

fn ids_equal(a: &[u8; 32], b: &[u8; 32]) -> (r: bool)
    ensures
        r == (a@ == b@),
{
    let mut k: usize = 0;
    while k < 32
        invariant
            k <= 32,
            forall|j: int| 0 <= j < k ==> a@[j] == b@[j],
        decreases 32 - k,
    {
        if a[k] != b[k] {
            return false;
        }
        k = k + 1;
    }
    assert(a@ =~= b@);
    true
}

/// The market tag that settlements carry while a single market is traded.
pub open spec fn default_market() -> Seq<u8> {
    Seq::new(16, |k: int| 0u8)
}

/// What a settlement yields: the buyer's and seller's states after their
/// fills, or the reason for which it aborts. The checks run in this order:
/// the verifier ran just before, the nonces are current, the quantity fits a
/// signed size, the buyer's fill, the seller's fill, the nonces can advance.
pub open spec fn settle_outcome(
    buyer: MarginAccount,
    seller: MarginAccount,
    market: [u8; 16],
    current_index: int,
    preceding_program: Seq<u8>,
    price: int,
    quantity: int,
    buyer_nonce: int,
    seller_nonce: int,
) -> Result<(FillOutcome, FillOutcome), PerpError> {
    if current_index <= 0 {
        Err(PerpError::MissingSignature)
    } else if preceding_program != verifier_program_id() {
        Err(PerpError::InvalidSignatureProgram)
    } else if buyer_nonce != buyer.nonce || seller_nonce != seller.nonce {
        Err(PerpError::StaleNonce)
    } else if quantity > i64::MAX {
        Err(PerpError::MathOverflow)
    } else {
        match fill_outcome(buyer, market, quantity, price) {
            Err(e) => Err(e),
            Ok(ob) => match fill_outcome(seller, market, -quantity, price) {
                Err(e) => Err(e),
                Ok(os) => if buyer.nonce == u64::MAX || seller.nonce == u64::MAX {
                    Err(PerpError::MathOverflow)
                } else {
                    Ok((ob, os))
                },
            },
        }
    }
}

/// Settles one trade on the buyer's and seller's margin accounts, all or
/// nothing. `current_index` is the position of this instruction in its bundle
/// and `preceding_program` the program of the instruction before it, which
/// must be the signature verifier. The buyer goes long and the seller short by
/// `quantity` at `price`, and each nonce advances by one.
pub fn settle_trade_handler(
    buyer: &mut MarginAccount,
    seller: &mut MarginAccount,
    current_index: u16,
    preceding_program: [u8; 32],
    trade_id: u64,
    price: u64,
    quantity: u64,
    buyer_nonce: u64,
    seller_nonce: u64,
) -> (r: Result<(), PerpError>)
    requires
        old(buyer).wf(),
        old(seller).wf(),
    ensures
        forall|market: [u8; 16]| market@ == default_market() ==> match #[trigger] settle_outcome(
            *old(buyer),
            *old(seller),
            market,
            current_index as int,
            preceding_program@,
            price as int,
            quantity as int,
            buyer_nonce as int,
            seller_nonce as int,
        ) {
            Ok((ob, os)) => {
                &&& r is Ok
                &&& final(buyer).holds_outcome(*old(buyer), ob)
                &&& final(seller).holds_outcome(*old(seller), os)
            },
            Err(e) => {
                &&& r == Err::<(), PerpError>(e)
                &&& *final(buyer) == *old(buyer)
                &&& *final(seller) == *old(seller)
            },
        },
        r is Ok ==> final(buyer).nonce == old(buyer).nonce + 1 && final(seller).nonce == old(seller).nonce + 1,
        r is Ok ==> leverage_ok(final(buyer).collateral as int, final(buyer).open_positions(), price as int),
        r is Ok ==> leverage_ok(final(seller).collateral as int, final(seller).open_positions(), price as int),
{
    if current_index == 0 {
        return Err(PerpError::MissingSignature);
    }
    let verifier = ed25519_program_id();
    if !ids_equal(&preceding_program, &verifier) {
        return Err(PerpError::InvalidSignatureProgram);
    }
    if buyer_nonce != buyer.nonce || seller_nonce != seller.nonce {
        return Err(PerpError::StaleNonce);
    }
    if quantity > i64::MAX as u64 {
        return Err(PerpError::MathOverflow);
    }
    let market = [0u8; 16];
    assert(market@ =~= default_market());
    assert forall|m: [u8; 16]| m@ == default_market() implies m == market by {
        assert(m =~= market);
    }
    let signed_qty = quantity as i64;
    let mut b = *buyer;
    let mut s = *seller;
    apply_fill_to_account(&mut b, market, signed_qty, price)?;
    apply_fill_to_account(&mut s, market, 0 - signed_qty, price)?;
    if b.nonce == u64::MAX || s.nonce == u64::MAX {
        return Err(PerpError::MathOverflow);
    }
    b.nonce = b.nonce + 1;
    s.nonce = s.nonce + 1;
    *buyer = b;
    *seller = s;
    Ok(())
}

/// Adds `amount` to the account's collateral.
pub fn deposit_handler(acc: &mut MarginAccount, amount: u64) -> (r: Result<(), PerpError>)
    ensures
        match r {
            Ok(()) => old(acc).collateral + amount <= u64::MAX && *final(acc) == (MarginAccount {
                collateral: (old(acc).collateral + amount) as u64,
                ..*old(acc)
            }),
            Err(e) => e == PerpError::MathOverflow && old(acc).collateral + amount > u64::MAX && *final(acc) == *old(acc),
        },
{
    if amount > u64::MAX - acc.collateral {
        return Err(PerpError::MathOverflow);
    }
    acc.collateral = acc.collateral + amount;
    Ok(())
}

/// A new margin account for `owner`: no collateral, no positions, nonce zero.
pub fn create_margin_account(owner: [u8; 32], bump: u8) -> (r: MarginAccount)
    ensures
        r.wf(),
        r.owner == owner,
        r.bump == bump,
        r.collateral == 0,
        r.position_count == 0,
        r.nonce == 0,
{
    let empty = Position::empty();
    MarginAccount { owner, collateral: 0, positions: [empty; 8], position_count: 0, nonce: 0, bump }
}

} // verus!
