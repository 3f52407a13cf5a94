use vstd::prelude::*;

verus! {

#[derive(Debug, Clone, Copy, PartialEq, Eq, Structural)]
pub enum Side {
    Buy,
    Sell,
}

/// A limit order in fixed-point units; `quantity` is what is left to fill.
#[derive(Debug, Clone)]
pub struct Order {
    pub user_id: String,
    pub price: u64,
    pub quantity: u64,
    pub side: Side,
}

/// One fill between a taker and a resting maker, at the maker's price.
#[derive(Debug, Clone)]
pub struct MatchResult {
    pub trade_id: u64,
    pub price: u64,
    pub quantity: u64,
    pub buyer_id: String,
    pub seller_id: String,
}

/// A resting order as the book's contracts see it.
pub struct Entry {
    pub user: Seq<char>,
    pub price: u64,
    pub quantity: u64,
}

/// A fill as the book's contracts see it.
pub struct Fill {
    pub maker: Seq<char>,
    pub price: u64,
    pub quantity: u64,
}

impl Order {
    pub open spec fn entry(self) -> Entry {
        Entry { user: self.user_id@, price: self.price, quantity: self.quantity }
    }
}

pub open spec fn entries(v: Seq<Order>) -> Seq<Entry> {
    v.map_values(|o: Order| o.entry())
}

/// Whether a taker on `side` with limit `limit` trades with a maker at `maker_price`.
pub open spec fn crosses(side: Side, limit: u64, maker_price: u64) -> bool {
    match side {
        Side::Buy => maker_price <= limit,
        Side::Sell => maker_price >= limit,
    }
}

/// Whether a resting order at `resting` stays ahead of a newcomer at `incoming`
/// on `side`: its price is as good or better.
pub open spec fn ranks_ahead(side: Side, resting: u64, incoming: u64) -> bool {
    match side {
        Side::Buy => resting >= incoming,
        Side::Sell => resting <= incoming,
    }
}

/// A taker on `side` with limit `limit` and `remaining` quantity against the
/// opposite side's queue `book` (best first): the fills it makes, in order, the
/// queue after them and what the taker has left.
pub open spec fn cross(book: Seq<Entry>, side: Side, limit: u64, remaining: u64) -> (Seq<Fill>, Seq<Entry>, u64)
    decreases book.len(),
{
    if remaining == 0 || book.len() == 0 || !crosses(side, limit, book[0].price) {
        (Seq::empty(), book, remaining)
    } else if book[0].quantity <= remaining {
        let rest = cross(book.drop_first(), side, limit, (remaining - book[0].quantity) as u64);
        (
            seq![Fill { maker: book[0].user, price: book[0].price, quantity: book[0].quantity }] + rest.0,
            rest.1,
            rest.2,
        )
    } else {
        (
            seq![Fill { maker: book[0].user, price: book[0].price, quantity: remaining }],
            book.update(0, Entry { quantity: (book[0].quantity - remaining) as u64, ..book[0] }),
            0,
        )
    }
}

/// Where a new order at `price` joins the queue of its own `side`: behind
/// every order whose price is as good or better.
pub open spec fn insertion_index(book: Seq<Entry>, side: Side, price: u64) -> int
    decreases book.len(),
{
    if book.len() > 0 && ranks_ahead(side, book[0].price, price) {
        1 + insertion_index(book.drop_first(), side, price)
    } else {
        0
    }
}

/// The queue `book` of `side` with `e` resting in it.
pub open spec fn rest(book: Seq<Entry>, side: Side, e: Entry) -> Seq<Entry> {
    let i = insertion_index(book, side, e.price);
    book.take(i).push(e) + book.skip(i)
}

/// A side's queue in priority order: best price first, and no empty order.
pub open spec fn queue_ok(book: Seq<Entry>, side: Side) -> bool {
    &&& forall|i: int, j: int| 0 <= i < j < book.len() ==> ranks_ahead(side, book[i].price, book[j].price)
    &&& forall|i: int| 0 <= i < book.len() ==> book[i].quantity > 0
}

pub open spec fn sum_fills(f: Seq<Fill>) -> int
    decreases f.len(),
{
    if f.len() == 0 {
        0
    } else {
        f[0].quantity + sum_fills(f.drop_first())
    }
}

pub open spec fn sum_entries(b: Seq<Entry>) -> int
    decreases b.len(),
{
    if b.len() == 0 {
        0
    } else {
        b[0].quantity + sum_entries(b.drop_first())
    }
}

pub open spec fn other(side: Side) -> Side {
    match side {
        Side::Buy => Side::Sell,
        Side::Sell => Side::Buy,
    }
}

/// What crossing does to the opposite queue and the taker: the queue loses a
/// prefix, and at most its new head has a smaller quantity; the taker keeps a
/// remainder only where nothing left on the queue crosses; fills take the
/// queue's orders in order, each but the last in full.
pub proof fn lemma_cross(book: Seq<Entry>, side: Side, limit: u64, remaining: u64)
    requires
        queue_ok(book, other(side)),
    ensures
        ({
            let (f, b, r) = cross(book, side, limit, remaining);
            let k = book.len() - b.len();
            &&& r <= remaining
            &&& 0 <= k
            &&& f.len() <= book.len()
            &&& r > 0 ==> f.len() + b.len() == book.len()
            &&& forall|j: int| 0 <= j < b.len() ==> b[j].price == book[j + k].price && b[j].user == book[j + k].user
            &&& forall|j: int| 0 < j < b.len() ==> b[j] == book[j + k]
            &&& queue_ok(b, other(side))
            &&& r > 0 ==> b.len() == 0 || !crosses(side, limit, b[0].price)
            &&& forall|i: int| 0 <= i < f.len() ==> f[i].maker == book[i].user && f[i].price == book[i].price
            &&& forall|i: int| 0 <= i < f.len() ==> crosses(side, limit, f[i].price)
            &&& forall|i: int| 0 <= i < f.len() - 1 ==> f[i].quantity == book[i].quantity
            &&& sum_fills(f) == remaining - r
            &&& sum_entries(book) - sum_entries(b) == sum_fills(f)
        }),
    decreases book.len(),
{
    if remaining == 0 || book.len() == 0 || !crosses(side, limit, book[0].price) {
    } else if book[0].quantity <= remaining {
        let tail = book.drop_first();
        assert(queue_ok(tail, other(side)));
        lemma_cross(tail, side, limit, (remaining - book[0].quantity) as u64);
        let (f1, b1, r1) = cross(tail, side, limit, (remaining - book[0].quantity) as u64);
        let fill = Fill { maker: book[0].user, price: book[0].price, quantity: book[0].quantity };
        let f = seq![fill] + f1;
        assert(f.drop_first() =~= f1);
        assert(sum_fills(f) == book[0].quantity + sum_fills(f1));
        assert forall|i: int| 0 <= i < f.len() implies f[i].maker == book[i].user && f[i].price == book[i].price && crosses(side, limit, f[i].price) by {
            if i > 0 {
                assert(f[i] == f1[i - 1]);
            }
        }
        assert forall|i: int| 0 <= i < f.len() - 1 implies f[i].quantity == book[i].quantity by {
            if i > 0 {
                assert(f[i] == f1[i - 1]);
            }
        }
    } else {
        let b = book.update(0, Entry { quantity: (book[0].quantity - remaining) as u64, ..book[0] });
        assert(b.drop_first() =~= book.drop_first());
        let f = seq![Fill { maker: book[0].user, price: book[0].price, quantity: remaining }];
        assert(f.drop_first() =~= Seq::<Fill>::empty());
        assert(sum_fills(Seq::<Fill>::empty()) == 0);
        assert(sum_fills(f) == remaining);
        assert(queue_ok(b, other(side)));
    }
}

/// Where a new order joins its queue: every order ahead of it has a price as
/// good or better, every order behind it a strictly worse one.
pub proof fn lemma_insertion_index(book: Seq<Entry>, side: Side, price: u64)
    ensures
        0 <= insertion_index(book, side, price) <= book.len(),
        forall|j: int| 0 <= j < insertion_index(book, side, price) ==> ranks_ahead(side, book[j].price, price),
        insertion_index(book, side, price) < book.len() ==> !ranks_ahead(side, book[insertion_index(book, side, price)].price, price),
    decreases book.len(),
{
    if book.len() > 0 && ranks_ahead(side, book[0].price, price) {
        lemma_insertion_index(book.drop_first(), side, price);
        assert forall|j: int| 0 <= j < insertion_index(book, side, price) implies ranks_ahead(side, book[j].price, price) by {
            if j > 0 {
                assert(book[j] == book.drop_first()[j - 1]);
            }
        }
    }
}

/// Price-time priority: of two orders resting in a queue, the one ahead is
/// filled in full before a taker trades any of the one behind.
pub proof fn law_price_time_priority(book: Seq<Entry>, side: Side, limit: u64, remaining: u64, a: int, b: int)
    requires
        queue_ok(book, other(side)),
        0 <= a < b < book.len(),
    ensures
        ({
            let f = cross(book, side, limit, remaining).0;
            b < f.len() ==> f[a].maker == book[a].user && f[a].quantity == book[a].quantity && f[b].maker
                == book[b].user
        }),
{
    lemma_cross(book, side, limit, remaining);
}

/// A new order rests behind every order of its side whose price is as good or
/// better, and ahead of every order whose price is worse.
pub proof fn law_newcomer_rests_behind(book: Seq<Entry>, side: Side, e: Entry)
    requires
        queue_ok(book, side),
    ensures
        ({
            let r = rest(book, side, e);
            let i = insertion_index(book, side, e.price);
            &&& r.len() == book.len() + 1
            &&& r[i] == e
            &&& forall|j: int| 0 <= j < i ==> r[j] == book[j] && ranks_ahead(side, book[j].price, e.price)
            &&& forall|j: int| i < j < r.len() ==> #[trigger] r[j] == book[j - 1] && !ranks_ahead(side, book[j - 1].price, e.price)
        }),
{
    lemma_insertion_index(book, side, e.price);
    let i = insertion_index(book, side, e.price);
    assert forall|j: int| i < j < book.len() + 1 implies !ranks_ahead(side, #[trigger] book[j - 1].price, e.price) by {
        if j - 1 > i {
            assert(ranks_ahead(side, book[i].price, book[j - 1].price));
        }
    }
}

/// Every fill is at the price of the resting order it trades with.
pub proof fn law_maker_price(book: Seq<Entry>, side: Side, limit: u64, remaining: u64)
    requires
        queue_ok(book, other(side)),
    ensures
        ({
            let f = cross(book, side, limit, remaining).0;
            forall|i: int| 0 <= i < f.len() ==> f[i].price == book[i].price && f[i].maker == book[i].user
        }),
{
    lemma_cross(book, side, limit, remaining);
}

/// The quantity filled equals both what the taker loses and what the
/// opposite queue loses.
pub proof fn law_quantity_conservation(book: Seq<Entry>, side: Side, limit: u64, remaining: u64)
    requires
        queue_ok(book, other(side)),
    ensures
        ({
            let (f, b, r) = cross(book, side, limit, remaining);
            &&& sum_fills(f) == remaining - r
            &&& sum_entries(book) - sum_entries(b) == sum_fills(f)
        }),
{
    lemma_cross(book, side, limit, remaining);
}

/// The best bid is below the best ask, or a side is empty.
pub open spec fn uncrossed_queues(bids: Seq<Entry>, asks: Seq<Entry>) -> bool {
    bids.len() > 0 && asks.len() > 0 ==> bids[0].price < asks[0].price
}

/// The queue of `side` after a taker on that side with limit `limit` has
/// crossed and left `rem` of `user`'s order.
pub open spec fn own_after(own: Seq<Entry>, side: Side, limit: u64, rem: u64, user: Seq<char>) -> Seq<Entry> {
    if rem > 0 {
        rest(own, side, Entry { user, price: limit, quantity: rem })
    } else {
        own
    }
}

/// A match keeps the book uncrossed: where the best bid was below the best
/// ask before a taker crosses and rests its remainder, it still is after.
pub proof fn law_book_stays_uncrossed(
    bids: Seq<Entry>,
    asks: Seq<Entry>,
    side: Side,
    limit: u64,
    quantity: u64,
    user: Seq<char>,
)
    requires
        queue_ok(bids, Side::Buy),
        queue_ok(asks, Side::Sell),
        uncrossed_queues(bids, asks),
    ensures
        ({
            let opposite = if side == Side::Buy { asks } else { bids };
            let own = if side == Side::Buy { bids } else { asks };
            let (f, b, rem) = cross(opposite, side, limit, quantity);
            let o = own_after(own, side, limit, rem, user);
            if side == Side::Buy {
                uncrossed_queues(o, b)
            } else {
                uncrossed_queues(b, o)
            }
        }),
{
    if side == Side::Buy {
        lemma_cross(asks, Side::Buy, limit, quantity);
        lemma_insertion_index(bids, Side::Buy, limit);
        let (f, na, rem) = cross(asks, Side::Buy, limit, quantity);
        let nb = own_after(bids, Side::Buy, limit, rem, user);
        if nb.len() > 0 && na.len() > 0 {
            assert(na[0].price == asks[asks.len() - na.len()].price);
            if asks.len() - na.len() > 0 {
                assert(ranks_ahead(Side::Sell, asks[0].price, asks[asks.len() - na.len()].price));
            }
            if rem > 0 {
                let k = insertion_index(bids, Side::Buy, limit);
                if k > 0 {
                    assert(nb[0] == bids[0]);
                }
            }
        }
    } else {
        lemma_cross(bids, Side::Sell, limit, quantity);
        lemma_insertion_index(asks, Side::Sell, limit);
        let (f, nb, rem) = cross(bids, Side::Sell, limit, quantity);
        let na = own_after(asks, Side::Sell, limit, rem, user);
        if nb.len() > 0 && na.len() > 0 {
            assert(nb[0].price == bids[bids.len() - nb.len()].price);
            if bids.len() - nb.len() > 0 {
                assert(ranks_ahead(Side::Buy, bids[0].price, bids[bids.len() - nb.len()].price));
            }
            if rem > 0 {
                let k = insertion_index(asks, Side::Sell, limit);
                if k > 0 {
                    assert(na[0] == asks[0]);
                }
            }
        }
    }
}

fn crosses_exec(side: Side, limit: u64, maker_price: u64) -> (r: bool)
    ensures
        r == crosses(side, limit, maker_price),
{
    match side {
        Side::Buy => maker_price <= limit,
        Side::Sell => maker_price >= limit,
    }
}

fn ranks_ahead_exec(side: Side, resting: u64, incoming: u64) -> (r: bool)
    ensures
        r == ranks_ahead(side, resting, incoming),
{
    match side {
        Side::Buy => resting >= incoming,
        Side::Sell => resting <= incoming,
    }
}

/// Whether `m` reports fill `f` with trade id `id`, the taker on `side` being `taker`.
pub open spec fn reports(m: MatchResult, f: Fill, id: int, side: Side, taker: Seq<char>) -> bool {
    &&& m.trade_id == id
    &&& m.price == f.price
    &&& m.quantity == f.quantity
    &&& side == Side::Buy ==> m.buyer_id@ == taker && m.seller_id@ == f.maker
    &&& side == Side::Sell ==> m.buyer_id@ == f.maker && m.seller_id@ == taker
}

/// Runs a taker on `side` against the opposite queue `book`, numbering the
/// fills after `counter`; returns the match records and the taker's remainder.
fn cross_book(
    book: &mut Vec<Order>,
    side: Side,
    limit: u64,
    taker: &String,
    quantity: u64,
    counter: &mut u64,
) -> (r: (Vec<MatchResult>, u64))
    requires
        queue_ok(entries(old(book)@), other(side)),
        *old(counter) + old(book)@.len() <= u64::MAX,
    ensures
        ({
            let (f, b, rem) = cross(entries(old(book)@), side, limit, quantity);
            &&& entries(final(book)@) == b
            &&& r.1 == rem
            &&& *final(counter) == *old(counter) + f.len()
            &&& r.0@.len() == f.len()
            &&& forall|i: int| 0 <= i < f.len() ==> reports(#[trigger] r.0@[i], f[i], *old(counter) + i + 1, side, taker@)
        }),
{
    let ghost book0 = entries(book@);
    let ghost c0 = *counter;
    let ghost mut fills: Seq<Fill> = Seq::empty();
    let mut results: Vec<MatchResult> = Vec::new();
    let mut rem: u64 = quantity;
    proof {
        lemma_cross(book0, side, limit, quantity);
    }
    while rem > 0 && book.len() > 0 && crosses_exec(side, limit, book[0].price)
        invariant
            cross(book0, side, limit, quantity) == (
                fills + cross(entries(book@), side, limit, rem).0,
                cross(entries(book@), side, limit, rem).1,
                cross(entries(book@), side, limit, rem).2,
            ),
            queue_ok(entries(book@), other(side)),
            *counter == c0 + fills.len(),
            c0 + book0.len() <= u64::MAX,
            fills.len() <= book0.len(),
            rem > 0 ==> fills.len() + book@.len() <= book0.len(),
            results@.len() == fills.len(),
            forall|i: int| 0 <= i < fills.len() ==> reports(#[trigger] results@[i], fills[i], c0 + i + 1, side, taker@),
        decreases book@.len() + rem,
    {
        let ghost before = entries(book@);
        let mut head = book.remove(0);
        assert(before[0] == head.entry());
        assert(entries(book@) =~= before.drop_first());
        let fill: u64 = if head.quantity <= rem {
            head.quantity
        } else {
            rem
        };
        *counter = *counter + 1;
        let m = match side {
            Side::Buy => MatchResult {
                trade_id: *counter,
                price: head.price,
                quantity: fill,
                buyer_id: taker.clone(),
                seller_id: head.user_id.clone(),
            },
            Side::Sell => MatchResult {
                trade_id: *counter,
                price: head.price,
                quantity: fill,
                buyer_id: head.user_id.clone(),
                seller_id: taker.clone(),
            },
        };
        let ghost f = Fill { maker: head.user_id@, price: head.price, quantity: fill };
        let ghost prev_results = results@;
        results.push(m);
        proof {
            let old_fills = fills;
            fills = fills.push(f);
            if head.quantity <= rem {
                let tail = cross(before.drop_first(), side, limit, (rem - head.quantity) as u64);
                assert(old_fills + (seq![f] + tail.0) =~= fills + tail.0);
            } else {
                assert(old_fills + seq![f] =~= fills + Seq::<Fill>::empty());
            }
            assert forall|i: int| 0 <= i < fills.len() implies reports(#[trigger] results@[i], fills[i], c0 + i + 1, side, taker@) by {
                if i < old_fills.len() {
                    assert(results@[i] == prev_results[i]);
                }
            }
        }
        rem = rem - fill;
        head.quantity = head.quantity - fill;
        if head.quantity > 0 {
            book.insert(0, head);
            assert(entries(book@) =~= before.update(0, Entry { quantity: (before[0].quantity - fill) as u64, ..before[0] }));
        }
    }
    (results, rem)
}

/// Puts `o` into its own side's queue `book`, behind every order with an
/// equal or better price.
fn rest_order(book: &mut Vec<Order>, side: Side, o: Order)
    requires
        queue_ok(entries(old(book)@), side),
        o.quantity > 0,
    ensures
        entries(final(book)@) == rest(entries(old(book)@), side, o.entry()),
        queue_ok(entries(final(book)@), side),
{
    let ghost e0 = entries(book@);
    let ghost e = o.entry();
    proof {
        lemma_insertion_index(e0, side, o.price);
    }
    let mut i: usize = 0;
    assert(e0.skip(0) =~= e0);
    while i < book.len() && ranks_ahead_exec(side, book[i].price, o.price)
        invariant
            e0 == entries(book@),
            i <= book@.len(),
            insertion_index(e0, side, o.price) == i + insertion_index(e0.skip(i as int), side, o.price),
        decreases book@.len() - i,
    {
        assert(e0.skip(i as int).drop_first() =~= e0.skip(i + 1));
        i = i + 1;
    }
    assert(insertion_index(e0, side, o.price) == i);
    book.insert(i, o);
    assert(entries(book@) =~= e0.take(i as int).push(e) + e0.skip(i as int));
    let ghost nb = entries(book@);
    assert forall|a: int, b: int| 0 <= a < b < nb.len() implies ranks_ahead(side, nb[a].price, nb[b].price) by {
        if b < i {
        } else if a < i && b == i {
        } else if a < i {
            assert(ranks_ahead(side, e0[a].price, e0[b - 1].price));
        } else if a == i {
            assert(!ranks_ahead(side, e0[i as int].price, o.price));
            if b - 1 > i {
                assert(ranks_ahead(side, e0[i as int].price, e0[b - 1].price));
            }
        } else {
            assert(ranks_ahead(side, e0[a - 1].price, e0[b - 1].price));
        }
    }
}

/// The matching engine: resting bids and asks, each a queue in priority order
/// (a price level is the run of orders at one price, oldest first), and the
/// number of trades made so far.
pub struct Engine {
    pub bids: Vec<Order>,
    pub asks: Vec<Order>,
    pub trade_counter: u64,
}

impl Engine {
    pub open spec fn bid_queue(self) -> Seq<Entry> {
        entries(self.bids@)
    }

    pub open spec fn ask_queue(self) -> Seq<Entry> {
        entries(self.asks@)
    }

    /// The queue of `side`.
    pub open spec fn queue(self, side: Side) -> Seq<Entry> {
        match side {
            Side::Buy => self.bid_queue(),
            Side::Sell => self.ask_queue(),
        }
    }

    /// The book is not crossed: the best bid is below the best ask.
    pub open spec fn uncrossed(self) -> bool {
        uncrossed_queues(self.bid_queue(), self.ask_queue())
    }

    /// Both queues in priority order with no empty order, and the book not crossed.
    pub open spec fn wf(self) -> bool {
        &&& queue_ok(self.bid_queue(), Side::Buy)
        &&& queue_ok(self.ask_queue(), Side::Sell)
        &&& self.uncrossed()
    }

    /// An empty book whose first trade will be numbered 1.
    pub fn new() -> (r: Engine)
        ensures
            r.wf(),
            r.bids@.len() == 0,
            r.asks@.len() == 0,
            r.trade_counter == 0,
    {
        Engine { bids: Vec::new(), asks: Vec::new(), trade_counter: 0 }
    }

    /// Matches a limit order against the opposite side under price-time
    /// priority, at the makers' prices, and rests what is left of it at its
    /// limit. Returns the matches in the order they were made.
    pub fn match_order(&mut self, order: Order) -> (r: Vec<MatchResult>)
        requires
            old(self).wf(),
            old(self).trade_counter + old(self).bids@.len() + old(self).asks@.len() <= u64::MAX,
        ensures
            final(self).wf(),
            final(self).uncrossed(),
            forall|i: int, j: int| 0 <= i < j < r@.len() ==> r@[i].trade_id < r@[j].trade_id,
            forall|i: int| 0 <= i < r@.len() ==> old(self).trade_counter < #[trigger] r@[i].trade_id <= final(self).trade_counter,
            ({
                let side = order.side;
                let (f, b, rem) = cross(old(self).queue(other(side)), side, order.price, order.quantity);
                &&& final(self).queue(other(side)) == b
                &&& final(self).queue(side) == if rem > 0 {
                    rest(old(self).queue(side), side, Entry { quantity: rem, ..order.entry() })
                } else {
                    old(self).queue(side)
                }
                &&& final(self).trade_counter == old(self).trade_counter + f.len()
                &&& r@.len() == f.len()
                &&& forall|i: int| 0 <= i < f.len() ==> reports(#[trigger] r@[i], f[i], old(self).trade_counter + i + 1, side, order.user_id@)
            }),
    {
        let ghost bids0 = self.bid_queue();
        let ghost asks0 = self.ask_queue();
        let mut counter = self.trade_counter;
        match order.side {
            Side::Buy => {
                proof {
                    lemma_cross(asks0, Side::Buy, order.price, order.quantity);
                }
                let (results, rem) = cross_book(&mut self.asks, Side::Buy, order.price, &order.user_id, order.quantity, &mut counter);
                self.trade_counter = counter;
                if rem > 0 {
                    proof {
                        lemma_insertion_index(bids0, Side::Buy, order.price);
                    }
                    let resting = Order { user_id: order.user_id, price: order.price, quantity: rem, side: Side::Buy };
                    rest_order(&mut self.bids, Side::Buy, resting);
                }
                proof {
                    law_book_stays_uncrossed(bids0, asks0, Side::Buy, order.price, order.quantity, order.user_id@);
                    assert(self.bid_queue() == own_after(bids0, Side::Buy, order.price, rem, order.user_id@));
                }
                results
            },
            Side::Sell => {
                proof {
                    lemma_cross(bids0, Side::Sell, order.price, order.quantity);
                }
                let (results, rem) = cross_book(&mut self.bids, Side::Sell, order.price, &order.user_id, order.quantity, &mut counter);
                self.trade_counter = counter;
                if rem > 0 {
                    proof {
                        lemma_insertion_index(asks0, Side::Sell, order.price);
                    }
                    let resting = Order { user_id: order.user_id, price: order.price, quantity: rem, side: Side::Sell };
                    rest_order(&mut self.asks, Side::Sell, resting);
                }
                proof {
                    law_book_stays_uncrossed(bids0, asks0, Side::Sell, order.price, order.quantity, order.user_id@);
                    assert(self.ask_queue() == own_after(asks0, Side::Sell, order.price, rem, order.user_id@));
                }
                results
            },
        }
    }
}

} // verus!
