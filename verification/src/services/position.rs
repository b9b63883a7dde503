//! Positions: capacity, reservations in force, bookkeeping, lifecycles and results.
use crate::decimal::{Decimal, Overflow, at_most, dec, difference_of, less, ok_of, sum_of};
use crate::domain::lifecycle::{LifecycleView, PositionLifecycle};
use crate::domain::market::MarketWithReference;
use crate::domain::position::{ArbitragePosition, ExitView, OpenLimitOrder, PendingOrder};
use crate::domain::telemetry::StatsView;
use crate::exchange::TokenId;
use crate::runtime::CryptoArbRuntime;
use crate::table::{any_value, dropped, has_key, kept, lemma_kept_step, lookup, stored};
use crate::text::{owned, same_text};
use crate::value::{
    comparing_compares_values, difference_is_exact, differences_add_up, max_of, quotients_compare,
    slack, sum_is_exact, sums_add_up, value, value_of_parts,
};
use vstd::prelude::*;

verus! {

/// The slots held by reservations.
pub open spec fn slots(rows: Seq<(Seq<char>, usize)>) -> int
    decreases rows.len(),
{
    if rows.len() == 0 {
        0
    } else {
        slots(rows.drop_last()) + rows.last().1
    }
}

proof fn lemma_slots_of_prefix(rows: Seq<(Seq<char>, usize)>, n: int)
    requires
        0 <= n <= rows.len(),
    ensures
        0 <= slots(rows.take(n)) <= slots(rows),
    decreases rows.len(),
{
    if n < rows.len() {
        assert(rows.drop_last().take(n) =~= rows.take(n));
        lemma_slots_of_prefix(rows.drop_last(), n);
    } else {
        assert(rows.take(n) =~= rows);
        if n > 0 {
            lemma_slots_of_prefix(rows.drop_last(), n - 1);
            assert(rows.drop_last().take(n - 1) =~= rows.drop_last());
        }
    }
}

/// Position `i` is the first with a token.
pub open spec fn first_position(s: Seq<ArbitragePosition>, token: Seq<char>, i: int) -> bool {
    &&& 0 <= i < s.len()
    &&& s[i].token_id@ == token
    &&& forall|j: int| 0 <= j < i ==> (#[trigger] s[j]).token_id@ != token
}

/// Some position has a token.
pub open spec fn holds_token(s: Seq<ArbitragePosition>, token: Seq<char>) -> bool {
    exists|i: int| 0 <= i < s.len() && (#[trigger] s[i]).token_id@ == token
}

/// The first position with a token.
pub open spec fn position_of(s: Seq<ArbitragePosition>, token: Seq<char>) -> int {
    choose|i: int| first_position(s, token, i)
}

/// Some position is in a market.
pub open spec fn holds_market(s: Seq<ArbitragePosition>, market: Seq<char>) -> bool {
    exists|i: int| 0 <= i < s.len() && (#[trigger] s[i]).market_id@ == market
}

/// The first position of a token is the only first one.
pub proof fn lemma_position_of(s: Seq<ArbitragePosition>, token: Seq<char>, i: int)
    requires
        first_position(s, token, i),
    ensures
        holds_token(s, token),
        position_of(s, token) == i,
{
    let c = position_of(s, token);
    assert(first_position(s, token, c));
    if c < i {
        assert(s[c].token_id@ != token);
    }
    if i < c {
        assert(s[i].token_id@ != token);
    }
}

/// The first position with a token.
pub fn find_position(s: &Vec<ArbitragePosition>, token: &str) -> (r: Option<usize>)
    ensures
        r is Some <==> holds_token(s@, token@),
        r is Some ==> first_position(s@, token@, r->0 as int) && r->0 == position_of(s@, token@),
{
    let mut i: usize = 0;
    while i < s.len()
        invariant
            i <= s@.len(),
            forall|j: int| 0 <= j < i ==> (#[trigger] s@[j]).token_id@ != token@,
        decreases s@.len() - i,
    {
        if same_text(s[i].token_id.as_str(), token) {
            proof {
                lemma_position_of(s@, token@, i as int);
            }
            return Some(i);
        }
        i += 1;
    }
    None
}

/// A market has a position, an order or a reservation.
pub open spec fn exposed_in(
    positions: Seq<ArbitragePosition>,
    pending: Seq<(Seq<char>, PendingOrder)>,
    limits: Seq<(Seq<char>, OpenLimitOrder)>,
    reservations: Seq<(Seq<char>, usize)>,
    market: Seq<char>,
) -> bool {
    ||| holds_market(positions, market)
    ||| any_value(pending, |p: PendingOrder| p.market_id@ == market)
    ||| any_value(limits, |o: OpenLimitOrder| o.market_id@ == market)
    ||| has_key(reservations, market)
}

/// Slots in use: positions, orders and reservations.
pub open spec fn slots_used(
    positions: Seq<ArbitragePosition>,
    pending: Seq<(Seq<char>, PendingOrder)>,
    limits: Seq<(Seq<char>, OpenLimitOrder)>,
    reservations: Seq<(Seq<char>, usize)>,
) -> int {
    positions.len() + pending.len() + limits.len() + slots(reservations)
}

/// The lifecycles once a token has one.
pub open spec fn with_lifecycle(rows: Seq<(Seq<char>, LifecycleView)>, token: Seq<char>) -> Seq<
    (Seq<char>, LifecycleView),
> {
    if has_key(rows, token) {
        rows
    } else {
        stored(rows, token, LifecycleView::fresh())
    }
}

/// The exit orders of other tokens.
pub open spec fn without_token(rows: Seq<(Seq<char>, ExitView)>, token: Seq<char>) -> Seq<
    (Seq<char>, ExitView),
> {
    kept(rows, |id: Seq<char>, meta: ExitView| meta.token != token)
}

/// A position whose peak is raised by a bid on its token.
pub open spec fn raised(pos: ArbitragePosition, token: Seq<char>, bid: Decimal) -> ArbitragePosition {
    if pos.token_id@ == token && less(pos.peak_bid, bid) {
        ArbitragePosition { peak_bid: bid, ..pos }
    } else {
        pos
    }
}

/// A peak never falls, and a bid on a token lifts every peak of that token to at least
/// the bid.
pub proof fn peaks_never_fall(pos: ArbitragePosition, token: Seq<char>, bid: Decimal)
    ensures
        at_most(pos.peak_bid, raised(pos, token, bid).peak_bid),
        pos.token_id@ == token ==> at_most(bid, raised(pos, token, bid).peak_bid),
{
}

impl CryptoArbRuntime {
    /// Slots in use: positions, orders and reservations.
    pub open spec fn used_slots(&self) -> int {
        slots_used(
            self.positions@,
            self.pending_orders.rows(),
            self.open_limit_orders.rows(),
            self.market_reservations.rows(),
        )
    }

    /// Slots in use, when they can be counted.
    pub fn slots_in_use(&self) -> (r: Option<usize>)
        ensures
            self.used_slots() >= 0,
            r is Some <==> self.used_slots() <= usize::MAX,
            r is Some ==> r->0 == self.used_slots(),
    {
        let ghost rows = self.market_reservations.rows();
        let mut sum: usize = 0;
        let mut i: usize = 0;
        proof {
            lemma_slots_of_prefix(rows, 0);
        }
        while i < self.market_reservations.len()
            invariant
                i <= rows.len(),
                rows == self.market_reservations.rows(),
                sum == slots(rows.take(i as int)),
                0 <= slots(rows),
            decreases rows.len() - i,
        {
            assert(rows.take(i as int + 1).drop_last() =~= rows.take(i as int));
            proof {
                lemma_slots_of_prefix(rows, i as int + 1);
            }
            match sum.checked_add(*self.market_reservations.value_at(i)) {
                Some(n) => {
                    sum = n;
                },
                None => {
                    return None;
                },
            }
            i += 1;
        }
        assert(rows.take(i as int) =~= rows);
        let a: usize = sum.checked_add(self.positions.len())?;
        let b: usize = a.checked_add(self.pending_orders.len())?;
        b.checked_add(self.open_limit_orders.len())
    }

    /// Whether there is room for one more position.
    pub fn can_open_position(&self) -> (r: bool)
        ensures
            r == (self.used_slots() < self.config.max_positions),
            r ==> self.used_slots() + 1 <= self.config.max_positions,
            !r ==> self.used_slots() >= self.config.max_positions,
    {
        match self.slots_in_use() {
            Some(n) => n < self.config.max_positions,
            None => false,
        }
    }

    /// Whether a size is at least the market's least order size; not so for a market that
    /// is not active.
    pub fn validate_min_order_size(&self, market_id: &str, size: Decimal) -> (r: bool)
        ensures
            r == (match lookup(self.active_markets.rows(), market_id@) {
                Some(m) => at_most(m.market.min_order_size, size),
                None => false,
            }),
            r <==> lookup(self.active_markets.rows(), market_id@) is Some && value(size) >= value(
                lookup(self.active_markets.rows(), market_id@)->0.market.min_order_size,
            ),
    {
        match self.active_markets.get(market_id) {
            Some(m) => {
                proof {
                    comparing_compares_values(m.market.min_order_size, size);
                }
                size.ge(m.market.min_order_size)
            },
            None => false,
        }
    }

    /// A market has a position, an order or a reservation.
    pub open spec fn exposed(&self, market: Seq<char>) -> bool {
        exposed_in(
            self.positions@,
            self.pending_orders.rows(),
            self.open_limit_orders.rows(),
            self.market_reservations.rows(),
            market,
        )
    }

    /// Whether some position is in a market.
    pub fn has_position_in(&self, market_id: &str) -> (r: bool)
        ensures
            r == holds_market(self.positions@, market_id@),
    {
        let mut i: usize = 0;
        while i < self.positions.len()
            invariant
                i <= self.positions@.len(),
                forall|j: int|
                    0 <= j < i ==> (#[trigger] self.positions@[j]).market_id@ != market_id@,
            decreases self.positions@.len() - i,
        {
            if same_text(self.positions[i].market_id.as_str(), market_id) {
                return true;
            }
            i += 1;
        }
        false
    }

    /// Whether a market has a position, an order or a reservation.
    pub fn has_market_exposure(&self, market_id: &str) -> (r: bool)
        ensures
            r == self.exposed(market_id@),
    {
        if self.has_position_in(market_id) {
            return true;
        }
        let ghost pp = |p: PendingOrder| p.market_id@ == market_id@;
        let ghost pl = |o: OpenLimitOrder| o.market_id@ == market_id@;
        let mut i: usize = 0;
        while i < self.pending_orders.len()
            invariant
                i <= self.pending_orders.rows().len(),
                pp == (|p: PendingOrder| p.market_id@ == market_id@),
                forall|j: int| 0 <= j < i ==> !pp((#[trigger] self.pending_orders.rows()[j]).1),
            decreases self.pending_orders.rows().len() - i,
        {
            if same_text(self.pending_orders.value_at(i).market_id.as_str(), market_id) {
                assert(pp(self.pending_orders.rows()[i as int].1));
                return true;
            }
            i += 1;
        }
        let mut i: usize = 0;
        while i < self.open_limit_orders.len()
            invariant
                i <= self.open_limit_orders.rows().len(),
                pl == (|o: OpenLimitOrder| o.market_id@ == market_id@),
                forall|j: int| 0 <= j < i ==> !pl((#[trigger] self.open_limit_orders.rows()[j]).1),
            decreases self.open_limit_orders.rows().len() - i,
        {
            if same_text(self.open_limit_orders.value_at(i).market_id.as_str(), market_id) {
                assert(pl(self.open_limit_orders.rows()[i as int].1));
                return true;
            }
            i += 1;
        }
        self.market_reservations.contains_key(market_id)
    }

    /// Records a new position and starts its lifecycle.
    pub fn record_position(&mut self, pos: ArbitragePosition)
        ensures
            final(self).positions@ == old(self).positions@.push(pos),
            final(self).position_lifecycle.rows() == with_lifecycle(
                old(self).position_lifecycle.rows(),
                pos.token_id@,
            ),
            *final(self) == (CryptoArbRuntime {
                positions: final(self).positions,
                position_lifecycle: final(self).position_lifecycle,
                ..*old(self)
            }),
    {
        let token: String = pos.token_id.clone();
        self.positions.push(pos);
        let _ = self.ensure_lifecycle(token.as_str());
    }

    /// The lifecycle of a token, started if there is none.
    pub fn ensure_lifecycle(&mut self, token_id: &str) -> (r: PositionLifecycle)
        ensures
            final(self).position_lifecycle.rows() == with_lifecycle(
                old(self).position_lifecycle.rows(),
                token_id@,
            ),
            *final(self) == (CryptoArbRuntime {
                position_lifecycle: final(self).position_lifecycle,
                ..*old(self)
            }),
            r@ == (match lookup(old(self).position_lifecycle.rows(), token_id@) {
                Some(lc) => lc,
                None => LifecycleView::fresh(),
            }),
    {
        match self.position_lifecycle.get(token_id) {
            Some(lc) => {
                return lc.clone();
            },
            None => {},
        }
        self.position_lifecycle.insert(owned(token_id), PositionLifecycle::new());
        PositionLifecycle::new()
    }

    /// Drops the lifecycle of a token and its exit orders.
    pub fn remove_lifecycle(&mut self, token_id: &str)
        ensures
            final(self).position_lifecycle.rows() == dropped(
                old(self).position_lifecycle.rows(),
                token_id@,
            ),
            final(self).exit_orders_by_id.rows() == without_token(
                old(self).exit_orders_by_id.rows(),
                token_id@,
            ),
            *final(self) == (CryptoArbRuntime {
                position_lifecycle: final(self).position_lifecycle,
                exit_orders_by_id: final(self).exit_orders_by_id,
                ..*old(self)
            }),
    {
        let _ = self.position_lifecycle.remove(token_id);
        let ghost rows = self.exit_orders_by_id.rows();
        let ghost keep = |id: Seq<char>, meta: ExitView| meta.token != token_id@;
        let ghost done: int = 0;
        let ghost base = *self;
        let mut i: usize = 0;
        proof {
            assert(kept(rows.take(0), keep) =~= Seq::empty());
        }
        while i < self.exit_orders_by_id.len()
            invariant
                0 <= done <= rows.len(),
                i <= done,
                keep == (|id: Seq<char>, meta: ExitView| meta.token != token_id@),
                self.exit_orders_by_id.rows() =~= kept(rows.take(done), keep) + rows.skip(done),
                i == kept(rows.take(done), keep).len(),
                *self == (CryptoArbRuntime { exit_orders_by_id: self.exit_orders_by_id, ..base }),
            decreases rows.len() - done,
        {
            proof {
                lemma_kept_step(rows, keep, done);
                assert(rows.skip(done)[0] == rows[done]);
            }
            if same_text(self.exit_orders_by_id.value_at(i).token_id.as_str(), token_id) {
                let _ = self.exit_orders_by_id.remove_at(i);
            } else {
                i += 1;
            }
            proof {
                done = done + 1;
            }
        }
        assert(rows.take(rows.len() as int) =~= rows);
    }

    /// The other token of a market.
    pub fn get_opposite_token(&self, market_id: &str, token_id: &str) -> (r: Option<TokenId>)
        ensures
            r == opposite_token(self.active_markets.rows(), market_id@, token_id@),
    {
        match self.active_markets.get(market_id) {
            None => None,
            Some(m) => {
                let ids = &m.market.token_ids;
                if same_text(token_id, ids.outcome_a.as_str()) {
                    Some(ids.outcome_b.clone())
                } else if same_text(token_id, ids.outcome_b.as_str()) {
                    Some(ids.outcome_a.clone())
                } else {
                    None
                }
            },
        }
    }

    /// Takes out the first position with a token, and its lifecycle.
    pub fn remove_position_by_token(&mut self, token_id: &str) -> (r: Option<ArbitragePosition>)
        ensures
            r is Some <==> holds_token(old(self).positions@, token_id@),
            r is None ==> *final(self) == *old(self),
            r is Some ==> {
                let i = position_of(old(self).positions@, token_id@);
                &&& r->0 == old(self).positions@[i]
                &&& final(self).positions@ == old(self).positions@.remove(i)
                &&& final(self).position_lifecycle.rows() == dropped(
                    old(self).position_lifecycle.rows(),
                    token_id@,
                )
                &&& final(self).exit_orders_by_id.rows() == without_token(
                    old(self).exit_orders_by_id.rows(),
                    token_id@,
                )
            },
            *final(self) == (CryptoArbRuntime {
                positions: final(self).positions,
                position_lifecycle: final(self).position_lifecycle,
                exit_orders_by_id: final(self).exit_orders_by_id,
                ..*old(self)
            }),
    {
        match find_position(&self.positions, token_id) {
            None => None,
            Some(i) => {
                let pos = self.positions.remove(i);
                self.remove_lifecycle(token_id);
                Some(pos)
            },
        }
    }

    /// Takes `fill_size` shares off the first position with a token: all of it, with its
    /// lifecycle, when that is no less than its size. Gives back the position as it was,
    /// and whether it is closed.
    pub fn reduce_or_remove_position_by_token(&mut self, token_id: &str, fill_size: Decimal) -> (r:
        Result<Option<(ArbitragePosition, bool)>, Overflow>)
        ensures
            match reduction(old(self).positions@, token_id@, fill_size) {
                None => r is Err && *final(self) == *old(self),
                Some(None) => r == Ok::<Option<(ArbitragePosition, bool)>, Overflow>(None)
                    && *final(self) == *old(self),
                Some(Some((left, snapshot, closed))) => {
                    &&& r == Ok::<Option<(ArbitragePosition, bool)>, Overflow>(
                        Some((snapshot, closed)),
                    )
                    &&& final(self).positions@ == left
                    &&& closed ==> final(self).position_lifecycle.rows() == dropped(
                        old(self).position_lifecycle.rows(),
                        token_id@,
                    ) && final(self).exit_orders_by_id.rows() == without_token(
                        old(self).exit_orders_by_id.rows(),
                        token_id@,
                    )
                    &&& !closed ==> *final(self) == (CryptoArbRuntime {
                        positions: final(self).positions,
                        ..*old(self)
                    })
                },
            },
            *final(self) == (CryptoArbRuntime {
                positions: final(self).positions,
                position_lifecycle: final(self).position_lifecycle,
                exit_orders_by_id: final(self).exit_orders_by_id,
                ..*old(self)
            }),
    {
        match find_position(&self.positions, token_id) {
            None => Ok(None),
            Some(i) => {
                if fill_size.ge(self.positions[i].size) {
                    let pos = self.positions.remove(i);
                    self.remove_lifecycle(token_id);
                    Ok(Some((pos, true)))
                } else {
                    let rest: Decimal = self.positions[i].size.minus(fill_size)?;
                    let snapshot: ArbitragePosition = self.positions[i].clone();
                    self.positions[i].size = rest;
                    Ok(Some((snapshot, false)))
                }
            },
        }
    }

    /// Raises the peak of every position of a token to a bid.
    pub fn update_peak_bid(&mut self, token_id: &str, current_bid: Decimal)
        ensures
            final(self).positions@ == old(self).positions@.map_values(
                |p: ArbitragePosition| raised(p, token_id@, current_bid),
            ),
            *final(self) == (CryptoArbRuntime { positions: final(self).positions, ..*old(self) }),
    {
        let ghost before = self.positions@;
        let mut i: usize = 0;
        while i < self.positions.len()
            invariant
                i <= before.len(),
                self.positions@.len() == before.len(),
                forall|j: int|
                    0 <= j < i ==> (#[trigger] self.positions@[j]) == raised(
                        before[j],
                        token_id@,
                        current_bid,
                    ),
                forall|j: int| i <= j < before.len() ==> (#[trigger] self.positions@[j]) == before[j],
                *self == (CryptoArbRuntime { positions: self.positions, ..*old(self) }),
            decreases before.len() - i,
        {
            if same_text(self.positions[i].token_id.as_str(), token_id) && current_bid.gt(
                self.positions[i].peak_bid,
            ) {
                self.positions[i].peak_bid = current_bid;
            }
            i += 1;
        }
        assert(self.positions@ =~= before.map_values(
            |p: ArbitragePosition| raised(p, token_id@, current_bid),
        ));
    }

    /// Whether poor results have switched the strategy off. `None` is an overflow.
    pub open spec fn auto_disabled(&self) -> Option<bool> {
        if !self.config.performance.auto_disable || self.stats@.won + self.stats@.lost
            < self.config.performance.min_trades {
            Some(false)
        } else {
            match self.stats@.win_rate() {
                Some(rate) => Some(less(rate, self.config.performance.min_win_rate)),
                None => None,
            }
        }
    }

    /// Whether poor results have switched the strategy off.
    pub fn is_auto_disabled(&self) -> (r: Result<bool, Overflow>)
        ensures
            ok_of(r) == self.auto_disabled(),
    {
        if !self.config.performance.auto_disable {
            return Ok(false);
        }
        if self.stats.total_trades_or_max() < self.config.performance.min_trades {
            return Ok(false);
        }
        let rate: Decimal = self.stats.win_rate()?;
        Ok(rate.lt(self.config.performance.min_win_rate))
    }

    /// Counts the result of a trade.
    pub fn record_trade_pnl(&mut self, pnl: Decimal) -> (r: Result<(), Overflow>)
        ensures
            r is Ok <==> old(self).stats@.recorded(pnl) is Some,
            r is Ok ==> old(self).stats@.recorded(pnl) == Some(final(self).stats@),
            r is Err ==> *final(self) == *old(self),
            *final(self) == (CryptoArbRuntime { stats: final(self).stats, ..*old(self) }),
    {
        self.stats.record(pnl)
    }

    /// Adds a cost or gain to the total result without counting a trade.
    pub fn adjust_trade_pnl(&mut self, amount: Decimal) -> (r: Result<(), Overflow>)
        ensures
            r is Ok <==> sum_of(old(self).stats@.total, amount) is Some,
            r is Ok ==> final(self).stats@ == (StatsView {
                total: sum_of(old(self).stats@.total, amount)->0,
                ..old(self).stats@
            }),
            sum_is_exact(old(self).stats@.total, amount) ==> value(final(self).stats@.total)
                == value(old(self).stats@.total) + value(amount),
            r is Err ==> *final(self) == *old(self),
            *final(self) == (CryptoArbRuntime { stats: final(self).stats, ..*old(self) }),
    {
        proof {
            if sum_is_exact(self.stats@.total, amount) {
                sums_add_up(self.stats@.total, amount);
            }
        }
        self.stats.adjust_pnl(amount)
    }

    /// Adds a hedge's cost to the first position with a token.
    pub fn add_recovery_cost(&mut self, token_id: &str, cost: Decimal) -> (r: Result<(), Overflow>)
        ensures
            match costed(old(self).positions@, token_id@, cost) {
                Some(s) => r is Ok && final(self).positions@ == s,
                None => r is Err && *final(self) == *old(self),
            },
            *final(self) == (CryptoArbRuntime { positions: final(self).positions, ..*old(self) }),
    {
        match find_position(&self.positions, token_id) {
            None => Ok(()),
            Some(i) => {
                let sum: Decimal = self.positions[i].recovery_cost.plus(cost)?;
                self.positions[i].recovery_cost = sum;
                Ok(())
            },
        }
    }
}

/// The other token of an active market.
pub open spec fn opposite_token(
    markets: Seq<(Seq<char>, MarketWithReference)>,
    market: Seq<char>,
    token: Seq<char>,
) -> Option<TokenId> {
    match lookup(markets, market) {
        None => None,
        Some(m) => if token == m.market.token_ids.outcome_a@ {
            Some(m.market.token_ids.outcome_b)
        } else if token == m.market.token_ids.outcome_b@ {
            Some(m.market.token_ids.outcome_a)
        } else {
            None
        },
    }
}

/// The opposite of the opposite token is the token itself, when the two differ.
pub proof fn opposite_token_is_an_involution(
    markets: Seq<(Seq<char>, MarketWithReference)>,
    market: Seq<char>,
    token: Seq<char>,
)
    requires
        opposite_token(markets, market, token) is Some,
        lookup(markets, market)->0.market.token_ids.outcome_a@ != lookup(
            markets,
            market,
        )->0.market.token_ids.outcome_b@,
    ensures
        opposite_token(markets, market, opposite_token(markets, market, token)->0@) is Some,
        opposite_token(markets, market, opposite_token(markets, market, token)->0@)->0@ == token,
{
}

/// What taking shares off the first position with a token leaves: the positions, the
/// position as it was, and whether it is closed. The outer `None` is an overflow, the
/// inner one says that no position has the token.
pub open spec fn reduction(s: Seq<ArbitragePosition>, token: Seq<char>, fill: Decimal) -> Option<
    Option<(Seq<ArbitragePosition>, ArbitragePosition, bool)>,
> {
    if !holds_token(s, token) {
        Some(None)
    } else {
        let i = position_of(s, token);
        if at_most(s[i].size, fill) {
            Some(Some((s.remove(i), s[i], true)))
        } else {
            match difference_of(s[i].size, fill) {
                None => None,
                Some(rest) => Some(
                    Some(
                        (s.update(i, (ArbitragePosition { size: rest, ..s[i] })), s[i], false),
                    ),
                ),
            }
        }
    }
}

/// The positions once a hedge's cost is added to the first one with a token.
pub open spec fn costed(s: Seq<ArbitragePosition>, token: Seq<char>, cost: Decimal) -> Option<
    Seq<ArbitragePosition>,
> {
    if !holds_token(s, token) {
        Some(s)
    } else {
        let i = position_of(s, token);
        match sum_of(s[i].recovery_cost, cost) {
            Some(sum) => Some(
                s.update(i, (ArbitragePosition { recovery_cost: sum, ..s[i] })),
            ),
            None => None,
        }
    }
}

/// A fill takes its size off the first position in its token, and the position away where nothing
/// is left of it; every other position stays.
pub proof fn a_fill_takes_its_size_off(
    s: Seq<ArbitragePosition>,
    token: Seq<char>,
    fill: Decimal,
    i: int,
)
    requires
        first_position(s, token, i),
        difference_is_exact(s[i].size, fill),
    ensures
        ({
            let r = reduction(s, token, fill);
            let (rest, before, closed) = (r->0)->0;
            &&& r is Some && r->0 is Some
            &&& before == s[i]
            &&& closed <==> value(fill) >= value(s[i].size)
            &&& closed ==> rest.len() == s.len() - 1
            &&& !closed ==> rest.len() == s.len() && value(rest[i].size) == value(s[i].size)
                - value(fill) && value(rest[i].size) > 0 as real && rest[i]
                == (ArbitragePosition { size: rest[i].size, ..s[i] })
            &&& forall|j: int| 0 <= j < i ==> #[trigger] rest[j] == s[j]
            &&& forall|j: int|
                i < j < s.len() ==> #[trigger] s[j] == rest[if closed {
                    j - 1
                } else {
                    j
                }]
        }),
{
    lemma_position_of(s, token, i);
    comparing_compares_values(s[i].size, fill);
    differences_add_up(s[i].size, fill);
}

/// What is paid to recover a position adds to its recovery cost; nothing else changes.
pub proof fn recovery_costs_add_up(
    s: Seq<ArbitragePosition>,
    token: Seq<char>,
    cost: Decimal,
    i: int,
)
    requires
        first_position(s, token, i),
        sum_is_exact(s[i].recovery_cost, cost),
    ensures
        ({
            let r = costed(s, token, cost);
            &&& r is Some && r->0.len() == s.len()
            &&& value(r->0[i].recovery_cost) == value(s[i].recovery_cost) + value(cost)
            &&& forall|j: int| 0 <= j < s.len() && j != i ==> #[trigger] r->0[j] == s[j]
        }),
{
    lemma_position_of(s, token, i);
    sums_add_up(s[i].recovery_cost, cost);
}

/// The peak of a position is the larger of its peak and a bid for its token.
pub proof fn the_peak_is_the_highest_bid(pos: ArbitragePosition, token: Seq<char>, bid: Decimal)
    ensures
        pos.token_id@ == token ==> value(raised(pos, token, bid).peak_bid) == max_of(
            value(pos.peak_bid),
            value(bid),
        ),
        pos.token_id@ != token ==> raised(pos, token, bid) == pos,
{
    comparing_compares_values(pos.peak_bid, bid);
}

/// The opposite of an outcome of a market is its other outcome.
pub proof fn the_opposite_is_the_other_outcome(
    markets: Seq<(Seq<char>, MarketWithReference)>,
    market: Seq<char>,
    m: MarketWithReference,
)
    requires
        lookup(markets, market) == Some(m),
        m.market.token_ids.outcome_a@ != m.market.token_ids.outcome_b@,
    ensures
        opposite_token(markets, market, m.market.token_ids.outcome_a@) == Some(
            m.market.token_ids.outcome_b,
        ),
        opposite_token(markets, market, m.market.token_ids.outcome_b@) == Some(
            m.market.token_ids.outcome_a,
        ),
{
}

/// Trading stops where, with enough results, the share of wins is below the least rate. The 28th
/// digit is left to rounding.
pub proof fn trading_stops_where_too_little_is_won(rt: CryptoArbRuntime)
    requires
        0 <= rt.stats@.won,
        0 <= rt.stats@.lost,
        0 < rt.stats@.won + rt.stats@.lost <= u64::MAX,
        rt.auto_disabled() is Some,
    ensures
        ({
            let (s, perf) = (rt.stats@, rt.config.performance);
            let enough = perf.auto_disable && s.won + s.lost >= perf.min_trades;
            let (won, all) = (s.won as real, (s.won + s.lost) as real);
            let least = value(perf.min_win_rate);
            &&& rt.auto_disabled()->0 ==> enough && won <= all * (least + slack(least))
            &&& enough && won < all * (least - slack(least)) ==> rt.auto_disabled()->0
        }),
{
    let (s, perf) = (rt.stats@, rt.config.performance);
    let n = s.won + s.lost;
    value_of_parts(s.won, 0);
    value_of_parts(n, 0);
    if s.win_rate() is Some {
        quotients_compare(dec(s.won, 0), dec(n, 0), perf.min_win_rate);
    }
}

} // verus!
