//! Performance figures, spikes, and why sales are rejected.
use std::collections::VecDeque;
use crate::decimal::{
    Decimal, Overflow, at_most, dec, lemma_dec_parts, ok_of, one, over, plus, pow10, quotient_of,
    sum_of, zero,
};
use crate::table::Table;
use crate::text::{contains_text, lower_text, occurs, to_lower};
use crate::time::DateTime;
use crate::value::{
    comparing_compares_values, is_ratio, quotients_divide, signs_agree, sum_is_exact, sums_add_up,
    value, value_of_parts,
};
use vstd::prelude::*;

verus! {

/// A price spike.
#[derive(Debug)]
pub struct SpikeEvent {
    pub coin: String,
    pub timestamp: DateTime,
    /// Signed relative change.
    pub change_pct: Decimal,
    pub from_price: Decimal,
    pub to_price: Decimal,
    /// The spike led to a trade.
    pub acted: bool,
}

/// Results of a trading mode.
#[derive(Debug)]
pub struct ModeStats {
    pub entered: u64,
    /// Trades with a result of zero or more.
    pub won: u64,
    /// Trades with a negative result.
    pub lost: u64,
    pub total_pnl: Decimal,
    /// The latest results, oldest first.
    pub recent_pnl: VecDeque<Decimal>,
    window_size: usize,
}

/// Results of a trading mode, as plain values.
pub ghost struct StatsView {
    pub entered: int,
    pub won: int,
    pub lost: int,
    pub total: Decimal,
    pub recent: Seq<Decimal>,
    pub window: int,
}

/// The sum of results, oldest first.
pub open spec fn pnl_sum(s: Seq<Decimal>) -> Option<Decimal>
    decreases s.len(),
{
    if s.len() == 0 {
        Some(zero())
    } else {
        plus(pnl_sum(s.drop_last()), Some(s.last()))
    }
}

proof fn lemma_pnl_sum_overflows(s: Seq<Decimal>, n: int)
    requires
        0 <= n <= s.len(),
        pnl_sum(s.take(n)) is None,
    ensures
        pnl_sum(s) is None,
    decreases s.len(),
{
    if n < s.len() {
        assert(s.drop_last().take(n) =~= s.take(n));
        lemma_pnl_sum_overflows(s.drop_last(), n);
    } else {
        assert(s.take(n) =~= s);
    }
}

impl StatsView {
    /// The figures once a result is counted; none when one of them leaves its range.
    pub open spec fn recorded(self, pnl: Decimal) -> Option<StatsView> {
        let win = at_most(zero(), pnl);
        let pushed = self.recent.push(pnl);
        if self.entered >= u64::MAX || (win && self.won >= u64::MAX) || (!win && self.lost
            >= u64::MAX) || sum_of(self.total, pnl) is None {
            None
        } else {
            Some(
                StatsView {
                    entered: self.entered + 1,
                    won: if win {
                        self.won + 1
                    } else {
                        self.won
                    },
                    lost: if win {
                        self.lost
                    } else {
                        self.lost + 1
                    },
                    total: sum_of(self.total, pnl)->0,
                    recent: if pushed.len() > self.window {
                        pushed.skip(1)
                    } else {
                        pushed
                    },
                    window: self.window,
                },
            )
        }
    }

    /// The figures once results are counted one after the other.
    pub open spec fn recorded_all(self, pnls: Seq<Decimal>) -> Option<StatsView>
        decreases pnls.len(),
    {
        if pnls.len() == 0 {
            Some(self)
        } else {
            match self.recorded_all(pnls.drop_last()) {
                None => None,
                Some(s) => s.recorded(pnls.last()),
            }
        }
    }

    /// The figures once an amount is added to the total.
    pub open spec fn adjusted(self, amount: Decimal) -> Option<StatsView> {
        match sum_of(self.total, amount) {
            Some(total) => Some(StatsView { total, ..self }),
            None => None,
        }
    }

    /// The figures after calls, one after the other. `None` is an overflow.
    pub open spec fn after_calls(self, calls: Seq<StatsCall>) -> Option<StatsView>
        decreases calls.len(),
    {
        if calls.len() == 0 {
            Some(self)
        } else {
            match self.after_calls(calls.drop_last()) {
                None => None,
                Some(s) => match calls.last() {
                    StatsCall::Record(pnl) => s.recorded(pnl),
                    StatsCall::Adjust(amount) => s.adjusted(amount),
                },
            }
        }
    }

    /// The share of won trades; zero without a trade.
    pub open spec fn win_rate(self) -> Option<Decimal> {
        if self.won + self.lost == 0 {
            Some(zero())
        } else if self.won + self.lost > u64::MAX {
            None
        } else {
            over(Some(dec(self.won, 0)), Some(dec(self.won + self.lost, 0)))
        }
    }

    /// The figures of a mode that has not traded.
    pub open spec fn blank(window: int) -> StatsView {
        StatsView {
            entered: 0,
            won: 0,
            lost: 0,
            total: zero(),
            recent: Seq::empty(),
            window,
        }
    }
}

/// A call that changes the figures of a mode.
pub ghost enum StatsCall {
    Record(Decimal),
    Adjust(Decimal),
}

/// The results that calls count, in order.
pub open spec fn results_of(calls: Seq<StatsCall>) -> Seq<Decimal>
    decreases calls.len(),
{
    if calls.len() == 0 {
        Seq::empty()
    } else {
        match calls.last() {
            StatsCall::Record(pnl) => results_of(calls.drop_last()).push(pnl),
            StatsCall::Adjust(_) => results_of(calls.drop_last()),
        }
    }
}

/// The sum of all results and adjustments, in order. `None` is an overflow.
pub open spec fn booked(calls: Seq<StatsCall>) -> Option<Decimal>
    decreases calls.len(),
{
    if calls.len() == 0 {
        Some(zero())
    } else {
        plus(
            booked(calls.drop_last()),
            Some(
                match calls.last() {
                    StatsCall::Record(pnl) => pnl,
                    StatsCall::Adjust(amount) => amount,
                },
            ),
        )
    }
}

/// How many results are zero or more.
pub open spec fn wins(results: Seq<Decimal>) -> int
    decreases results.len(),
{
    if results.len() == 0 {
        0
    } else {
        wins(results.drop_last()) + if at_most(zero(), results.last()) {
            1int
        } else {
            0int
        }
    }
}

/// The last `n` results, or all of them.
pub open spec fn last_results(results: Seq<Decimal>, n: int) -> Seq<Decimal> {
    if results.len() > n {
        results.skip(results.len() - n)
    } else {
        results
    }
}

/// From a blank start, whatever results were recorded and amounts adjusted: each result counts
/// once as won or lost, won being those of zero or more; the total is the sum of all results
/// and amounts; and the recent results are the last ones, as many as the window holds.
pub proof fn figures_follow_the_calls(window: int, calls: Seq<StatsCall>)
    requires
        0 <= window,
        StatsView::blank(window).after_calls(calls) is Some,
    ensures
        ({
            let s = StatsView::blank(window).after_calls(calls)->0;
            let results = results_of(calls);
            &&& s.entered == results.len() && s.won + s.lost == s.entered
            &&& s.won == wins(results)
            &&& Some(s.total) == booked(calls)
            &&& s.recent == last_results(results, window)
            &&& s.window == window
        }),
    decreases calls.len(),
{
    if calls.len() > 0 {
        figures_follow_the_calls(window, calls.drop_last());
        let before = results_of(calls.drop_last());
        match calls.last() {
            StatsCall::Record(pnl) => {
                let s = StatsView::blank(window).after_calls(calls.drop_last())->0;
                assert(before.push(pnl).drop_last() =~= before);
                let pushed = s.recent.push(pnl);
                assert((if pushed.len() > window {
                    pushed.skip(1)
                } else {
                    pushed
                }) =~= last_results(before.push(pnl), window));
            },
            StatsCall::Adjust(_) => {},
        }
    } else {
        assert(last_results(Seq::empty(), window) =~= Seq::<Decimal>::empty());
    }
}

/// Every counted trade is won or lost, never both, and no more results are kept than the
/// window holds.
pub proof fn recording_keeps_the_counts(s: StatsView, pnl: Decimal)
    requires
        s.recorded(pnl) is Some,
        s.won + s.lost == s.entered,
        s.recent.len() <= s.window,
    ensures
        s.recorded(pnl)->0.won + s.recorded(pnl)->0.lost == s.recorded(pnl)->0.entered,
        s.recorded(pnl)->0.entered == s.entered + 1,
        s.recorded(pnl)->0.recent.len() <= s.recorded(pnl)->0.window,
{
}

proof fn lemma_recording_overflows(s: StatsView, pnls: Seq<Decimal>, n: int)
    requires
        0 <= n <= pnls.len(),
        s.recorded_all(pnls.take(n)) is None,
    ensures
        s.recorded_all(pnls) is None,
    decreases pnls.len(),
{
    if n < pnls.len() {
        assert(pnls.drop_last().take(n) =~= pnls.take(n));
        lemma_recording_overflows(s, pnls.drop_last(), n);
    } else {
        assert(pnls.take(n) =~= pnls);
    }
}

impl View for ModeStats {
    type V = StatsView;

    closed spec fn view(&self) -> StatsView {
        StatsView {
            entered: self.entered as int,
            won: self.won as int,
            lost: self.lost as int,
            total: self.total_pnl,
            recent: self.recent_pnl@,
            window: self.window_size as int,
        }
    }
}

impl Clone for ModeStats {
    fn clone(&self) -> (r: Self)
        ensures
            r@ == self@,
    {
        let mut recent: VecDeque<Decimal> = VecDeque::new();
        let mut i: usize = 0;
        while i < self.recent_pnl.len()
            invariant
                i <= self.recent_pnl@.len(),
                recent@ =~= self.recent_pnl@.take(i as int),
            decreases self.recent_pnl@.len() - i,
        {
            recent.push_back(self.recent_pnl[i]);
            i += 1;
        }
        assert(self.recent_pnl@.take(i as int) =~= self.recent_pnl@);
        ModeStats {
            entered: self.entered,
            won: self.won,
            lost: self.lost,
            total_pnl: self.total_pnl,
            recent_pnl: recent,
            window_size: self.window_size,
        }
    }
}

impl ModeStats {
    /// Figures of a mode that has not traded.
    pub fn new(window_size: usize) -> (r: Self)
        ensures
            r@ == StatsView::blank(window_size as int),
    {
        ModeStats {
            entered: 0,
            won: 0,
            lost: 0,
            total_pnl: Decimal::zero(),
            recent_pnl: VecDeque::new(),
            window_size,
        }
    }

    /// The figures as plain values.
    pub fn counts(&self) -> (r: (u64, u64, u64, Decimal))
        ensures
            r.0 == self@.entered,
            r.1 == self@.won,
            r.2 == self@.lost,
            r.3 == self@.total,
    {
        (self.entered, self.won, self.lost, self.total_pnl)
    }

    /// The share of won trades, in [0, 1]; zero without a trade.
    pub fn win_rate(&self) -> (r: Result<Decimal, Overflow>)
        ensures
            ok_of(r) == self@.win_rate(),
            r is Ok ==> at_most(zero(), r->Ok_0) && at_most(r->Ok_0, one()),
    {
        proof {
            lemma_dec_parts(0, 0);
            lemma_dec_parts(1, 0);
            lemma_dec_parts(self.won as int, 0);
            lemma_dec_parts(self.won + self.lost, 0);
            assert(pow10(0) == 1);
        }
        match self.won.checked_add(self.lost) {
            None => Err(Overflow),
            Some(completed) => {
                if completed == 0 {
                    return Ok(Decimal::zero());
                }
                Decimal::from_u64(self.won).over(Decimal::from_u64(completed))
            },
        }
    }

    /// The mean of the recent results; zero without one.
    pub fn avg_pnl(&self) -> (r: Result<Decimal, Overflow>)
        ensures
            ok_of(r) == (if self@.recent.len() == 0 {
                Some(zero())
            } else {
                over(pnl_sum(self@.recent), Some(dec(self@.recent.len() as int, 0)))
            }),
            r is Ok && self@.recent.len() > 0 ==> is_ratio(
                value(pnl_sum(self@.recent)->0),
                self@.recent.len() as real,
                value(r->Ok_0),
            ),
    {
        if self.recent_pnl.len() == 0 {
            return Ok(Decimal::zero());
        }
        let ghost s = self.recent_pnl@;
        let mut sum: Decimal = Decimal::zero();
        let mut i: usize = 0;
        while i < self.recent_pnl.len()
            invariant
                i <= s.len(),
                s == self.recent_pnl@,
                pnl_sum(s.take(i as int)) == Some(sum),
            decreases s.len() - i,
        {
            assert(s.take(i as int + 1).drop_last() =~= s.take(i as int));
            match sum.plus(self.recent_pnl[i]) {
                Ok(d) => {
                    sum = d;
                },
                Err(_) => {
                    proof {
                        lemma_pnl_sum_overflows(s, i as int + 1);
                    }
                    return Err(Overflow);
                },
            }
            i += 1;
        }
        assert(s.take(i as int) =~= s);
        proof {
            let n = dec(s.len() as int, 0);
            value_of_parts(s.len() as int, 0);
            if quotient_of(sum, n) is Some {
                quotients_divide(sum, n);
            }
        }
        sum.over(Decimal::from_u64(self.recent_pnl.len() as u64))
    }

    /// Counts a result; an error, with nothing counted, where a figure leaves its range.
    pub fn record(&mut self, pnl: Decimal) -> (r: Result<(), Overflow>)
        ensures
            r is Ok <==> old(self)@.recorded(pnl) is Some,
            r is Ok ==> old(self)@.recorded(pnl) == Some(final(self)@),
            r is Err ==> *final(self) == *old(self),
    {
        let total: Decimal = self.total_pnl.plus(pnl)?;
        let win: bool = pnl.ge(Decimal::zero());
        if self.entered == u64::MAX || (win && self.won == u64::MAX) || (!win && self.lost
            == u64::MAX) {
            return Err(Overflow);
        }
        self.entered = self.entered + 1;
        if win {
            self.won = self.won + 1;
        } else {
            self.lost = self.lost + 1;
        }
        self.total_pnl = total;
        self.recent_pnl.push_back(pnl);
        if self.recent_pnl.len() > self.window_size {
            self.recent_pnl.pop_front();
            assert(self.recent_pnl@ =~= old(self).recent_pnl@.push(pnl).skip(1));
        }
        Ok(())
    }

    /// The figures once results are counted one after the other; an error where a figure
    /// leaves its range.
    pub fn after_all(&self, pnls: &Vec<Decimal>) -> (r: Result<ModeStats, Overflow>)
        ensures
            match self@.recorded_all(pnls@) {
                Some(s) => r is Ok && r->Ok_0@ == s,
                None => r is Err,
            },
    {
        let mut stats: ModeStats = self.clone();
        let mut i: usize = 0;
        while i < pnls.len()
            invariant
                i <= pnls@.len(),
                self@.recorded_all(pnls@.take(i as int)) == Some(stats@),
            decreases pnls@.len() - i,
        {
            assert(pnls@.take(i as int + 1).drop_last() =~= pnls@.take(i as int));
            match stats.record(pnls[i]) {
                Ok(_) => {},
                Err(_) => {
                    proof {
                        lemma_recording_overflows(self@, pnls@, i as int + 1);
                    }
                    return Err(Overflow);
                },
            }
            i += 1;
        }
        assert(pnls@.take(i as int) =~= pnls@);
        Ok(stats)
    }

    /// Adds a cost or gain to the total without counting a trade.
    pub fn adjust_pnl(&mut self, amount: Decimal) -> (r: Result<(), Overflow>)
        ensures
            match old(self)@.adjusted(amount) {
                Some(s) => r is Ok && final(self)@ == s,
                None => r is Err && *final(self) == *old(self),
            },
    {
        self.total_pnl = self.total_pnl.plus(amount)?;
        Ok(())
    }

    /// Completed trades.
    pub fn total_trades(&self) -> (r: u64)
        requires
            self@.won + self@.lost <= u64::MAX,
        ensures
            r == self@.won + self@.lost,
    {
        self.won + self.lost
    }

    /// Completed trades, at most the largest number.
    pub fn total_trades_or_max(&self) -> (r: u64)
        ensures
            self@.won + self@.lost <= u64::MAX ==> r == self@.won + self@.lost,
            self@.won + self@.lost > u64::MAX ==> r == u64::MAX,
    {
        self.won.saturating_add(self.lost)
    }
}

/// Figures on orders.
#[derive(Debug)]
pub struct OrderTelemetry {
    /// Post-only orders that would have matched.
    pub post_only_rejects: u64,
    /// Seconds to the market's end, and milliseconds until the fill, of filled orders.
    pub fill_times: Vec<(i64, i64)>,
    /// Orders cancelled before a fill, by coin.
    pub cancel_before_fill: Table<u64>,
    pub total_orders: u64,
    pub total_fills: u64,
    pub total_cancels: u64,
}

impl OrderTelemetry {
    /// Figures without an order.
    pub fn new() -> (r: Self)
        ensures
            r.post_only_rejects == 0,
            r.fill_times@ == Seq::<(i64, i64)>::empty(),
            r.cancel_before_fill.rows() == Seq::<(Seq<char>, u64)>::empty(),
            r.total_orders == 0,
            r.total_fills == 0,
            r.total_cancels == 0,
    {
        OrderTelemetry {
            post_only_rejects: 0,
            fill_times: Vec::new(),
            cancel_before_fill: Table::new(),
            total_orders: 0,
            total_fills: 0,
            total_cancels: 0,
        }
    }
}

/// Why a sale was rejected.
#[derive(Clone, Copy, Debug, PartialEq, Eq, Structural)]
pub enum StopLossRejectionKind {
    /// Not enough on the other side of the book.
    Liquidity,
    /// The tokens have not settled.
    BalanceAllowance,
    /// The position is too small to be sold.
    InvalidSize,
    /// Anything else.
    Transient,
}

/// The kind of a rejection, by what its lower-case text holds.
pub open spec fn rejection_kind(reason: Seq<char>) -> StopLossRejectionKind {
    lower_rejection_kind(lower_text(reason))
}

/// The kind of a rejection whose text is in lower case already.
pub open spec fn lower_rejection_kind(lower: Seq<char>) -> StopLossRejectionKind {
    if occurs(lower, "fully filled"@) || occurs(lower, "no match"@) {
        StopLossRejectionKind::Liquidity
    } else if occurs(lower, "not enough balance"@) || occurs(lower, "allowance"@) {
        StopLossRejectionKind::BalanceAllowance
    } else if occurs(lower, "invalid amounts"@) || occurs(lower, "must be higher than 0"@) {
        StopLossRejectionKind::InvalidSize
    } else {
        StopLossRejectionKind::Transient
    }
}

impl StopLossRejectionKind {
    /// The kind of a rejection whose text is in lower case already.
    pub fn classify_lower(lower: &str) -> (r: Self)
        ensures
            r == lower_rejection_kind(lower@),
    {
        if contains_text(lower, "fully filled") || contains_text(lower, "no match") {
            StopLossRejectionKind::Liquidity
        } else if contains_text(lower, "not enough balance") || contains_text(lower, "allowance") {
            StopLossRejectionKind::BalanceAllowance
        } else if contains_text(lower, "invalid amounts") || contains_text(
            lower,
            "must be higher than 0",
        ) {
            StopLossRejectionKind::InvalidSize
        } else {
            StopLossRejectionKind::Transient
        }
    }

    /// The kind of a rejection.
    pub fn classify(reason: &str) -> (r: Self)
        ensures
            r == rejection_kind(reason@),
    {
        Self::classify_lower(to_lower(reason).as_str())
    }

    /// The retry schedule of the kind.
    pub fn cooldown_schedule<'a>(&self, liquidity: &'a [u64], balance: &'a [u64]) -> (r: &'a [u64])
        ensures
            r == (if *self == StopLossRejectionKind::Liquidity {
                liquidity
            } else {
                balance
            }),
    {
        match self {
            StopLossRejectionKind::Liquidity => liquidity,
            StopLossRejectionKind::BalanceAllowance
            | StopLossRejectionKind::Transient
            | StopLossRejectionKind::InvalidSize => balance,
        }
    }
}

/// A result of 0 or more counts as won, any other as lost, and the total grows by it.
pub proof fn a_result_counts_by_its_sign(s: StatsView, pnl: Decimal)
    requires
        s.recorded(pnl) is Some,
        sum_is_exact(s.total, pnl),
    ensures
        ({
            let t = s.recorded(pnl)->0;
            &&& value(pnl) >= 0 as real ==> t.won == s.won + 1 && t.lost == s.lost
            &&& value(pnl) < 0 as real ==> t.won == s.won && t.lost == s.lost + 1
            &&& t.entered == s.entered + 1
            &&& value(t.total) == value(s.total) + value(pnl)
        }),
{
    signs_agree(pnl);
    comparing_compares_values(zero(), pnl);
    sums_add_up(s.total, pnl);
}

/// An adjustment moves the total and nothing else.
pub proof fn an_adjustment_moves_the_total(s: StatsView, amount: Decimal)
    requires
        sum_is_exact(s.total, amount),
    ensures
        s.adjusted(amount) is Some,
        value(s.adjusted(amount)->0.total) == value(s.total) + value(amount),
        (StatsView { total: s.total, ..s.adjusted(amount)->0 }) == s,
{
    sums_add_up(s.total, amount);
}

/// The win rate is the share of the results that were won. The 28th digit is left to rounding.
pub proof fn the_win_rate_is_the_share_won(s: StatsView)
    requires
        0 <= s.won,
        0 <= s.lost,
        s.win_rate() is Some,
    ensures
        s.won + s.lost == 0 ==> value(s.win_rate()->0) == 0 as real,
        s.won + s.lost > 0 ==> is_ratio(
            s.won as real,
            (s.won + s.lost) as real,
            value(s.win_rate()->0),
        ),
{
    signs_agree(zero());
    if s.won + s.lost > 0 {
        value_of_parts(s.won, 0);
        value_of_parts(s.won + s.lost, 0);
        quotients_divide(dec(s.won, 0), dec(s.won + s.lost, 0));
    }
}

/// One result more adds itself to the sum; no results sum to 0.
pub proof fn sums_grow_by_each_result(s: Seq<Decimal>, pnl: Decimal, sum: Decimal)
    requires
        pnl_sum(s) == Some(sum),
        sum_is_exact(sum, pnl),
    ensures
        pnl_sum(s.push(pnl)) is Some,
        value(pnl_sum(s.push(pnl))->0) == value(sum) + value(pnl),
        s.len() == 0 ==> value(sum) == 0 as real,
{
    assert(s.push(pnl).drop_last() =~= s);
    sums_add_up(sum, pnl);
    signs_agree(zero());
}

/// What a rejected sale lacks is told by what the reason speaks of: takers first, then balance, then
/// size; a reason that speaks of none of these passes.
pub proof fn a_reason_tells_what_a_sale_lacks(reason: Seq<char>)
    ensures
        ({
            let lower = lower_text(reason);
            let takers = occurs(lower, "fully filled"@) || occurs(lower, "no match"@);
            let balance = occurs(lower, "not enough balance"@) || occurs(lower, "allowance"@);
            let size = occurs(lower, "invalid amounts"@) || occurs(lower, "must be higher than 0"@);
            let kind = rejection_kind(reason);
            &&& kind == StopLossRejectionKind::Liquidity <==> takers
            &&& kind == StopLossRejectionKind::BalanceAllowance <==> !takers && balance
            &&& kind == StopLossRejectionKind::InvalidSize <==> !takers && !balance && size
            &&& kind == StopLossRejectionKind::Transient <==> !takers && !balance && !size
        }),
{
}

} // verus!
