//! Position lifecycles: the state machine of an exit, the blended stop-loss price, and
//! the four levels of triggers.
use crate::config::{StopLossConfig, TailEndConfig, UnifiedPriceConfig};
use crate::decimal::{
    Decimal, Overflow, at_most, at_most_is_transitive, dec, decimal_text, difference_of, fits,
    larger, lemma_dec_parts, lemma_is_whole_number, less, minus, ok_of, one, over, plus, pow10,
    product_of, quotient_of, smaller, sum_of, times, zero,
};
use crate::domain::market::CompositePriceSnapshot;
use crate::domain::position::copy_id;
use crate::exchange::{OrderId, OrderType, OutcomeSide};
use crate::text::{int_text, opt_text, owned, u64_to_text};
use crate::time::{DateTime, secs_between};
use crate::value::{
    comparing_compares_values, difference_is_exact, differences_add_up, is_amount, is_ratio,
    lemma_within_basics, lemma_within_more, max_of, min_of, picking_picks_values, product_is_exact,
    products_multiply, quotients_compare, quotients_divide, signs_agree, slack,
    small_products_are_exact, small_sums_are_exact, sum_is_exact, sums_add_up, value,
    value_of_parts,
};
use vstd::prelude::*;
use vstd::string::*;

verus! {

/// Why a position is to be sold. A hard crash comes before a dual trigger, that before a
/// trailing stop, that before a post-entry exit.
#[derive(Clone, Copy, Debug)]
pub enum StopLossTriggerKind {
    /// The price dropped, or the external price reversed, by a lot.
    HardCrash { bid_drop: Decimal, reversal_pct: Decimal },
    /// The external price reversed and the market price dropped for so many ticks.
    DualTrigger { consecutive_ticks: usize },
    /// The price fell from its peak.
    TrailingStop { peak_price: Decimal, current_price: Decimal, effective_distance: Decimal },
    /// The price dropped soon after entry.
    PostEntryExit { bid_drop: Decimal },
}

impl StopLossTriggerKind {
    /// Short name of the trigger.
    pub open spec fn short_name_of(self) -> Seq<char> {
        match self {
            StopLossTriggerKind::HardCrash { .. } => "hard_crash"@,
            StopLossTriggerKind::DualTrigger { .. } => "dual_trigger"@,
            StopLossTriggerKind::TrailingStop { .. } => "trailing"@,
            StopLossTriggerKind::PostEntryExit { .. } => "post_entry"@,
        }
    }

    /// Short name of the trigger, for tags and metrics.
    pub fn short_name(&self) -> (r: &'static str)
        ensures
            r@ == self.short_name_of(),
    {
        match self {
            StopLossTriggerKind::HardCrash { .. } => "hard_crash",
            StopLossTriggerKind::DualTrigger { .. } => "dual_trigger",
            StopLossTriggerKind::TrailingStop { .. } => "trailing",
            StopLossTriggerKind::PostEntryExit { .. } => "post_entry",
        }
    }

    /// The trigger with its figures.
    pub open spec fn text_of(self) -> Seq<char> {
        match self {
            StopLossTriggerKind::HardCrash { bid_drop, reversal_pct } => "HardCrash(bid_drop="@
                + decimal_text(bid_drop) + ", reversal="@ + decimal_text(reversal_pct) + ")"@,
            StopLossTriggerKind::DualTrigger { consecutive_ticks } => "DualTrigger(ticks="@
                + int_text(consecutive_ticks as int) + ")"@,
            StopLossTriggerKind::TrailingStop { peak_price, current_price, effective_distance } =>
            "TrailingStop(peak="@ + decimal_text(peak_price) + ", current="@ + decimal_text(
                current_price,
            ) + ", dist="@ + decimal_text(effective_distance) + ")"@,
            StopLossTriggerKind::PostEntryExit { bid_drop } => "PostEntryExit(bid_drop="@
                + decimal_text(bid_drop) + ")"@,
        }
    }

    /// The trigger with its figures.
    pub fn to_string(&self) -> (r: String)
        ensures
            r@ == self.text_of(),
    {
        match self {
            StopLossTriggerKind::HardCrash { bid_drop, reversal_pct } => {
                let mut s = owned("HardCrash(bid_drop=");
                s.append(bid_drop.to_string().as_str());
                s.append(", reversal=");
                s.append(reversal_pct.to_string().as_str());
                s.append(")");
                s
            },
            StopLossTriggerKind::DualTrigger { consecutive_ticks } => {
                let mut s = owned("DualTrigger(ticks=");
                s.append(u64_to_text(*consecutive_ticks as u64).as_str());
                s.append(")");
                s
            },
            StopLossTriggerKind::TrailingStop { peak_price, current_price, effective_distance } => {
                let mut s = owned("TrailingStop(peak=");
                s.append(peak_price.to_string().as_str());
                s.append(", current=");
                s.append(current_price.to_string().as_str());
                s.append(", dist=");
                s.append(effective_distance.to_string().as_str());
                s.append(")");
                s
            },
            StopLossTriggerKind::PostEntryExit { bid_drop } => {
                let mut s = owned("PostEntryExit(bid_drop=");
                s.append(bid_drop.to_string().as_str());
                s.append(")");
                s
            },
        }
    }
}

/// State of a position.
///
/// - `Healthy` to `ExitExecuting`: a trigger fired;
/// - `ExitExecuting` to `ExitExecuting`: the rest of a partly filled exit;
/// - `ExitExecuting` to `Healthy`: the exit was cancelled, rejected or filled nothing;
/// - `ExitExecuting` to `Hedged`: the opposite token completed the set.
#[derive(Debug)]
pub enum PositionLifecycleState {
    /// No trigger has fired.
    Healthy,
    /// An exit order is in flight, perhaps with a hedge order.
    ExitExecuting {
        order_id: OrderId,
        order_type: OrderType,
        exit_price: Decimal,
        submitted_at: DateTime,
        hedge_order_id: Option<OrderId>,
        hedge_price: Option<Decimal>,
    },
    /// Both tokens are held until the market ends.
    Hedged { hedge_cost: Decimal, hedged_at: DateTime },
}

/// State of a position, as plain values.
pub ghost enum StateView {
    Healthy,
    ExitExecuting {
        order_id: Seq<char>,
        order_type: OrderType,
        exit_price: Decimal,
        submitted_at: DateTime,
        hedge_order_id: Option<Seq<char>>,
        hedge_price: Option<Decimal>,
    },
    Hedged { hedge_cost: Decimal, hedged_at: DateTime },
}

impl View for PositionLifecycleState {
    type V = StateView;

    open spec fn view(&self) -> StateView {
        match *self {
            PositionLifecycleState::Healthy => StateView::Healthy,
            PositionLifecycleState::ExitExecuting {
                order_id,
                order_type,
                exit_price,
                submitted_at,
                hedge_order_id,
                hedge_price,
            } => StateView::ExitExecuting {
                order_id: order_id@,
                order_type,
                exit_price,
                submitted_at,
                hedge_order_id: opt_text(hedge_order_id),
                hedge_price,
            },
            PositionLifecycleState::Hedged { hedge_cost, hedged_at } => StateView::Hedged {
                hedge_cost,
                hedged_at,
            },
        }
    }
}

impl Clone for PositionLifecycleState {
    fn clone(&self) -> (r: Self)
        ensures
            r == *self,
    {
        match self {
            PositionLifecycleState::Healthy => PositionLifecycleState::Healthy,
            PositionLifecycleState::ExitExecuting {
                order_id,
                order_type,
                exit_price,
                submitted_at,
                hedge_order_id,
                hedge_price,
            } => PositionLifecycleState::ExitExecuting {
                order_id: order_id.clone(),
                order_type: *order_type,
                exit_price: *exit_price,
                submitted_at: *submitted_at,
                hedge_order_id: copy_id(hedge_order_id),
                hedge_price: *hedge_price,
            },
            PositionLifecycleState::Hedged { hedge_cost, hedged_at } => PositionLifecycleState::Hedged {
                hedge_cost: *hedge_cost,
                hedged_at: *hedged_at,
            },
        }
    }
}

impl StateView {
    /// Name of the state.
    pub open spec fn name_of(self) -> Seq<char> {
        match self {
            StateView::Healthy => "Healthy"@,
            StateView::ExitExecuting { .. } => "ExitExecuting"@,
            StateView::Hedged { .. } => "Hedged"@,
        }
    }

    /// The state with its figures.
    pub open spec fn text_of(self) -> Seq<char> {
        match self {
            StateView::Healthy => "Healthy"@,
            StateView::ExitExecuting { order_type, exit_price, hedge_order_id, .. } =>
            "ExitExecuting("@ + order_type.name_of() + "@"@ + decimal_text(exit_price) + (
            if hedge_order_id is Some {
                "+hedge)"@
            } else {
                ")"@
            }),
            StateView::Hedged { hedge_cost, .. } => "Hedged(cost="@ + decimal_text(
                hedge_cost,
            ) + ")"@,
        }
    }

    /// Whether a position may go from `self` to `target`.
    pub open spec fn may_become(self, target: StateView) -> bool {
        ||| self is Healthy && target is ExitExecuting
        ||| self is ExitExecuting
    }
}

impl PositionLifecycleState {
    /// Name of the state.
    pub fn name(&self) -> (r: &'static str)
        ensures
            r@ == self@.name_of(),
    {
        match self {
            PositionLifecycleState::Healthy => "Healthy",
            PositionLifecycleState::ExitExecuting { .. } => "ExitExecuting",
            PositionLifecycleState::Hedged { .. } => "Hedged",
        }
    }

    /// The state with its figures.
    pub fn to_string(&self) -> (r: String)
        ensures
            r@ == self@.text_of(),
    {
        match self {
            PositionLifecycleState::Healthy => owned("Healthy"),
            PositionLifecycleState::ExitExecuting { order_type, exit_price, hedge_order_id, .. } => {
                let mut s = owned("ExitExecuting(");
                s.append(order_type.name());
                s.append("@");
                s.append(exit_price.to_string().as_str());
                if hedge_order_id.is_some() {
                    s.append("+hedge)");
                } else {
                    s.append(")");
                }
                s
            },
            PositionLifecycleState::Hedged { hedge_cost, .. } => {
                let mut s = owned("Hedged(cost=");
                s.append(hedge_cost.to_string().as_str());
                s.append(")");
                s
            },
        }
    }

    /// Whether a position may go from `self` to `target`.
    pub fn can_transition_to(&self, target: &PositionLifecycleState) -> (r: bool)
        ensures
            r == self@.may_become(target@),
    {
        match (self, target) {
            (PositionLifecycleState::Healthy, PositionLifecycleState::ExitExecuting { .. }) => true,
            (
                PositionLifecycleState::ExitExecuting { .. },
                PositionLifecycleState::ExitExecuting { .. },
            ) => true,
            (PositionLifecycleState::ExitExecuting { .. }, PositionLifecycleState::Healthy) => true,
            (PositionLifecycleState::ExitExecuting { .. }, PositionLifecycleState::Hedged { .. }) => true,
            _ => false,
        }
    }
}

/// Most entries in a transition log.
pub const TRANSITION_LOG_CAP: usize = 50;

/// The lifecycle of a position.
#[derive(Debug)]
pub struct PositionLifecycle {
    pub state: PositionLifecycleState,
    /// Consecutive ticks for which the dual trigger held.
    pub dual_trigger_ticks: usize,
    /// The entry is too near the price cap for a trailing stop.
    pub trailing_unarmable: bool,
    /// Latest composite price.
    pub last_composite: Option<CompositePriceSnapshot>,
    pub last_composite_at: Option<DateTime>,
    /// Exit order in flight.
    pub pending_exit_order_id: Option<OrderId>,
    /// Transitions, oldest first.
    pub transition_log: Vec<(DateTime, String)>,
}

/// A lifecycle as plain values.
pub ghost struct LifecycleView {
    pub state: StateView,
    pub ticks: int,
    pub unarmable: bool,
    pub composite: Option<CompositePriceSnapshot>,
    pub composite_at: Option<DateTime>,
    pub pending_exit: Option<Seq<char>>,
    pub log: Seq<(DateTime, Seq<char>)>,
}

/// The entries of a log.
pub open spec fn log_view(log: Seq<(DateTime, String)>) -> Seq<(DateTime, Seq<char>)> {
    Seq::new(log.len(), |i: int| (log[i].0, log[i].1@))
}

/// The latest `TRANSITION_LOG_CAP` entries.
pub open spec fn capped(log: Seq<(DateTime, Seq<char>)>) -> Seq<(DateTime, Seq<char>)> {
    if log.len() > TRANSITION_LOG_CAP {
        log.skip(log.len() - TRANSITION_LOG_CAP)
    } else {
        log
    }
}

/// The log entry of a transition.
pub open spec fn transition_text(from: StateView, to: StateView, reason: Seq<char>) -> Seq<char> {
    from.name_of() + " -> "@ + to.name_of() + ": "@ + reason
}

/// A call that asks for a transition.
pub ghost struct TransitionCall {
    pub target: StateView,
    pub reason: Seq<char>,
    pub now: DateTime,
}

impl LifecycleView {
    /// The lifecycle after calls, one after the other.
    pub open spec fn after_calls(self, calls: Seq<TransitionCall>) -> LifecycleView
        decreases calls.len(),
    {
        if calls.len() == 0 {
            self
        } else {
            let c = calls.last();
            self.after_calls(calls.drop_last()).moved_if_allowed(c.target, c.reason, c.now)
        }
    }

    /// The entries of the calls that succeed, in order.
    pub open spec fn entries_of(self, calls: Seq<TransitionCall>) -> Seq<(DateTime, Seq<char>)>
        decreases calls.len(),
    {
        if calls.len() == 0 {
            Seq::empty()
        } else {
            let c = calls.last();
            let state = self.after_calls(calls.drop_last()).state;
            if state.may_become(c.target) {
                self.entries_of(calls.drop_last()).push(
                    (c.now, transition_text(state, c.target, c.reason)),
                )
            } else {
                self.entries_of(calls.drop_last())
            }
        }
    }

    /// The lifecycle of a new position.
    pub open spec fn fresh() -> LifecycleView {
        LifecycleView {
            state: StateView::Healthy,
            ticks: 0,
            unarmable: false,
            composite: None,
            composite_at: None,
            pending_exit: None,
            log: Seq::empty(),
        }
    }

    /// The lifecycle after a transition.
    pub open spec fn moved(
        self,
        target: StateView,
        reason: Seq<char>,
        now: DateTime,
    ) -> LifecycleView {
        LifecycleView {
            state: target,
            log: capped(
                self.log.push(
                    (now, transition_text(self.state, target, reason)),
                ),
            ),
            ..self
        }
    }

    /// The lifecycle after a transition where it is allowed, else as it was.
    pub open spec fn moved_if_allowed(
        self,
        target: StateView,
        reason: Seq<char>,
        now: DateTime,
    ) -> LifecycleView {
        if self.state.may_become(target) {
            self.moved(target, reason, now)
        } else {
            self
        }
    }
}

impl View for PositionLifecycle {
    type V = LifecycleView;

    open spec fn view(&self) -> LifecycleView {
        LifecycleView {
            state: self.state@,
            ticks: self.dual_trigger_ticks as int,
            unarmable: self.trailing_unarmable,
            composite: self.last_composite,
            composite_at: self.last_composite_at,
            pending_exit: opt_text(self.pending_exit_order_id),
            log: log_view(self.transition_log@),
        }
    }
}

impl Default for PositionLifecycle {
    fn default() -> (r: Self)
        ensures
            r@ == LifecycleView::fresh(),
    {
        PositionLifecycle::new()
    }
}

impl Clone for PositionLifecycle {
    fn clone(&self) -> (r: Self)
        ensures
            r@ == self@,
    {
        let mut log: Vec<(DateTime, String)> = Vec::new();
        let mut i: usize = 0;
        while i < self.transition_log.len()
            invariant
                i <= self.transition_log@.len(),
                log@.len() == i,
                forall|j: int| 0 <= j < i ==> log@[j] == self.transition_log@[j],
            decreases self.transition_log@.len() - i,
        {
            log.push((self.transition_log[i].0, self.transition_log[i].1.clone()));
            i += 1;
        }
        let r = PositionLifecycle {
            state: self.state.clone(),
            dual_trigger_ticks: self.dual_trigger_ticks,
            trailing_unarmable: self.trailing_unarmable,
            last_composite: self.last_composite,
            last_composite_at: self.last_composite_at,
            pending_exit_order_id: copy_id(&self.pending_exit_order_id),
            transition_log: log,
        };
        assert(log_view(log@) =~= log_view(self.transition_log@));
        r
    }
}

/// The text of a refused transition.
pub open spec fn refusal_text(
    from: StateView,
    to: StateView,
    reason: Seq<char>,
) -> Seq<char> {
    "Invalid transition: "@ + from.name_of() + " -> "@ + to.name_of() + " (reason: "@ + reason
        + ")"@
}

/// After any calls on a new lifecycle the log holds the latest successful transitions, as many
/// as its cap allows, in order; refused calls leave no entry.
pub proof fn log_holds_the_latest_transitions(calls: Seq<TransitionCall>)
    ensures
        ({
            let log = LifecycleView::fresh().after_calls(calls).log;
            let entries = LifecycleView::fresh().entries_of(calls);
            &&& log == capped(entries)
            &&& log.len() == if entries.len() < TRANSITION_LOG_CAP {
                entries.len() as int
            } else {
                TRANSITION_LOG_CAP as int
            }
        }),
    decreases calls.len(),
{
    if calls.len() > 0 {
        log_holds_the_latest_transitions(calls.drop_last());
        let c = calls.last();
        let before = LifecycleView::fresh().after_calls(calls.drop_last());
        let entries = LifecycleView::fresh().entries_of(calls.drop_last());
        let e = (c.now, transition_text(before.state, c.target, c.reason));
        assert(capped(capped(entries).push(e)) =~= capped(entries.push(e)));
    }
}

/// A transition changes the state as allowed, and the log never exceeds its cap; a hedged
/// position stays hedged.
pub proof fn transitions_follow_the_machine(
    lc: LifecycleView,
    target: StateView,
    reason: Seq<char>,
    now: DateTime,
)
    requires
        lc.log.len() <= TRANSITION_LOG_CAP,
    ensures
        ({
            let next = lc.moved_if_allowed(target, reason, now);
            &&& next.log.len() <= TRANSITION_LOG_CAP
            &&& lc.state is Hedged ==> next == lc
            &&& lc.state is Healthy && !(target is ExitExecuting) ==> next == lc
            &&& lc.state is ExitExecuting ==> next.state == target
        }),
{
}

impl PositionLifecycle {
    /// The lifecycle of a new position.
    pub fn new() -> (r: Self)
        ensures
            r@ == LifecycleView::fresh(),
    {
        let r = PositionLifecycle {
            state: PositionLifecycleState::Healthy,
            dual_trigger_ticks: 0,
            trailing_unarmable: false,
            last_composite: None,
            last_composite_at: None,
            pending_exit_order_id: None,
            transition_log: Vec::new(),
        };
        assert(r@.log =~= LifecycleView::fresh().log);
        r
    }

    /// Goes to a new state and logs it, or says why it may not.
    pub fn transition(
        &mut self,
        new_state: PositionLifecycleState,
        reason: &str,
        now: DateTime,
    ) -> (r: Result<(), String>)
        ensures
            r is Ok <==> old(self)@.state.may_become(new_state@),
            r is Err ==> r->Err_0@ == refusal_text(old(self)@.state, new_state@, reason@)
                && *final(self) == *old(self),
            final(self)@ == old(self)@.moved_if_allowed(new_state@, reason@, now),
    {
        if !self.state.can_transition_to(&new_state) {
            let mut s = owned("Invalid transition: ");
            s.append(self.state.name());
            s.append(" -> ");
            s.append(new_state.name());
            s.append(" (reason: ");
            s.append(reason);
            s.append(")");
            return Err(s);
        }
        let mut entry = owned(self.state.name());
        entry.append(" -> ");
        entry.append(new_state.name());
        entry.append(": ");
        entry.append(reason);
        self.state = new_state;
        let ghost all = self.transition_log@.push((now, entry));
        assert(log_view(all) =~= log_view(old(self).transition_log@).push((now, entry@)));
        self.transition_log.push((now, entry));
        while self.transition_log.len() > TRANSITION_LOG_CAP
            invariant
                self.transition_log@.len() <= all.len(),
                self.transition_log@ =~= all.skip(all.len() - self.transition_log@.len()),
                all.len() <= TRANSITION_LOG_CAP ==> self.transition_log@.len() == all.len(),
                all.len() > TRANSITION_LOG_CAP ==> self.transition_log@.len()
                    >= TRANSITION_LOG_CAP,
                self.state == new_state,
                self.dual_trigger_ticks == old(self).dual_trigger_ticks,
                self.trailing_unarmable == old(self).trailing_unarmable,
                self.last_composite == old(self).last_composite,
                self.last_composite_at == old(self).last_composite_at,
                self.pending_exit_order_id == old(self).pending_exit_order_id,
            decreases self.transition_log@.len(),
        {
            self.transition_log.remove(0);
        }
        assert(log_view(self.transition_log@) =~= capped(log_view(all)));
        Ok(())
    }
}

/// A bid blended with the price that the external feed implies.
#[derive(Clone, Copy, Debug)]
pub struct UnifiedSlPrice {
    /// The blend, for the triggers.
    pub price: Decimal,
    /// The bid itself, for orders.
    pub raw_bid: Decimal,
    /// The implied price, when the feed has one.
    pub implied_price: Option<Decimal>,
    /// The feed had no price.
    pub degraded: bool,
}

/// How far the external price has moved against a position, relative to the reference;
/// zero for a zero reference.
pub open spec fn reversal_of(side: OutcomeSide, reference: Decimal, current: Decimal) -> Option<
    Decimal,
> {
    if reference.mantissa_of() == 0 {
        Some(zero())
    } else if side.bets_up() {
        over(minus(Some(reference), Some(current)), Some(reference))
    } else {
        over(minus(Some(current), Some(reference)), Some(reference))
    }
}

/// How far the external price has moved against a position, relative to the reference:
/// `(reference - current) / reference` for an up position, the opposite for a down one.
pub fn compute_reversal(side: OutcomeSide, reference_price: Decimal, current_price: Decimal) -> (r:
    Result<Decimal, Overflow>)
    ensures
        ok_of(r) == reversal_of(side, reference_price, current_price),
{
    if reference_price.is_zero() {
        return Ok(Decimal::zero());
    }
    let diff: Decimal = if side.is_up() {
        reference_price.minus(current_price)?
    } else {
        current_price.minus(reference_price)?
    };
    diff.over(reference_price)
}

/// The contract price after a reversal: the entry price less the adverse reversal times the
/// sensitivity, within `[0, 1]`. `None` is an overflow.
pub open spec fn reversed_price_of(
    entry_price: Decimal,
    reversal: Decimal,
    sensitivity: Decimal,
) -> Option<Decimal> {
    match minus(
        Some(entry_price),
        times(Some(larger(reversal, zero())), Some(sensitivity)),
    ) {
        None => None,
        Some(d) => Some(smaller(larger(d, zero()), one())),
    }
}

/// The implied price: `clamp(entry - max(0, reversal) * sensitivity, 0, 1)`.
pub open spec fn implied_of(
    entry_price: Decimal,
    side: OutcomeSide,
    reference: Decimal,
    external: Decimal,
    sensitivity: Decimal,
) -> Option<Decimal> {
    match reversal_of(side, reference, external) {
        None => None,
        Some(reversal) => reversed_price_of(entry_price, reversal, sensitivity),
    }
}

/// The contract price that a reversal implies: the entry price less the adverse reversal times
/// the sensitivity, within `[0, 1]`. An error where the arithmetic leaves the decimal range.
pub fn price_after_reversal(entry_price: Decimal, reversal: Decimal, sensitivity: Decimal) -> (r:
    Result<Decimal, Overflow>)
    ensures
        ok_of(r) == reversed_price_of(entry_price, reversal, sensitivity),
{
    let drop: Decimal = reversal.max(Decimal::zero()).times(sensitivity)?;
    let price: Decimal = entry_price.minus(drop)?;
    Ok(price.max(Decimal::zero()).min(Decimal::one()))
}

/// The blended stop-loss price.
pub open spec fn unified_of(
    current_bid: Decimal,
    entry_price: Decimal,
    side: OutcomeSide,
    reference: Decimal,
    external: Option<Decimal>,
    config: UnifiedPriceConfig,
) -> Option<UnifiedSlPrice> {
    match external {
        None => Some(
            UnifiedSlPrice {
                price: current_bid,
                raw_bid: current_bid,
                implied_price: None,
                degraded: true,
            },
        ),
        Some(ext) => if config.external_weight.mantissa_of() == 0 {
            Some(
                UnifiedSlPrice {
                    price: current_bid,
                    raw_bid: current_bid,
                    implied_price: None,
                    degraded: false,
                },
            )
        } else {
            match implied_of(entry_price, side, reference, ext, config.sensitivity) {
                None => None,
                Some(implied) => match plus(
                    times(
                        minus(Some(one()), Some(config.external_weight)),
                        Some(current_bid),
                    ),
                    times(Some(config.external_weight), Some(implied)),
                ) {
                    None => None,
                    Some(blend) => Some(
                        UnifiedSlPrice {
                            price: blend,
                            raw_bid: current_bid,
                            implied_price: Some(implied),
                            degraded: false,
                        },
                    ),
                },
            }
        },
    }
}

/// The blended stop-loss price:
/// `(1 - external_weight) * current_bid + external_weight * implied`; the bid itself
/// without an external price.
pub fn compute_unified_sl_price(
    current_bid: Decimal,
    entry_price: Decimal,
    side: OutcomeSide,
    reference_price: Decimal,
    external_price: Option<Decimal>,
    config: &UnifiedPriceConfig,
) -> (r: Result<UnifiedSlPrice, Overflow>)
    ensures
        ok_of(r) == unified_of(
            current_bid,
            entry_price,
            side,
            reference_price,
            external_price,
            *config,
        ),
{
    match external_price {
        None => Ok(
            UnifiedSlPrice {
                price: current_bid,
                raw_bid: current_bid,
                implied_price: None,
                degraded: true,
            },
        ),
        Some(ext) => {
            if config.external_weight.is_zero() {
                return Ok(
                    UnifiedSlPrice {
                        price: current_bid,
                        raw_bid: current_bid,
                        implied_price: None,
                        degraded: false,
                    },
                );
            }
            let reversal: Decimal = compute_reversal(side, reference_price, ext)?;
            let implied: Decimal = price_after_reversal(
                entry_price,
                reversal,
                config.sensitivity,
            )?;
            let w: Decimal = config.external_weight;
            let rest: Decimal = Decimal::one().minus(w)?;
            let own: Decimal = rest.times(current_bid)?;
            let other: Decimal = w.times(implied)?;
            let blended: Decimal = own.plus(other)?;
            Ok(
                UnifiedSlPrice {
                    price: blended,
                    raw_bid: current_bid,
                    implied_price: Some(implied),
                    degraded: false,
                },
            )
        },
    }
}

/// Without an external price, or with no weight on it, the blend is the bid; an implied
/// price lies in [0, 1].
pub proof fn unified_price_is_anchored(
    current_bid: Decimal,
    entry_price: Decimal,
    side: OutcomeSide,
    reference: Decimal,
    external: Option<Decimal>,
    config: UnifiedPriceConfig,
)
    requires
        unified_of(current_bid, entry_price, side, reference, external, config) is Some,
    ensures
        ({
            let u = unified_of(current_bid, entry_price, side, reference, external, config)->0;
            &&& u.raw_bid == current_bid
            &&& u.degraded == (external is None)
            &&& u.implied_price is None ==> u.price == current_bid
            &&& u.implied_price is Some ==> at_most(zero(), u.implied_price->0) && at_most(
                u.implied_price->0,
                one(),
            )
        }),
{
    lemma_dec_parts(0, 0);
    lemma_dec_parts(1, 0);
}

/// What the triggers look at.
#[derive(Clone, Copy, Debug)]
pub struct TriggerEvalContext {
    pub entry_price: Decimal,
    /// Highest blended price since entry.
    pub peak_price: Decimal,
    pub side: OutcomeSide,
    pub reference_price: Decimal,
    pub tick_size: Decimal,
    pub entry_time: DateTime,
    pub unified_price: UnifiedSlPrice,
    /// Age of the book, in milliseconds.
    pub book_age_ms: i64,
    /// The external price is recent.
    pub external_fresh: bool,
    /// The composite has enough sources.
    pub composite_ok: bool,
    pub time_remaining: i64,
    pub now: DateTime,
}

/// The reversal that an implied price stands for: `max(0, entry - implied) / sensitivity`.
pub open spec fn derived_reversal_of(
    entry_price: Decimal,
    implied: Decimal,
    sensitivity: Decimal,
) -> Option<Decimal> {
    match minus(Some(entry_price), Some(implied)) {
        None => None,
        Some(d) => if sensitivity.mantissa_of() == 0 {
            Some(zero())
        } else {
            quotient_of(larger(d, zero()), sensitivity)
        },
    }
}

fn derive_reversal(entry_price: Decimal, implied: Decimal, sensitivity: Decimal) -> (r: Result<
    Decimal,
    Overflow,
>)
    ensures
        ok_of(r) == derived_reversal_of(entry_price, implied, sensitivity),
{
    let drop: Decimal = entry_price.minus(implied)?.max(Decimal::zero());
    if sensitivity.is_zero() {
        Ok(Decimal::zero())
    } else {
        drop.over(sensitivity)
    }
}

/// The order book is recent enough for a trigger.
pub open spec fn book_fresh(ctx: TriggerEvalContext, sl: StopLossConfig) -> bool {
    ctx.book_age_ms <= sl.sl_max_book_age_ms
}

/// Drop of the blended price from entry.
pub open spec fn drop_of(ctx: TriggerEvalContext) -> Option<Decimal> {
    minus(Some(ctx.entry_price), Some(ctx.unified_price.price))
}

/// First level, for a drop and a reversal: one of them is large.
pub open spec fn crash_of(drop: Decimal, reversal: Decimal, sl: StopLossConfig) -> Option<
    StopLossTriggerKind,
> {
    if at_most(sl.hard_drop_abs, drop) || at_most(sl.hard_reversal_pct, reversal) {
        Some(StopLossTriggerKind::HardCrash { bid_drop: drop, reversal_pct: reversal })
    } else {
        None
    }
}

/// Whether a drop or a reversal is a crash.
pub fn crash_at(drop: Decimal, reversal: Decimal, sl: &StopLossConfig) -> (r: Option<
    StopLossTriggerKind,
>)
    ensures
        r == crash_of(drop, reversal, *sl),
{
    if drop.ge(sl.hard_drop_abs) || reversal.ge(sl.hard_reversal_pct) {
        Some(StopLossTriggerKind::HardCrash { bid_drop: drop, reversal_pct: reversal })
    } else {
        None
    }
}

/// First level: a large drop or reversal. `None` is an overflow.
pub open spec fn hard_crash_of(ctx: TriggerEvalContext, sl: StopLossConfig) -> Option<
    Option<StopLossTriggerKind>,
> {
    match ctx.unified_price.implied_price {
        Some(implied) => if book_fresh(ctx, sl) {
            match (
                drop_of(ctx),
                derived_reversal_of(ctx.entry_price, implied, sl.unified_price.sensitivity),
            ) {
                (Some(drop), Some(reversal)) => Some(crash_of(drop, reversal, sl)),
                _ => None,
            }
        } else {
            Some(None)
        },
        None => Some(None),
    }
}

fn hard_crash(ctx: &TriggerEvalContext, sl: &StopLossConfig) -> (r: Result<
    Option<StopLossTriggerKind>,
    Overflow,
>)
    ensures
        ok_of(r) == hard_crash_of(*ctx, *sl),
{
    match ctx.unified_price.implied_price {
        Some(implied) => {
            if ctx.book_age_ms > sl.sl_max_book_age_ms {
                return Ok(None);
            }
            let drop: Decimal = ctx.entry_price.minus(ctx.unified_price.price)?;
            let reversal: Decimal = derive_reversal(
                ctx.entry_price,
                implied,
                sl.unified_price.sensitivity,
            )?;
            Ok(crash_at(drop, reversal, sl))
        },
        None => Ok(None),
    }
}

/// The second level, for a drop and a reversal: both are large enough.
pub open spec fn dual_at(drop: Decimal, reversal: Decimal, sl: StopLossConfig) -> bool {
    at_most(sl.reversal_pct, reversal) && at_most(sl.min_drop, drop)
}

/// Whether a drop and a reversal are both large enough for the second level.
pub fn is_dual(drop: Decimal, reversal: Decimal, sl: &StopLossConfig) -> (r: bool)
    ensures
        r == dual_at(drop, reversal, *sl),
{
    reversal.ge(sl.reversal_pct) && drop.ge(sl.min_drop)
}

/// Whether the reversal and the drop of the second level hold. `None` is an overflow.
pub open spec fn dual_holds(ctx: TriggerEvalContext, sl: StopLossConfig) -> Option<bool> {
    match (ctx.unified_price.implied_price, drop_of(ctx)) {
        (_, None) => None,
        (None, Some(_)) => Some(false),
        (Some(implied), Some(drop)) => match derived_reversal_of(
            ctx.entry_price,
            implied,
            sl.unified_price.sensitivity,
        ) {
            None => None,
            Some(reversal) => Some(ctx.composite_ok && dual_at(drop, reversal, sl)),
        },
    }
}

/// Second level: the reversal and the drop for enough ticks in a row; with the new count
/// of ticks. `None` is an overflow.
pub open spec fn dual_of(ticks: int, ctx: TriggerEvalContext, sl: StopLossConfig) -> Option<
    (Option<StopLossTriggerKind>, int),
> {
    if book_fresh(ctx, sl) && ctx.external_fresh {
        match dual_holds(ctx, sl) {
            None => None,
            Some(true) => if ticks + 1 > usize::MAX {
                None
            } else if ticks + 1 >= sl.dual_trigger_consecutive_ticks {
                Some(
                    (
                        Some(
                            StopLossTriggerKind::DualTrigger {
                                consecutive_ticks: (ticks + 1) as usize,
                            },
                        ),
                        ticks + 1,
                    ),
                )
            } else {
                Some((None, ticks + 1))
            },
            Some(false) => Some((None, 0)),
        }
    } else {
        Some((None, ticks))
    }
}

fn dual_trigger(ticks: usize, ctx: &TriggerEvalContext, sl: &StopLossConfig) -> (r: Result<
    (Option<StopLossTriggerKind>, usize),
    Overflow,
>)
    ensures
        match dual_of(ticks as int, *ctx, *sl) {
            None => r is Err,
            Some(want) => r is Ok && r->Ok_0.0 == want.0 && r->Ok_0.1 == want.1,
        },
{
    if ctx.book_age_ms > sl.sl_max_book_age_ms || !ctx.external_fresh {
        return Ok((None, ticks));
    }
    let drop: Decimal = ctx.entry_price.minus(ctx.unified_price.price)?;
    let dual: bool = match ctx.unified_price.implied_price {
        Some(implied) => {
            let reversal: Decimal = derive_reversal(
                ctx.entry_price,
                implied,
                sl.unified_price.sensitivity,
            )?;
            is_dual(drop, reversal, sl)
        },
        None => false,
    };
    if ctx.composite_ok && dual {
        if ticks == usize::MAX {
            return Err(Overflow);
        }
        let next: usize = ticks + 1;
        if next >= sl.dual_trigger_consecutive_ticks {
            Ok((Some(StopLossTriggerKind::DualTrigger { consecutive_ticks: next }), next))
        } else {
            Ok((None, next))
        }
    } else {
        Ok((None, 0))
    }
}

/// The gain that arms the trailing stop: the configured one, or what is left below
/// `1 - tick`, if that is less.
pub open spec fn arm_distance_of(ctx: TriggerEvalContext, sl: StopLossConfig) -> Option<Decimal> {
    match minus(minus(Some(one()), Some(ctx.tick_size)), Some(ctx.entry_price)) {
        None => None,
        Some(room) => Some(smaller(sl.trailing_arm_distance, larger(room, zero()))),
    }
}

/// The trailing distance at a share of the window, of which what lies in `[0, 1]` counts; at
/// least the least distance.
pub open spec fn decayed_distance_of(share: Decimal, sl: StopLossConfig) -> Option<Decimal> {
    match times(Some(sl.trailing_distance), Some(smaller(larger(share, zero()), one()))) {
        None => None,
        Some(d) => Some(larger(d, sl.trailing_min_distance)),
    }
}

/// The trailing distance at a share of the window that remains.
pub fn decayed_distance(share: Decimal, sl: &StopLossConfig) -> (r: Result<Decimal, Overflow>)
    ensures
        ok_of(r) == decayed_distance_of(share, *sl),
{
    let part: Decimal = share.max(Decimal::zero()).min(Decimal::one());
    let distance: Decimal = sl.trailing_distance.times(part)?;
    Ok(distance.max(sl.trailing_min_distance))
}

/// The trailing distance; with time decay it shrinks with the share of the 900 s window
/// that remains, down to the least distance.
pub open spec fn trailing_distance_of(time_remaining: i64, sl: StopLossConfig) -> Option<Decimal> {
    if sl.time_decay {
        match over(Some(dec(time_remaining as int, 0)), Some(dec(900, 0))) {
            None => None,
            Some(share) => decayed_distance_of(share, sl),
        }
    } else {
        Some(sl.trailing_distance)
    }
}

/// Third level: a fall from the peak, once armed; with whether the stop cannot arm.
/// `None` is an overflow.
pub open spec fn trailing_of(ctx: TriggerEvalContext, sl: StopLossConfig) -> Option<
    (Option<StopLossTriggerKind>, bool),
> {
    if book_fresh(ctx, sl) && sl.trailing_enabled {
        match arm_distance_of(ctx, sl) {
            None => None,
            Some(arm) => if less(arm, ctx.tick_size) {
                Some((None, true))
            } else {
                match plus(Some(ctx.entry_price), Some(arm)) {
                    None => None,
                    Some(level) => if at_most(level, ctx.peak_price) {
                        match (
                            trailing_distance_of(ctx.time_remaining, sl),
                            minus(Some(ctx.peak_price), Some(ctx.unified_price.price)),
                        ) {
                            (Some(distance), Some(fall)) => if at_most(distance, fall) {
                                Some(
                                    (
                                        Some(
                                            StopLossTriggerKind::TrailingStop {
                                                peak_price: ctx.peak_price,
                                                current_price: ctx.unified_price.price,
                                                effective_distance: distance,
                                            },
                                        ),
                                        false,
                                    ),
                                )
                            } else {
                                Some((None, false))
                            },
                            _ => None,
                        }
                    } else {
                        Some((None, false))
                    },
                }
            },
        }
    } else {
        Some((None, false))
    }
}

/// The trailing distance at a time remaining.
pub fn trailing_distance_at(time_remaining: i64, sl: &StopLossConfig) -> (r: Result<
    Decimal,
    Overflow,
>)
    ensures
        ok_of(r) == trailing_distance_of(time_remaining, *sl),
{
    if sl.time_decay {
        let share: Decimal = Decimal::from_int(time_remaining).over(Decimal::from_int(900))?;
        decayed_distance(share, sl)
    } else {
        Ok(sl.trailing_distance)
    }
}

fn trailing_stop(ctx: &TriggerEvalContext, sl: &StopLossConfig) -> (r: Result<
    (Option<StopLossTriggerKind>, bool),
    Overflow,
>)
    ensures
        ok_of(r) == trailing_of(*ctx, *sl),
{
    if ctx.book_age_ms > sl.sl_max_book_age_ms || !sl.trailing_enabled {
        return Ok((None, false));
    }
    let cap: Decimal = Decimal::one().minus(ctx.tick_size)?;
    let room: Decimal = cap.minus(ctx.entry_price)?.max(Decimal::zero());
    let arm: Decimal = sl.trailing_arm_distance.min(room);
    if arm.lt(ctx.tick_size) {
        return Ok((None, true));
    }
    let level: Decimal = ctx.entry_price.plus(arm)?;
    if ctx.peak_price.lt(level) {
        return Ok((None, false));
    }
    let distance: Decimal = trailing_distance_at(ctx.time_remaining, sl)?;
    let fall: Decimal = ctx.peak_price.minus(ctx.unified_price.price)?;
    if fall.ge(distance) {
        Ok(
            (
                Some(
                    StopLossTriggerKind::TrailingStop {
                        peak_price: ctx.peak_price,
                        current_price: ctx.unified_price.price,
                        effective_distance: distance,
                    },
                ),
                false,
            ),
        )
    } else {
        Ok((None, false))
    }
}

/// Fourth level: a drop soon after entry. `None` is an overflow.
pub open spec fn post_entry_of(
    ctx: TriggerEvalContext,
    sl: StopLossConfig,
    te: TailEndConfig,
) -> Option<Option<StopLossTriggerKind>> {
    if secs_between(ctx.now, ctx.entry_time) < te.post_entry_window_secs && book_fresh(ctx, sl) {
        match drop_of(ctx) {
            None => None,
            Some(drop) => if at_most(te.post_entry_exit_drop, drop) {
                Some(Some(StopLossTriggerKind::PostEntryExit { bid_drop: drop }))
            } else {
                Some(None)
            },
        }
    } else {
        Some(None)
    }
}

fn post_entry_exit(ctx: &TriggerEvalContext, sl: &StopLossConfig, te: &TailEndConfig) -> (r: Result<
    Option<StopLossTriggerKind>,
    Overflow,
>)
    ensures
        ok_of(r) == post_entry_of(*ctx, *sl, *te),
{
    if ctx.now.secs_since(ctx.entry_time) < te.post_entry_window_secs && ctx.book_age_ms
        <= sl.sl_max_book_age_ms {
        let drop: Decimal = ctx.entry_price.minus(ctx.unified_price.price)?;
        if drop.ge(te.post_entry_exit_drop) {
            return Ok(Some(StopLossTriggerKind::PostEntryExit { bid_drop: drop }));
        }
    }
    Ok(None)
}

/// What an evaluation finds: the trigger that fires, the ticks of the dual trigger, and
/// whether the trailing stop cannot arm.
pub ghost struct TriggerOutcome {
    pub trigger: Option<StopLossTriggerKind>,
    pub ticks: int,
    pub unarmable: bool,
}

/// The evaluation of the four levels, highest first. `None` is an overflow.
pub open spec fn triggers_of(
    lc: LifecycleView,
    ctx: TriggerEvalContext,
    sl: StopLossConfig,
    te: TailEndConfig,
) -> Option<TriggerOutcome> {
    match hard_crash_of(ctx, sl) {
        None => None,
        Some(Some(k)) => Some(
            TriggerOutcome { trigger: Some(k), ticks: 0, unarmable: lc.unarmable },
        ),
        Some(None) => match dual_of(lc.ticks, ctx, sl) {
            None => None,
            Some((Some(k), ticks)) => Some(
                TriggerOutcome { trigger: Some(k), ticks, unarmable: lc.unarmable },
            ),
            Some((None, ticks)) => match trailing_of(ctx, sl) {
                None => None,
                Some((Some(k), _)) => Some(
                    TriggerOutcome { trigger: Some(k), ticks, unarmable: lc.unarmable },
                ),
                Some((None, stuck)) => match post_entry_of(ctx, sl, te) {
                    None => None,
                    Some(k) => Some(
                        TriggerOutcome { trigger: k, ticks, unarmable: lc.unarmable || stuck },
                    ),
                },
            },
        },
    }
}

/// A tick on which only the second level can fire: the book and the external price are fresh,
/// there is no hard crash, no trailing stop, and the time after entry is over.
pub open spec fn plain_tick(ctx: TriggerEvalContext, sl: StopLossConfig, te: TailEndConfig) -> bool {
    &&& book_fresh(ctx, sl) && ctx.external_fresh
    &&& hard_crash_of(ctx, sl) == Some(None::<StopLossTriggerKind>)
    &&& !sl.trailing_enabled
    &&& secs_between(ctx.now, ctx.entry_time) >= te.post_entry_window_secs
}

/// The lifecycle after ticks, one after the other. `None` is an overflow.
pub open spec fn after_ticks(
    lc: LifecycleView,
    ticks: Seq<TriggerEvalContext>,
    sl: StopLossConfig,
    te: TailEndConfig,
) -> Option<LifecycleView>
    decreases ticks.len(),
{
    if ticks.len() == 0 {
        Some(lc)
    } else {
        match after_ticks(lc, ticks.drop_last(), sl, te) {
            None => None,
            Some(before) => match triggers_of(before, ticks.last(), sl, te) {
                None => None,
                Some(out) => Some(
                    LifecycleView { ticks: out.ticks, unarmable: out.unarmable, ..before },
                ),
            },
        }
    }
}

/// What tick `i` of a run fires.
pub open spec fn fired_at(
    lc: LifecycleView,
    ticks: Seq<TriggerEvalContext>,
    i: int,
    sl: StopLossConfig,
    te: TailEndConfig,
) -> Option<StopLossTriggerKind> {
    triggers_of(after_ticks(lc, ticks.take(i), sl, te)->0, ticks[i], sl, te)->0.trigger
}

proof fn lemma_good_ticks_count(
    lc: LifecycleView,
    ticks: Seq<TriggerEvalContext>,
    sl: StopLossConfig,
    te: TailEndConfig,
)
    requires
        lc.ticks == 0,
        ticks.len() <= sl.dual_trigger_consecutive_ticks,
        forall|i: int| 0 <= i < ticks.len() ==> plain_tick(#[trigger] ticks[i], sl, te),
        forall|i: int|
            0 <= i < ticks.len() ==> dual_holds(#[trigger] ticks[i], sl) == Some(true),
    ensures
        after_ticks(lc, ticks, sl, te) is Some,
        after_ticks(lc, ticks, sl, te)->0.ticks == ticks.len(),
    decreases ticks.len(),
{
    if ticks.len() > 0 {
        let h = ticks.drop_last();
        assert(forall|i: int| 0 <= i < h.len() ==> h[i] == ticks[i]);
        lemma_good_ticks_count(lc, h, sl, te);
        assert(plain_tick(ticks[ticks.len() - 1], sl, te));
    }
}

/// Of a run of good ticks, as many as the dual trigger asks for, all but the last fire nothing
/// and the last fires it.
pub proof fn good_ticks_in_a_row_fire(
    lc: LifecycleView,
    ticks: Seq<TriggerEvalContext>,
    sl: StopLossConfig,
    te: TailEndConfig,
    i: int,
)
    requires
        lc.ticks == 0,
        0 <= i < ticks.len(),
        ticks.len() == sl.dual_trigger_consecutive_ticks,
        forall|k: int| 0 <= k < ticks.len() ==> plain_tick(#[trigger] ticks[k], sl, te),
        forall|k: int|
            0 <= k < ticks.len() ==> dual_holds(#[trigger] ticks[k], sl) == Some(true),
    ensures
        after_ticks(lc, ticks.take(i + 1), sl, te) is Some,
        fired_at(lc, ticks, i, sl, te) == (if i + 1 < ticks.len() {
            None
        } else {
            Some(
                StopLossTriggerKind::DualTrigger {
                    consecutive_ticks: sl.dual_trigger_consecutive_ticks,
                },
            )
        }),
{
    lemma_good_ticks_count(lc, ticks.take(i), sl, te);
    lemma_good_ticks_count(lc, ticks.take(i + 1), sl, te);
    assert(plain_tick(ticks[i], sl, te));
}

/// A tick that is not good fires nothing and starts the count over.
pub proof fn a_bad_tick_starts_over(
    lc: LifecycleView,
    ctx: TriggerEvalContext,
    sl: StopLossConfig,
    te: TailEndConfig,
)
    requires
        plain_tick(ctx, sl, te),
        dual_holds(ctx, sl) == Some(false),
    ensures
        triggers_of(lc, ctx, sl, te) == Some(
            TriggerOutcome { trigger: None, ticks: 0, unarmable: lc.unarmable },
        ),
{
}

/// A price at its peak fires no trailing stop: the stop compares the blended price with the
/// highest blended price, and a positive distance is not reached.
pub proof fn a_price_at_its_peak_does_not_trail(ctx: TriggerEvalContext, sl: StopLossConfig)
    requires
        fits(ctx.peak_price.mantissa_of(), ctx.peak_price.scale_of()),
        ctx.unified_price.price == ctx.peak_price,
        trailing_distance_of(ctx.time_remaining, sl) is Some,
        less(zero(), trailing_distance_of(ctx.time_remaining, sl)->0),
        trailing_of(ctx, sl) is Some,
    ensures
        (trailing_of(ctx, sl)->0).0 is None,
{
    reveal(crate::decimal::difference_of);
    let p = ctx.peak_price;
    let distance = trailing_distance_of(ctx.time_remaining, sl)->0;
    assert(pow10(0) == 1);
    assert(p.mantissa_of() * pow10(0) == p.mantissa_of()) by (nonlinear_arith)
        requires
            pow10(0) == 1,
    ;
    lemma_dec_parts(0, p.scale_of());
    lemma_dec_parts(0, 0);
    lemma_is_whole_number(distance, 0);
    let none = dec(0, p.scale_of());
    assert(difference_of(p, p) == Some(none));
    lemma_is_whole_number(none, 0);
    if at_most(distance, none) {
        assert(0 * pow10(p.scale_of() as nat) == 0);
        at_most_is_transitive(distance, none, zero());
    }
}

/// A reversal is the move against the side held, as a share of the reference: of a fall for a
/// bet on a rise, of a rise for a bet on a fall; a move in favour of the side is negative. The
/// 28th digit is left to rounding.
pub proof fn a_reversal_is_the_adverse_share(
    side: OutcomeSide,
    reference: Decimal,
    current: Decimal,
)
    requires
        value(reference) > 0 as real,
        difference_is_exact(reference, current),
        difference_is_exact(current, reference),
        reversal_of(side, reference, current) is Some,
    ensures
        ({
            let r = value(reversal_of(side, reference, current)->0);
            let (before, after) = (value(reference), value(current));
            let adverse = if side == OutcomeSide::Up || side == OutcomeSide::Yes {
                before - after
            } else {
                after - before
            };
            &&& is_ratio(adverse, before, r)
            &&& adverse <= 0 as real ==> r <= 0 as real
            &&& adverse >= 0 as real ==> r >= 0 as real
        }),
{
    signs_agree(reference);
    differences_add_up(reference, current);
    differences_add_up(current, reference);
    if side.bets_up() {
        quotients_divide(difference_of(reference, current)->0, reference);
    } else {
        quotients_divide(difference_of(current, reference)->0, reference);
    }
}

/// The price after a reversal is the entry price less the adverse reversal times the
/// sensitivity, no less than 0 and no more than 1; a move in favour changes nothing.
pub proof fn a_reversal_lowers_the_price(
    entry_price: Decimal,
    reversal: Decimal,
    sensitivity: Decimal,
)
    requires
        product_is_exact(larger(reversal, zero()), sensitivity),
        difference_is_exact(
            entry_price,
            product_of(larger(reversal, zero()), sensitivity)->0,
        ),
    ensures
        ({
            let price = reversed_price_of(entry_price, reversal, sensitivity);
            let fall = max_of(value(reversal), 0 as real) * value(sensitivity);
            &&& price is Some
            &&& value(price->0) == min_of(
                max_of(value(entry_price) - fall, 0 as real),
                1 as real,
            )
        }),
{
    signs_agree(reversal);
    picking_picks_values(reversal, zero());
    products_multiply(larger(reversal, zero()), sensitivity);
    let fall = product_of(larger(reversal, zero()), sensitivity)->0;
    differences_add_up(entry_price, fall);
    let d = difference_of(entry_price, fall)->0;
    picking_picks_values(d, zero());
    picking_picks_values(larger(d, zero()), one());
}

/// With an external price, the blended price weighs it by its weight and the bid by the rest.
pub proof fn the_blend_weighs_both_prices(
    current_bid: Decimal,
    entry_price: Decimal,
    side: OutcomeSide,
    reference: Decimal,
    external: Decimal,
    config: UnifiedPriceConfig,
    implied: Decimal,
)
    requires
        implied_of(entry_price, side, reference, external, config.sensitivity) == Some(implied),
        value(config.external_weight) != 0 as real,
        is_amount(config.external_weight),
        is_amount(current_bid),
        product_is_exact(config.external_weight, implied),
        sum_is_exact(
            product_of(difference_of(one(), config.external_weight)->0, current_bid)->0,
            product_of(config.external_weight, implied)->0,
        ),
    ensures
        ({
            let u = unified_of(
                current_bid,
                entry_price,
                side,
                reference,
                Some(external),
                config,
            );
            let w = value(config.external_weight);
            &&& u is Some && u->0.implied_price == Some(implied)
            &&& value(u->0.price) == (1 as real - w) * value(current_bid) + w * value(implied)
        }),
{
    let w = config.external_weight;
    signs_agree(w);
    lemma_within_basics(w, 6, 6);
    lemma_within_more(one(), 0, 0, 6, 6);
    small_sums_are_exact(one(), w, 6, 6);
    let rest = difference_of(one(), w)->0;
    small_products_are_exact(rest, current_bid, 7, 6, 6, 6);
    products_multiply(w, implied);
    sums_add_up(product_of(rest, current_bid)->0, product_of(w, implied)->0);
}

/// A hard crash is a drop of the blended price below entry of at least the configured amount, or
/// a reversal, implied by the external price, of at least the configured share, on a recent
/// book; nothing else is one. The 28th digit of the reversal is left to rounding.
pub proof fn a_hard_crash_is_a_large_drop_or_reversal(
    lc: LifecycleView,
    ctx: TriggerEvalContext,
    sl: StopLossConfig,
    te: TailEndConfig,
    implied: Decimal,
)
    requires
        triggers_of(lc, ctx, sl, te) is Some,
        ctx.unified_price.implied_price == Some(implied),
        value(sl.unified_price.sensitivity) > 0 as real,
        difference_is_exact(ctx.entry_price, ctx.unified_price.price),
        difference_is_exact(ctx.entry_price, implied),
    ensures
        ({
            let fired = triggers_of(lc, ctx, sl, te)->0.trigger;
            let crash = fired is Some && fired->0 is HardCrash;
            let drop = value(ctx.entry_price) - value(ctx.unified_price.price);
            let fall = max_of(value(ctx.entry_price) - value(implied), 0 as real);
            let unit = value(sl.unified_price.sensitivity);
            let share = value(sl.hard_reversal_pct);
            let recent = ctx.book_age_ms <= sl.sl_max_book_age_ms;
            &&& crash ==> recent && (drop >= value(sl.hard_drop_abs) || fall >= unit * (share
                - slack(share)))
            &&& recent && drop >= value(sl.hard_drop_abs) ==> crash
            &&& recent && fall >= unit * (share + slack(share)) ==> crash
            &&& crash ==> value(fired->0->HardCrash_bid_drop) == drop
        }),
{
    let drop = difference_of(ctx.entry_price, ctx.unified_price.price)->0;
    differences_add_up(ctx.entry_price, ctx.unified_price.price);
    differences_add_up(ctx.entry_price, implied);
    let d = difference_of(ctx.entry_price, implied)->0;
    comparing_compares_values(sl.hard_drop_abs, drop);
    signs_agree(sl.unified_price.sensitivity);
    picking_picks_values(d, zero());
    if ctx.book_age_ms <= sl.sl_max_book_age_ms {
        quotients_compare(larger(d, zero()), sl.unified_price.sensitivity, sl.hard_reversal_pct);
    }
}

/// A tick counts for the second level where the composite has enough sources, the reversal
/// implied by the external price is at least the configured share, and the blended price has
/// dropped below entry by at least the configured amount. The 28th digit of the reversal is left
/// to rounding.
pub proof fn a_good_tick_is_a_reversal_with_a_drop(
    ctx: TriggerEvalContext,
    sl: StopLossConfig,
    implied: Decimal,
)
    requires
        ctx.unified_price.implied_price == Some(implied),
        value(sl.unified_price.sensitivity) > 0 as real,
        difference_is_exact(ctx.entry_price, ctx.unified_price.price),
        difference_is_exact(ctx.entry_price, implied),
        dual_holds(ctx, sl) is Some,
    ensures
        ({
            let good = dual_holds(ctx, sl)->0;
            let drop = value(ctx.entry_price) - value(ctx.unified_price.price);
            let fall = max_of(value(ctx.entry_price) - value(implied), 0 as real);
            let unit = value(sl.unified_price.sensitivity);
            let share = value(sl.reversal_pct);
            &&& good ==> ctx.composite_ok && drop >= value(sl.min_drop) && fall >= unit * (share
                - slack(share))
            &&& ctx.composite_ok && drop >= value(sl.min_drop) && fall >= unit * (share + slack(
                share,
            )) ==> good
        }),
{
    let drop = difference_of(ctx.entry_price, ctx.unified_price.price)->0;
    differences_add_up(ctx.entry_price, ctx.unified_price.price);
    differences_add_up(ctx.entry_price, implied);
    let d = difference_of(ctx.entry_price, implied)->0;
    comparing_compares_values(sl.min_drop, drop);
    signs_agree(sl.unified_price.sensitivity);
    picking_picks_values(d, zero());
    quotients_compare(larger(d, zero()), sl.unified_price.sensitivity, sl.reversal_pct);
}

/// Without an external price no tick counts, and there is no hard crash.
pub proof fn without_an_external_price_nothing_reverses(
    lc: LifecycleView,
    ctx: TriggerEvalContext,
    sl: StopLossConfig,
    te: TailEndConfig,
)
    requires
        ctx.unified_price.implied_price is None,
        triggers_of(lc, ctx, sl, te) is Some,
    ensures
        ({
            let fired = triggers_of(lc, ctx, sl, te)->0.trigger;
            fired is Some ==> fired->0 is TrailingStop || fired->0 is PostEntryExit
        }),
{
}

/// A trailing stop fires, where no level above it does, on a recent book, once the highest
/// blended price has reached the entry price plus the arming gain and the blended price has
/// fallen from it by at least the distance; and not otherwise. The arming gain is the configured
/// one, or the room below `1 - tick` where that is less; with less room than a tick the stop
/// cannot arm.
pub proof fn a_trailing_stop_is_a_fall_from_an_armed_peak(
    ctx: TriggerEvalContext,
    sl: StopLossConfig,
    distance: Decimal,
)
    requires
        trailing_distance_of(ctx.time_remaining, sl) == Some(distance),
        is_amount(ctx.entry_price),
        is_amount(ctx.tick_size),
        is_amount(sl.trailing_arm_distance),
        difference_is_exact(ctx.peak_price, ctx.unified_price.price),
    ensures
        ({
            let out = trailing_of(ctx, sl);
            let on = sl.trailing_enabled && ctx.book_age_ms <= sl.sl_max_book_age_ms;
            let room = max_of(
                1 as real - value(ctx.tick_size) - value(ctx.entry_price),
                0 as real,
            );
            let gain = min_of(value(sl.trailing_arm_distance), room);
            let armed = gain >= value(ctx.tick_size) && value(ctx.peak_price) >= value(
                ctx.entry_price,
            ) + gain;
            let fall = value(ctx.peak_price) - value(ctx.unified_price.price);
            &&& out is Some
            &&& (out->0).0 is Some <==> on && armed && fall >= value(distance)
            &&& (out->0).1 <==> on && gain < value(ctx.tick_size)
            &&& (out->0).0 is Some ==> (out->0).0->0 is TrailingStop
        }),
{
    let (e, t) = (ctx.entry_price, ctx.tick_size);
    signs_agree(one());
    lemma_within_basics(e, 6, 6);
    lemma_within_more(one(), 0, 0, 6, 6);
    lemma_within_more(zero(), 0, 0, 8, 6);
    small_sums_are_exact(one(), t, 6, 6);
    let cap = difference_of(one(), t)->0;
    lemma_within_more(e, 6, 6, 7, 6);
    small_sums_are_exact(cap, e, 7, 6);
    let room = difference_of(cap, e)->0;
    picking_picks_values(room, zero());
    picking_picks_values(sl.trailing_arm_distance, larger(room, zero()));
    let arm = smaller(sl.trailing_arm_distance, larger(room, zero()));
    lemma_within_more(sl.trailing_arm_distance, 6, 6, 8, 6);
    lemma_within_more(e, 6, 6, 8, 6);
    small_sums_are_exact(e, arm, 8, 6);
    let level = sum_of(e, arm)->0;
    comparing_compares_values(arm, t);
    comparing_compares_values(level, ctx.peak_price);
    differences_add_up(ctx.peak_price, ctx.unified_price.price);
    comparing_compares_values(
        distance,
        difference_of(ctx.peak_price, ctx.unified_price.price)->0,
    );
}

/// Without time decay the trailing distance is the configured one; with it, the distance shrinks
/// with the share of the 900 seconds that is left, counted between none and all, and is never
/// less than the least distance.
pub proof fn the_trailing_distance_shrinks_with_time(
    time_remaining: i64,
    sl: StopLossConfig,
    share: Decimal,
)
    requires
        quotient_of(dec(time_remaining as int, 0), dec(900, 0)) == Some(share),
        product_is_exact(sl.trailing_distance, smaller(larger(share, zero()), one())),
    ensures
        ({
            let distance = trailing_distance_of(time_remaining, sl);
            let part = min_of(max_of(value(share), 0 as real), 1 as real);
            &&& is_ratio(time_remaining as real, 900 as real, value(share))
            &&& distance is Some
            &&& !sl.time_decay ==> distance->0 == sl.trailing_distance
            &&& sl.time_decay ==> value(distance->0) == max_of(
                value(sl.trailing_distance) * part,
                value(sl.trailing_min_distance),
            )
        }),
{
    value_of_parts(time_remaining as int, 0);
    value_of_parts(900, 0);
    quotients_divide(dec(time_remaining as int, 0), dec(900, 0));
    signs_agree(share);
    picking_picks_values(share, zero());
    picking_picks_values(larger(share, zero()), one());
    let part = smaller(larger(share, zero()), one());
    products_multiply(sl.trailing_distance, part);
    picking_picks_values(
        product_of(sl.trailing_distance, part)->0,
        sl.trailing_min_distance,
    );
}

/// The last level fires soon after entry, on a recent book, after a drop of the blended price of
/// at least the configured amount; and not otherwise.
pub proof fn a_post_entry_exit_is_an_early_drop(
    ctx: TriggerEvalContext,
    sl: StopLossConfig,
    te: TailEndConfig,
)
    requires
        difference_is_exact(ctx.entry_price, ctx.unified_price.price),
    ensures
        ({
            let out = post_entry_of(ctx, sl, te);
            let held = ctx.now.nanos_of() - ctx.entry_time.nanos_of();
            let drop = value(ctx.entry_price) - value(ctx.unified_price.price);
            let recent = ctx.book_age_ms <= sl.sl_max_book_age_ms;
            let fires = out is Some && out->0 is Some;
            &&& out is Some
            &&& fires ==> recent && drop >= value(te.post_entry_exit_drop) && (out->0)->0
                is PostEntryExit
            &&& held >= 0 && fires ==> held < te.post_entry_window_secs * 1_000_000_000
            &&& recent && drop >= value(te.post_entry_exit_drop) && 0 <= held
                < te.post_entry_window_secs * 1_000_000_000 ==> fires
        }),
{
    differences_add_up(ctx.entry_price, ctx.unified_price.price);
    comparing_compares_values(
        te.post_entry_exit_drop,
        difference_of(ctx.entry_price, ctx.unified_price.price)->0,
    );
}

/// A trigger fires only when no level above it does, and only the highest one is
/// reported; a hard crash clears the ticks of the dual trigger.
pub proof fn triggers_keep_their_order(
    lc: LifecycleView,
    ctx: TriggerEvalContext,
    sl: StopLossConfig,
    te: TailEndConfig,
)
    requires
        triggers_of(lc, ctx, sl, te) is Some,
    ensures
        ({
            let out = triggers_of(lc, ctx, sl, te)->0;
            let hard = hard_crash_of(ctx, sl)->0;
            let dual = dual_of(lc.ticks, ctx, sl);
            &&& hard is Some <==> out.trigger is Some && out.trigger->0 is HardCrash
            &&& hard is Some ==> out.ticks == 0
            &&& out.trigger is Some && out.trigger->0 is DualTrigger <==> hard is None
                && (dual->0).0 is Some
            &&& out.trigger is Some && out.trigger->0 is TrailingStop ==> hard is None
                && (dual->0).0 is None
            &&& out.trigger is Some && out.trigger->0 is PostEntryExit ==> hard is None
                && (dual->0).0 is None && (trailing_of(ctx, sl)->0).0 is None
        }),
{
}

/// Nothing fires on a stale book.
pub proof fn stale_book_fires_nothing(
    lc: LifecycleView,
    ctx: TriggerEvalContext,
    sl: StopLossConfig,
    te: TailEndConfig,
)
    requires
        !book_fresh(ctx, sl),
    ensures
        triggers_of(lc, ctx, sl, te) == Some(
            TriggerOutcome { trigger: None, ticks: lc.ticks, unarmable: lc.unarmable },
        ),
{
}

impl PositionLifecycle {
    /// Evaluates the four levels of triggers and keeps the tick count and the arming flag;
    /// an error, with nothing changed, where the arithmetic leaves its range.
    pub fn evaluate_triggers(
        &mut self,
        ctx: &TriggerEvalContext,
        sl_config: &StopLossConfig,
        tailend_config: &TailEndConfig,
    ) -> (r: Result<Option<StopLossTriggerKind>, Overflow>)
        ensures
            match triggers_of(old(self)@, *ctx, *sl_config, *tailend_config) {
                None => r is Err && *final(self) == *old(self),
                Some(out) => r == Ok::<Option<StopLossTriggerKind>, Overflow>(out.trigger)
                    && final(self)@ == (LifecycleView {
                    ticks: out.ticks,
                    unarmable: out.unarmable,
                    ..old(self)@
                }),
            },
    {
        let hard: Option<StopLossTriggerKind> = hard_crash(ctx, sl_config)?;
        if hard.is_some() {
            self.dual_trigger_ticks = 0;
            return Ok(hard);
        }
        let (dual, ticks) = dual_trigger(self.dual_trigger_ticks, ctx, sl_config)?;
        if dual.is_some() {
            self.dual_trigger_ticks = ticks;
            return Ok(dual);
        }
        let (trailing, stuck) = trailing_stop(ctx, sl_config)?;
        if trailing.is_some() {
            self.dual_trigger_ticks = ticks;
            return Ok(trailing);
        }
        let post: Option<StopLossTriggerKind> = post_entry_exit(ctx, sl_config, tailend_config)?;
        self.dual_trigger_ticks = ticks;
        if stuck {
            self.trailing_unarmable = true;
        }
        Ok(post)
    }
}

} // verus!
