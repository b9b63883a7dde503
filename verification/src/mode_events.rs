//! The events of the strategies that share a state with the simple stop-loss.
use crate::base::{CryptoArbBase, base_market_closed};
use crate::confirmed::{ConfirmedStrategy, confirmed_price_handled};
use crate::crosscorr::{CrossCorrStrategy, crosscorr_price_handled};
use crate::dashboard::view::{dashboard_claimed, dashboard_update, try_emit_dashboard_updates};
use crate::decimal::{Decimal, Overflow};
use crate::exchange::{Action, Event, EventContext, acts, lemma_acts_add};
use crate::mode_orders::{
    ModeClass, mode_book_run, mode_order_filled, mode_order_placed, mode_partly_filled,
    mode_rejected,
};
use crate::runtime::CryptoArbRuntime;
use crate::services::market::discovery_noted;
use crate::services::order::stale_orders_flagged;
use crate::table::{Table, dropped};
use crate::tailend::events::{find_price_for, price_for_question};
use crate::text::opt_text;
use crate::time::DateTime;
use vstd::prelude::*;

verus! {

/// An event other than a price was handled for a mode by the operation that it calls for.
pub open spec fn mode_event_handled(
    pre: CryptoArbBase,
    post: CryptoArbBase,
    class: ModeClass,
    event: Event,
    ctx: EventContext,
    r: Result<Vec<Action>, Overflow>,
) -> bool {
    match event {
        Event::MarketDiscovered(m) => {
            &&& r is Ok
            &&& discovery_noted(
                pre.rt,
                post.rt,
                m,
                price_for_question(pre.rt, m.question@, ctx.data),
                ctx.now,
                ctx.quotes@,
                r->Ok_0@,
            )
            &&& post == (CryptoArbBase { rt: post.rt, ..pre })
        },
        Event::MarketExpired(id) => base_market_closed(pre, post, id, ctx.settlement, r),
        Event::OrderbookUpdate(snapshot) => mode_book_run(
            pre,
            post,
            class,
            snapshot,
            ctx.now,
            r,
        ),
        Event::OrderPlaced(result) => {
            &&& r is Ok ==> r->Ok_0@.len() == 0
            &&& mode_order_placed(pre, post, class, result, ctx.now, r is Ok)
        },
        Event::OrderFilled { order_id, price, size, .. } => {
            &&& r is Ok && r->Ok_0@.len() == 0
            &&& mode_order_filled(pre.rt, post.rt, class, order_id, price, size, ctx.now)
            &&& post == (CryptoArbBase { rt: post.rt, ..pre })
        },
        Event::OrderPartiallyFilled { order_id, remaining_size, .. } => {
            &&& r is Ok && r->Ok_0@.len() == 0
            &&& mode_partly_filled(pre.rt, post.rt, class, order_id@, remaining_size)
            &&& post == (CryptoArbBase { rt: post.rt, ..pre })
        },
        Event::OrderCancelled(order_id) => {
            &&& r is Ok && r->Ok_0@.len() == 0
            &&& post.rt.open_limit_orders.rows() == dropped(
                pre.rt.open_limit_orders.rows(),
                order_id@,
            )
            &&& post == (CryptoArbBase {
                rt: CryptoArbRuntime { open_limit_orders: post.rt.open_limit_orders, ..pre.rt },
                ..pre
            })
        },
        Event::OrderRejected { token_id, .. } => {
            &&& r is Ok && r->Ok_0@.len() == 0
            &&& mode_rejected(pre, post, class, opt_text(token_id))
        },
        _ => r is Ok && r->Ok_0@.len() == 0 && post == pre,
    }
}

/// An event was handled by the confirmed strategy.
pub open spec fn confirmed_event_handled(
    pre: CryptoArbBase,
    post: CryptoArbBase,
    event: Event,
    ctx: EventContext,
    r: Result<Vec<Action>, Overflow>,
) -> bool {
    match event {
        Event::ExternalPrice { symbol, price, source, .. } => confirmed_price_handled(
            pre,
            post,
            symbol,
            price,
            source,
            ctx.data,
            ctx.now,
            ctx.quotes@,
            r,
        ),
        _ => mode_event_handled(pre, post, ModeClass::Confirmed, event, ctx, r),
    }
}

/// A round ended: limit orders that are too old were cancelled, giving the state `swept`, and
/// the dashboard was sent out when it was due.
pub open spec fn round_ended(
    pre: CryptoArbBase,
    post: CryptoArbBase,
    first: Seq<Action>,
    pulse: Pulse,
    now: DateTime,
    r: Seq<Action>,
    swept: CryptoArbRuntime,
    stale: Seq<Action>,
) -> bool {
    &&& stale_orders_flagged(pre.rt, swept, stale)
    &&& post == (CryptoArbBase { rt: dashboard_claimed(swept, pulse.now_ms), ..pre })
    &&& acts(r) == acts(first) + acts(stale) + dashboard_update(
        swept,
        pulse.now_ms,
        now,
        pulse.widths.rows(),
    )
}

/// What the dashboard needs at the end of a round: milliseconds on a steady clock, and the
/// widths of the skip bars.
#[derive(Debug)]
pub struct Pulse {
    pub now_ms: u64,
    pub widths: Table<String>,
}

/// The steps of an event of the confirmed strategy.
pub open spec fn confirmed_event_steps(
    pre: CryptoArbBase,
    post: CryptoArbBase,
    event: Event,
    ctx: EventContext,
    pulse: Pulse,
    r: Result<Vec<Action>, Overflow>,
    handled: CryptoArbBase,
    own: Result<Vec<Action>, Overflow>,
    swept: CryptoArbRuntime,
    stale: Seq<Action>,
) -> bool {
    &&& confirmed_event_handled(timed(pre, ctx.now), handled, event, ctx, own)
    &&& own is Err ==> r is Err && post == handled
    &&& own is Ok ==> r is Ok && round_ended(
        handled,
        post,
        own->Ok_0@,
        pulse,
        ctx.now,
        r->Ok_0@,
        swept,
        stale,
    )
}

/// A state at the time of an event.
pub open spec fn timed(base: CryptoArbBase, now: DateTime) -> CryptoArbBase {
    CryptoArbBase { rt: CryptoArbRuntime { last_event_time: now, ..base.rt }, ..base }
}

/// An event was taken in by the confirmed strategy, step by step.
pub open spec fn confirmed_event_taken(
    pre: CryptoArbBase,
    post: CryptoArbBase,
    event: Event,
    ctx: EventContext,
    pulse: Pulse,
    r: Result<Vec<Action>, Overflow>,
) -> bool {
    exists|
        handled: CryptoArbBase,
        own: Result<Vec<Action>, Overflow>,
        swept: CryptoArbRuntime,
        stale: Seq<Action>,
    |
        #[trigger] confirmed_event_steps(
            pre,
            post,
            event,
            ctx,
            pulse,
            r,
            handled,
            own,
            swept,
            stale,
        )
}

/// An event was handled by the cross-correlated strategy; with whether the round ends with
/// the check for stale orders.
pub open spec fn crosscorr_event_handled(
    pre: CryptoArbBase,
    post: CryptoArbBase,
    event: Event,
    ctx: EventContext,
    r: Result<(Vec<Action>, bool), Overflow>,
) -> bool {
    match event {
        Event::ExternalPrice { symbol, price, source, .. } => crosscorr_price_handled(
            pre,
            post,
            symbol,
            price,
            source,
            ctx.data,
            ctx.now,
            ctx.quotes@,
            r,
        ),
        _ => exists|own: Result<Vec<Action>, Overflow>|
            {
                &&& #[trigger] mode_event_handled(
                    pre,
                    post,
                    ModeClass::CrossCorrelated,
                    event,
                    ctx,
                    own,
                )
                &&& own is Err <==> r is Err
                &&& own is Ok ==> r->Ok_0.0@ == own->Ok_0@ && r->Ok_0.1
            },
    }
}

/// The steps of an event of the cross-correlated strategy. Nothing happens while correlation
/// is off; a price without a spike to trade on ends the round early.
pub open spec fn crosscorr_event_steps(
    pre: CryptoArbBase,
    post: CryptoArbBase,
    event: Event,
    ctx: EventContext,
    pulse: Pulse,
    r: Result<Vec<Action>, Overflow>,
    handled: CryptoArbBase,
    own: Result<(Vec<Action>, bool), Overflow>,
    swept: CryptoArbRuntime,
    stale: Seq<Action>,
) -> bool {
    if !pre.rt.config.correlation.enabled {
        r is Ok && r->Ok_0@.len() == 0 && post == pre
    } else {
        &&& crosscorr_event_handled(timed(pre, ctx.now), handled, event, ctx, own)
        &&& own is Err ==> r is Err && post == handled
        &&& own is Ok && !own->Ok_0.1 ==> r is Ok && r->Ok_0@ == own->Ok_0.0@ && post == handled
        &&& own is Ok && own->Ok_0.1 ==> r is Ok && round_ended(
            handled,
            post,
            own->Ok_0.0@,
            pulse,
            ctx.now,
            r->Ok_0@,
            swept,
            stale,
        )
    }
}

/// An event was taken in by the cross-correlated strategy, step by step.
pub open spec fn crosscorr_event_taken(
    pre: CryptoArbBase,
    post: CryptoArbBase,
    event: Event,
    ctx: EventContext,
    pulse: Pulse,
    r: Result<Vec<Action>, Overflow>,
) -> bool {
    exists|
        handled: CryptoArbBase,
        own: Result<(Vec<Action>, bool), Overflow>,
        swept: CryptoArbRuntime,
        stale: Seq<Action>,
    |
        #[trigger] crosscorr_event_steps(
            pre,
            post,
            event,
            ctx,
            pulse,
            r,
            handled,
            own,
            swept,
            stale,
        )
}

impl CryptoArbBase {
    /// Handles an event other than a price for a mode.
    pub fn handle_mode_event(&mut self, class: ModeClass, event: &Event, ctx: &EventContext) -> (r:
        Result<Vec<Action>, Overflow>)
        ensures
            mode_event_handled(*old(self), *final(self), class, *event, *ctx, r),
    {
        match event {
            Event::MarketDiscovered(m) => {
                let price: Option<Decimal> = find_price_for(
                    &self.rt,
                    m.question.as_str(),
                    &ctx.data,
                );
                Ok(self.rt.on_market_discovered(m, price, ctx.now, &ctx.quotes))
            },
            Event::MarketExpired(id) => self.on_market_expired(id, ctx.settlement),
            Event::OrderbookUpdate(snapshot) => self.note_orderbook(class, snapshot, ctx.now),
            Event::OrderPlaced(result) => {
                self.note_order_placed(class, result, ctx.now)?;
                Ok(Vec::new())
            },
            Event::OrderFilled { order_id, price, size, .. } => {
                self.note_order_filled(class, order_id, *price, *size, ctx.now);
                Ok(Vec::new())
            },
            Event::OrderPartiallyFilled { order_id, remaining_size, .. } => {
                self.note_partly_filled(class, order_id.as_str(), *remaining_size);
                Ok(Vec::new())
            },
            Event::OrderCancelled(order_id) => {
                self.note_cancelled(order_id.as_str());
                Ok(Vec::new())
            },
            Event::OrderRejected { token_id, .. } => {
                match token_id {
                    Some(t) => {
                        self.note_rejected(class, Some(t.as_str()));
                    },
                    None => {
                        self.note_rejected(class, None);
                    },
                }
                Ok(Vec::new())
            },
            _ => Ok(Vec::new()),
        }
    }
}

impl ConfirmedStrategy {
    /// Name of the strategy.
    pub fn name(&self) -> (r: &'static str)
        ensures
            r@ == "crypto-arb-confirmed"@,
    {
        "crypto-arb-confirmed"
    }

    /// What the strategy does.
    pub fn description(&self) -> (r: &'static str)
        ensures
            r@ == "Confirmed arbitrage: directional trades with dynamic confidence model"@,
    {
        "Confirmed arbitrage: directional trades with dynamic confidence model"
    }

    /// Handles an event by the operation that it calls for.
    pub fn handle_event(&mut self, event: &Event, ctx: &EventContext) -> (r: Result<
        Vec<Action>,
        Overflow,
    >)
        ensures
            confirmed_event_handled(old(self).base, final(self).base, *event, *ctx, r),
    {
        match event {
            Event::ExternalPrice { symbol, price, source, .. } => self.handle_external_price(
                symbol,
                *price,
                source,
                &ctx.data,
                ctx.now,
                &ctx.quotes,
            ),
            _ => self.base.handle_mode_event(ModeClass::Confirmed, event, ctx),
        }
    }

    /// Takes an event in: it is handled, limit orders that are too old are cancelled, and the
    /// dashboard is sent out when it is due. What was done before an overflow stays done.
    pub fn on_event(&mut self, event: &Event, ctx: &EventContext, pulse: &Pulse) -> (r: Result<
        Vec<Action>,
        Overflow,
    >)
        ensures
            confirmed_event_taken(old(self).base, final(self).base, *event, *ctx, *pulse, r),
    {
        self.base.rt.update_event_time(ctx.now);
        let own: Result<Vec<Action>, Overflow> = self.handle_event(event, ctx);
        let ghost handled = self.base;
        match own {
            Err(_) => {
                let r: Result<Vec<Action>, Overflow> = Err(Overflow);
                assert(confirmed_event_steps(
                    old(self).base, self.base, *event, *ctx, *pulse, r, handled, own,
                    handled.rt, Seq::empty(),
                ));
                r
            },
            Ok(v) => {
                let mut actions: Vec<Action> = v;
                let mut more: Vec<Action> = self.base.rt.check_stale_limit_orders();
                let ghost swept = self.base.rt;
                let ghost stale = more@;
                let ghost first = actions@;
                actions.append(&mut more);
                let mut update: Vec<Action> = try_emit_dashboard_updates(
                    &mut self.base.rt,
                    pulse.now_ms,
                    ctx.now,
                    &pulse.widths,
                );
                proof {
                    lemma_acts_add(first, stale);
                    lemma_acts_add(first + stale, update@);
                }
                actions.append(&mut update);
                let r: Result<Vec<Action>, Overflow> = Ok(actions);
                assert(confirmed_event_steps(
                    old(self).base, self.base, *event, *ctx, *pulse, r, handled, own, swept,
                    stale,
                ));
                r
            },
        }
    }
}

impl CrossCorrStrategy {
    /// Name of the strategy.
    pub fn name(&self) -> (r: &'static str)
        ensures
            r@ == "crypto-arb-crosscorr"@,
    {
        "crypto-arb-crosscorr"
    }

    /// What the strategy does.
    pub fn description(&self) -> (r: &'static str)
        ensures
            r@ == "Cross-correlated arbitrage: trades follower coins on leader spikes"@,
    {
        "Cross-correlated arbitrage: trades follower coins on leader spikes"
    }

    /// Handles an event by the operation that it calls for; says whether the round ends with
    /// the check for stale orders.
    pub fn handle_event(&mut self, event: &Event, ctx: &EventContext) -> (r: Result<
        (Vec<Action>, bool),
        Overflow,
    >)
        ensures
            crosscorr_event_handled(old(self).base, final(self).base, *event, *ctx, r),
    {
        match event {
            Event::ExternalPrice { symbol, price, source, .. } => self.handle_external_price(
                symbol,
                *price,
                source,
                &ctx.data,
                ctx.now,
                &ctx.quotes,
            ),
            _ => {
                let own: Result<Vec<Action>, Overflow> = self.base.handle_mode_event(
                    ModeClass::CrossCorrelated,
                    event,
                    ctx,
                );
                let ghost kept = own;
                assert(mode_event_handled(
                    old(self).base,
                    self.base,
                    ModeClass::CrossCorrelated,
                    *event,
                    *ctx,
                    kept,
                ));
                match own {
                    Err(_) => Err(Overflow),
                    Ok(v) => Ok((v, true)),
                }
            },
        }
    }

    /// Takes an event in while correlation is on. What was done before an overflow stays
    /// done.
    pub fn on_event(&mut self, event: &Event, ctx: &EventContext, pulse: &Pulse) -> (r: Result<
        Vec<Action>,
        Overflow,
    >)
        ensures
            crosscorr_event_taken(old(self).base, final(self).base, *event, *ctx, *pulse, r),
    {
        if !self.base.rt.config.correlation.enabled {
            let r: Result<Vec<Action>, Overflow> = Ok(Vec::new());
            let own: Result<(Vec<Action>, bool), Overflow> = Err(Overflow);
            assert(crosscorr_event_steps(
                old(self).base, self.base, *event, *ctx, *pulse, r, self.base, own, self.base.rt,
                Seq::empty(),
            ));
            return r;
        }
        self.base.rt.update_event_time(ctx.now);
        let own: Result<(Vec<Action>, bool), Overflow> = self.handle_event(event, ctx);
        let ghost handled = self.base;
        match own {
            Err(_) => {
                let r: Result<Vec<Action>, Overflow> = Err(Overflow);
                assert(crosscorr_event_steps(
                    old(self).base, self.base, *event, *ctx, *pulse, r, handled, own,
                    handled.rt, Seq::empty(),
                ));
                r
            },
            Ok((v, goes_on)) => {
                let mut actions: Vec<Action> = v;
                if !goes_on {
                    let r: Result<Vec<Action>, Overflow> = Ok(actions);
                    assert(crosscorr_event_steps(
                        old(self).base, self.base, *event, *ctx, *pulse, r, handled, own,
                        handled.rt, Seq::empty(),
                    ));
                    return r;
                }
                let mut more: Vec<Action> = self.base.rt.check_stale_limit_orders();
                let ghost swept = self.base.rt;
                let ghost stale = more@;
                let ghost first = actions@;
                actions.append(&mut more);
                let mut update: Vec<Action> = try_emit_dashboard_updates(
                    &mut self.base.rt,
                    pulse.now_ms,
                    ctx.now,
                    &pulse.widths,
                );
                proof {
                    lemma_acts_add(first, stale);
                    lemma_acts_add(first + stale, update@);
                }
                actions.append(&mut update);
                let r: Result<Vec<Action>, Overflow> = Ok(actions);
                assert(crosscorr_event_steps(
                    old(self).base, self.base, *event, *ctx, *pulse, r, handled, own, swept,
                    stale,
                ));
                r
            },
        }
    }
}

} // verus!
