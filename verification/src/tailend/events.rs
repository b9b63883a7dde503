//! The events of the tail-end strategy.
use crate::config::SizingError;
use crate::decimal::{Decimal, Overflow};
use crate::exchange::{Action, Event, EventContext, MarketData};
use crate::runtime::CryptoArbRuntime;
use crate::services::market::{coin_named, discovery_noted, market_closed};
use crate::services::order::{orders_reconciled, stale_orders_flagged};
use crate::table::lookup;
use crate::tailend::entry::external_price_handled;
use crate::tailend::exit::{TailEndStrategy, book_run};
use crate::tailend::order_routing::{
    cancel_noted, failed_cancel_noted, fill_noted, order_answered, part_fill_noted,
    rejection_noted,
};
use crate::text::{opt_text, upper_text};
use vstd::prelude::*;

verus! {

/// The price of the coin that a question is about.
pub open spec fn price_for_question(rt: CryptoArbRuntime, question: Seq<char>, data: MarketData) -> Option<
    Decimal,
> {
    match coin_named(upper_text(question), rt.coins@) {
        Some(coin) => lookup(data.external_prices.rows(), coin),
        None => None,
    }
}

/// The price of the coin that a question is about.
pub fn find_price_for(rt: &CryptoArbRuntime, question: &str, data: &MarketData) -> (r: Option<Decimal>)
    ensures
        r == price_for_question(*rt, question@, *data),
{
    match rt.extract_coin(question) {
        Some(coin) => match data.external_prices.get(coin.as_str()) {
            Some(p) => Some(*p),
            None => None,
        },
        None => None,
    }
}

/// An event was handled by the operation that it calls for.
pub open spec fn tailend_event_handled(
    pre: CryptoArbRuntime,
    post: CryptoArbRuntime,
    event: Event,
    ctx: EventContext,
    r: Result<Vec<Action>, Overflow>,
) -> bool {
    match event {
        Event::MarketDiscovered(m) => r is Ok && discovery_noted(
            pre,
            post,
            m,
            price_for_question(pre, m.question@, ctx.data),
            ctx.now,
            ctx.quotes@,
            r->Ok_0@,
        ),
        Event::MarketExpired(id) => market_closed(pre, post, id, ctx.settlement, r),
        Event::ExternalPrice { symbol, price, source, timestamp } => external_price_handled(
            pre,
            post,
            symbol,
            price,
            source,
            timestamp,
            ctx.data,
            ctx.now,
            ctx.quotes@,
            r,
        ),
        Event::OrderbookUpdate(snapshot) => book_run(pre, post, snapshot, r),
        Event::OrderPlaced(result) => order_answered(pre, post, result, r),
        Event::OrderFilled { order_id, price, size, .. } => fill_noted(
            pre,
            post,
            order_id,
            price,
            size,
            r,
        ),
        Event::OrderPartiallyFilled { order_id, filled_size, remaining_size } => part_fill_noted(
            pre,
            post,
            order_id@,
            filled_size,
            remaining_size,
            r,
        ),
        Event::OrderRejected { token_id, reason } => rejection_noted(
            pre,
            post,
            opt_text(token_id),
            reason@,
            r,
        ),
        Event::OrderCancelled(order_id) => r is Ok && cancel_noted(
            pre,
            post,
            order_id@,
            r->Ok_0@,
        ),
        Event::OrderCancelFailed { order_id, reason } => failed_cancel_noted(
            pre,
            post,
            order_id,
            reason@,
            r,
        ),
        Event::OpenOrderSnapshot(ids) => r is Ok && orders_reconciled(
            pre,
            post,
            ids@,
            r->Ok_0@,
        ),
        Event::Other => r is Ok && r->Ok_0@.len() == 0 && post == pre,
    }
}

/// The steps of an event: the time is set, the event handled, and limit orders that are too
/// old are flagged. An overflow ends the event.
pub open spec fn tailend_event_steps(
    pre: CryptoArbRuntime,
    post: CryptoArbRuntime,
    event: Event,
    ctx: EventContext,
    r: Result<Vec<Action>, Overflow>,
    handled: CryptoArbRuntime,
    own: Result<Vec<Action>, Overflow>,
    stale: Seq<Action>,
) -> bool {
    &&& tailend_event_handled(
        CryptoArbRuntime { last_event_time: ctx.now, ..pre },
        handled,
        event,
        ctx,
        own,
    )
    &&& own is Err ==> r is Err && post == handled
    &&& own is Ok ==> {
        &&& stale_orders_flagged(handled, post, stale)
        &&& r is Ok
        &&& r->Ok_0@ == own->Ok_0@ + stale
    }
}

/// An event was taken in, step by step.
pub open spec fn tailend_event_taken(
    pre: CryptoArbRuntime,
    post: CryptoArbRuntime,
    event: Event,
    ctx: EventContext,
    r: Result<Vec<Action>, Overflow>,
) -> bool {
    exists|
        handled: CryptoArbRuntime,
        own: Result<Vec<Action>, Overflow>,
        stale: Seq<Action>,
    |
        #[trigger] tailend_event_steps(pre, post, event, ctx, r, handled, own, stale)
}

impl TailEndStrategy {
    /// The strategy on a shared state; its sizing must be usable.
    pub fn new(base: CryptoArbRuntime) -> (r: Result<Self, SizingError>)
        ensures
            match base.config.sizing.fault() {
                Some(e) => r == Err::<TailEndStrategy, SizingError>(e),
                None => r is Ok && r->Ok_0.base == base,
            },
    {
        match base.config.sizing.validate() {
            Err(e) => Err(e),
            Ok(_) => Ok(TailEndStrategy { base }),
        }
    }

    /// Name of the strategy.
    pub fn name(&self) -> (r: &'static str)
        ensures
            r@ == "crypto-arb-tailend"@,
    {
        "crypto-arb-tailend"
    }

    /// What the strategy does.
    pub fn description(&self) -> (r: &'static str)
        ensures
            r@ == "Tail-end arbitrage: trades near expiration with high market prices"@,
    {
        "Tail-end arbitrage: trades near expiration with high market prices"
    }

    /// Handles an event by the operation that it calls for.
    pub fn handle_event(&mut self, event: &Event, ctx: &EventContext) -> (r: Result<
        Vec<Action>,
        Overflow,
    >)
        ensures
            tailend_event_handled(old(self).base, final(self).base, *event, *ctx, r),
    {
        match event {
            Event::MarketDiscovered(m) => {
                let price: Option<Decimal> = find_price_for(
                    &self.base,
                    m.question.as_str(),
                    &ctx.data,
                );
                Ok(self.base.on_market_discovered(m, price, ctx.now, &ctx.quotes))
            },
            Event::MarketExpired(id) => self.base.on_market_expired(id, ctx.settlement),
            Event::ExternalPrice { symbol, price, source, timestamp } => self.handle_external_price(
                symbol,
                *price,
                source,
                *timestamp,
                &ctx.data,
                ctx.now,
                &ctx.quotes,
            ),
            Event::OrderbookUpdate(snapshot) => self.handle_orderbook_update(snapshot),
            Event::OrderPlaced(result) => self.on_order_placed(result),
            Event::OrderFilled { order_id, price, size, .. } => self.on_order_filled(
                order_id,
                *price,
                *size,
            ),
            Event::OrderPartiallyFilled { order_id, filled_size, remaining_size } =>
            self.handle_partially_filled(order_id.as_str(), *filled_size, *remaining_size),
            Event::OrderRejected { token_id, reason } => match token_id {
                Some(t) => self.handle_rejected(Some(t.as_str()), reason.as_str()),
                None => self.handle_rejected(None, reason.as_str()),
            },
            Event::OrderCancelled(order_id) => Ok(self.handle_cancelled(order_id.as_str())),
            Event::OrderCancelFailed { order_id, reason } => self.handle_cancel_failed(
                order_id,
                reason.as_str(),
            ),
            Event::OpenOrderSnapshot(ids) => Ok(self.handle_open_order_snapshot(ids)),
            Event::Other => Ok(Vec::new()),
        }
    }

    /// Takes an event in: the time is set, the event handled, and limit orders that are too
    /// old are cancelled. What was done before an overflow stays done.
    pub fn on_event(&mut self, event: &Event, ctx: &EventContext) -> (r: Result<
        Vec<Action>,
        Overflow,
    >)
        ensures
            tailend_event_taken(old(self).base, final(self).base, *event, *ctx, r),
    {
        self.base.update_event_time(ctx.now);
        let own: Result<Vec<Action>, Overflow> = self.handle_event(event, ctx);
        let ghost handled = self.base;
        match own {
            Err(_) => {
                let r: Result<Vec<Action>, Overflow> = Err(Overflow);
                assert(tailend_event_steps(
                    old(self).base, self.base, *event, *ctx, r, handled, own, Seq::empty(),
                ));
                r
            },
            Ok(v) => {
                let mut actions: Vec<Action> = v;
                let mut more: Vec<Action> = self.base.check_stale_limit_orders();
                let ghost stale = more@;
                actions.append(&mut more);
                let r: Result<Vec<Action>, Overflow> = Ok(actions);
                assert(tailend_event_steps(
                    old(self).base, self.base, *event, *ctx, r, handled, own, stale,
                ));
                r
            },
        }
    }

    /// Ends the strategy: nothing is left to be done.
    pub fn on_stop(&mut self) -> (r: Vec<Action>)
        ensures
            r@.len() == 0,
            *final(self) == *old(self),
    {
        Vec::new()
    }
}

} // verus!
