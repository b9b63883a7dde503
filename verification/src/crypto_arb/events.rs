//! The events of the combined strategy.
use crate::crypto_arb::rules::{
    book_handled, coin_asked, crypto_price_handled, market_discovered, market_expired,
    order_answered, order_refused,
};
use crate::crypto_arb::strategy::CryptoArbitrageStrategy;
use crate::crypto_arb::view::{lemma_view_env, strategy_html};
use crate::decimal::Overflow;
use crate::exchange::{
    Action, ActionView, Event, EventContext, MarketData, Signal, SignalView, acts, book_stored,
    lemma_acts_push,
};
use crate::services::observability::{DASHBOARD_INTERVAL_MS, due, is_due};
use crate::table::Table;
use crate::text::{opt_text, owned, upper_text};
use crate::time::DateTime;
use vstd::prelude::*;
use vstd::string::*;

verus! {

/// The update of the view when it is due; its contents are empty when it cannot be rendered.
pub open spec fn view_update(s: CryptoArbitrageStrategy, now_ms: u64, now: DateTime) -> Option<
    ActionView,
> {
    if due(s.last_dashboard_emit, now_ms, DASHBOARD_INTERVAL_MS) {
        Some(
            ActionView::EmitSignal(
                SignalView::DashboardUpdate {
                    view_name: "crypto-arb"@,
                    rendered_html: match strategy_html(s, now) {
                        Some(html) => html,
                        None => Seq::empty(),
                    },
                },
            ),
        )
    } else {
        None
    }
}

/// The strategy after its view was sent out, if it was due.
pub open spec fn after_update(s: CryptoArbitrageStrategy, now_ms: u64) -> CryptoArbitrageStrategy {
    if due(s.last_dashboard_emit, now_ms, DASHBOARD_INTERVAL_MS) {
        CryptoArbitrageStrategy { last_dashboard_emit: Some(now_ms), ..s }
    } else {
        s
    }
}

/// An event was handled by the operation that it calls for.
pub open spec fn own_event_handled(
    pre: CryptoArbitrageStrategy,
    post: CryptoArbitrageStrategy,
    event: Event,
    data: MarketData,
    ctx: EventContext,
    r: Result<Vec<Action>, Overflow>,
) -> bool {
    match event {
        Event::ExternalPrice { symbol, price, source, .. } => {
            &&& ctx.data == data
            &&& crypto_price_handled(
                pre,
                post,
                symbol,
                price,
                source,
                data.orderbooks.rows(),
                ctx.now,
                ctx.quotes@,
                r,
            )
        },
        Event::OrderbookUpdate(snapshot) => {
            &&& book_handled(pre, post, snapshot, ctx.now, r)
            &&& book_stored(data.orderbooks.rows(), ctx.data.orderbooks.rows(), snapshot)
            &&& ctx.data == (MarketData { orderbooks: ctx.data.orderbooks, ..data })
        },
        Event::MarketDiscovered(market) => {
            &&& ctx.data == data
            &&& r is Ok
            &&& market_discovered(
                pre,
                post,
                market,
                coin_asked(upper_text(market.question@), pre.config.coins@),
                data.external_prices.rows(),
                ctx.now,
                ctx.quotes@,
                acts(r->Ok_0@),
            )
        },
        Event::MarketExpired(id) => {
            &&& ctx.data == data
            &&& r is Ok
            &&& market_expired(pre, post, id@, acts(r->Ok_0@))
        },
        Event::OrderPlaced(result) => {
            &&& ctx.data == data
            &&& r is Ok && r->Ok_0@.len() == 0
            &&& order_answered(pre, post, result, ctx.now)
        },
        Event::OrderRejected { token_id, .. } => {
            &&& ctx.data == data
            &&& r is Ok && r->Ok_0@.len() == 0
            &&& order_refused(pre, post, opt_text(token_id))
        },
        _ => ctx.data == data && r is Ok && r->Ok_0@.len() == 0 && post == pre,
    }
}

/// The steps of an event: its own handling, with the result `own`, then the update of the
/// view where it is due. An overflow ends it before the update.
pub open spec fn event_steps(
    pre: CryptoArbitrageStrategy,
    post: CryptoArbitrageStrategy,
    event: Event,
    before: EventContext,
    after: EventContext,
    now_ms: u64,
    r: Result<Vec<Action>, Overflow>,
    handled: CryptoArbitrageStrategy,
    own: Result<Vec<Action>, Overflow>,
) -> bool {
    &&& own_event_handled(pre, handled, event, before.data, after, own)
    &&& after == (EventContext { data: after.data, ..before })
    &&& own is Err ==> r is Err && post == handled
    &&& own is Ok ==> {
        &&& r is Ok
        &&& post == after_update(handled, now_ms)
        &&& acts(r->Ok_0@) == acts(own->Ok_0@) + (match view_update(handled, now_ms, before.now) {
            Some(a) => seq![a],
            None => Seq::empty(),
        })
    }
}

/// An event was handled, and the view sent out where it was due.
pub open spec fn event_handled(
    pre: CryptoArbitrageStrategy,
    post: CryptoArbitrageStrategy,
    event: Event,
    before: EventContext,
    after: EventContext,
    now_ms: u64,
    r: Result<Vec<Action>, Overflow>,
) -> bool {
    exists|handled: CryptoArbitrageStrategy, own: Result<Vec<Action>, Overflow>|
        #[trigger] event_steps(pre, post, event, before, after, now_ms, r, handled, own)
}

/// Two updates of the view are at least five seconds apart.
pub proof fn view_updates_keep_their_distance(
    s: CryptoArbitrageStrategy,
    now_ms: u64,
    now: DateTime,
    next_ms: u64,
    next: DateTime,
)
    requires
        view_update(s, now_ms, now) is Some,
        now_ms <= next_ms < now_ms + DASHBOARD_INTERVAL_MS,
    ensures
        view_update(after_update(s, now_ms), next_ms, next) is None,
{
}

impl CryptoArbitrageStrategy {
    /// Name of the strategy.
    pub fn name(&self) -> (r: &'static str)
        ensures
            r@ == "crypto-arbitrage"@,
    {
        "crypto-arbitrage"
    }

    /// What the strategy does.
    pub fn description(&self) -> (r: &'static str)
        ensures
            r@ == "Exploits mispricing in 15-min Up/Down crypto markets"@,
    {
        "Exploits mispricing in 15-min Up/Down crypto markets"
    }

    /// The view that the strategy offers: its own.
    pub fn dashboard_view(&self) -> (r: Option<&CryptoArbitrageStrategy>)
        ensures
            r == Some(self),
    {
        Some(self)
    }

    /// Takes note of the time of the first scan.
    pub fn on_start(&mut self, now_ms: u64)
        ensures
            *final(self) == (CryptoArbitrageStrategy { last_scan: Some(now_ms), ..*old(self) }),
    {
        self.last_scan = Some(now_ms);
    }

    /// The update of the view, when five seconds have passed since the last one.
    pub fn maybe_emit_dashboard_update(&mut self, now_ms: u64, now: DateTime) -> (r: Option<Action>)
        ensures
            (match r {
                Some(a) => Some(a@),
                None => None,
            }) == view_update(*old(self), now_ms, now),
            *final(self) == after_update(*old(self), now_ms),
    {
        if !is_due(self.last_dashboard_emit, now_ms, DASHBOARD_INTERVAL_MS) {
            return None;
        }
        self.last_dashboard_emit = Some(now_ms);
        proof {
            lemma_view_env(*old(self), *self, now);
        }
        let html: String = match self.render_view(now) {
            Ok(html) => html,
            Err(_) => {
                let blank = String::new();
                assert(blank@ =~= Seq::empty());
                blank
            },
        };
        Some(
            Action::EmitSignal(
                Signal::DashboardUpdate { view_name: owned(self.view_name()), rendered_html: html },
            ),
        )
    }

    /// Handles an event by the operation that it calls for.
    fn handle_event(&mut self, event: &Event, ctx: &mut EventContext) -> (r: Result<
        Vec<Action>,
        Overflow,
    >)
        ensures
            own_event_handled(*old(self), *final(self), *event, old(ctx).data, *final(ctx), r),
            *final(ctx) == (EventContext { data: final(ctx).data, ..*old(ctx) }),
    {
        match event {
            Event::ExternalPrice { symbol, price, source, .. } => self.on_crypto_price(
                symbol,
                *price,
                source,
                &ctx.data.orderbooks,
                ctx.now,
                &ctx.quotes,
            ),
            Event::OrderbookUpdate(snapshot) => self.on_orderbook_update(
                snapshot,
                &mut ctx.data,
                ctx.now,
            ),
            Event::MarketDiscovered(market) => Ok(
                self.on_market_discovered(
                    market,
                    &ctx.data.external_prices,
                    ctx.now,
                    &ctx.quotes,
                ),
            ),
            Event::MarketExpired(id) => Ok(self.on_market_expired(id)),
            Event::OrderPlaced(result) => Ok(self.on_order_placed(result, ctx.now)),
            Event::OrderRejected { token_id, .. } => {
                match token_id {
                    Some(t) => {
                        self.on_order_rejected(Some(t.as_str()));
                    },
                    None => {},
                }
                Ok(Vec::new())
            },
            _ => Ok(Vec::new()),
        }
    }

    /// Handles an event, and sends the view out where it is due.
    pub fn on_event(&mut self, event: &Event, ctx: &mut EventContext, now_ms: u64) -> (r: Result<
        Vec<Action>,
        Overflow,
    >)
        ensures
            event_handled(
                *old(self),
                *final(self),
                *event,
                *old(ctx),
                *final(ctx),
                now_ms,
                r,
            ),
    {
        let ghost pre = *self;
        let own: Result<Vec<Action>, Overflow> = self.handle_event(event, ctx);
        let ghost handled = *self;
        match own {
            Err(_) => {
                let r: Result<Vec<Action>, Overflow> = Err(Overflow);
                assert(event_steps(pre, *self, *event, *old(ctx), *ctx, now_ms, r, handled, own));
                r
            },
            Ok(mut actions) => {
                let ghost first = actions@;
                match self.maybe_emit_dashboard_update(now_ms, ctx.now) {
                    Some(a) => {
                        proof {
                            lemma_acts_push(actions@, a);
                            assert(acts(first).push(a@) =~= acts(first) + seq![a@]);
                        }
                        actions.push(a);
                    },
                    None => {
                        assert(acts(first) =~= acts(first) + Seq::empty());
                    },
                }
                let r: Result<Vec<Action>, Overflow> = Ok(actions);
                assert(event_steps(pre, *self, *event, *old(ctx), *ctx, now_ms, r, handled, own));
                r
            },
        }
    }

    /// Stops the strategy: cancels all orders where anything is open, and awaits none.
    pub fn on_stop(&mut self) -> (r: Vec<Action>)
        ensures
            acts(r@) == (if old(self).positions@.len() > 0 || old(
                self,
            ).pending_orders.rows().len() > 0 {
                seq![ActionView::CancelAllOrders]
            } else {
                Seq::empty()
            }),
            final(self).pending_orders.rows().len() == 0,
            final(self).pending_stop_loss.rows().len() == 0,
            *final(self) == (CryptoArbitrageStrategy {
                pending_orders: final(self).pending_orders,
                pending_stop_loss: final(self).pending_stop_loss,
                ..*old(self)
            }),
    {
        let mut actions: Vec<Action> = Vec::new();
        if self.positions.len() > 0 || self.pending_orders.len() > 0 {
            actions.push(Action::CancelAllOrders);
            assert(acts(actions@) =~= seq![actions@[0]@]);
        } else {
            assert(acts(actions@) =~= Seq::empty());
        }
        self.pending_orders = Table::new();
        self.pending_stop_loss = Table::new();
        actions
    }
}

} // verus!
