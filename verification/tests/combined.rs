//! The combined strategy, event by event.
use polyrust_strategies::config::ArbitrageConfig;
use polyrust_strategies::crypto_arb::strategy::CryptoArbitrageStrategy;
use polyrust_strategies::crypto_arb::types::{
    ArbitragePosition, MarketWithReference, PendingOrder, ReferenceQuality,
};
use polyrust_strategies::decimal::{Decimal, Overflow};
use polyrust_strategies::exchange::{
    Action, ChainQuote, ChainlinkPrice, Event, EventContext, LogLevel, MarketData, MarketInfo,
    OrderRequest, OrderResult, OrderSide, OrderType, OrderbookLevel, OrderbookSnapshot,
    OutcomeSide, Signal, TokenIds,
};
use polyrust_strategies::table::Table;
use polyrust_strategies::time::DateTime;

fn d(text: &str) -> Decimal {
    let (whole, fraction) = text.split_once('.').unwrap_or((text, ""));
    let digits = format!("{whole}{fraction}");
    Decimal::from_parts(digits.parse().unwrap(), fraction.len() as u32).unwrap()
}

const START: i64 = 1_706_000_400;

fn at(secs: i64) -> DateTime {
    DateTime::from_timestamp(START + secs).unwrap()
}

fn market(id: &str, end: i64) -> MarketInfo {
    MarketInfo {
        id: id.to_string(),
        slug: "btc-updown-15m".to_string(),
        question: "Bitcoin Up or Down?".to_string(),
        start_date: Some(at(0)),
        end_date: at(end),
        token_ids: TokenIds { outcome_a: format!("{id}-up"), outcome_b: format!("{id}-down") },
        accepting_orders: true,
        neg_risk: false,
        min_order_size: d("5"),
        tick_size: d("0.01"),
        fee_rate_bps: 0,
    }
}

fn with_reference(id: &str, end: i64) -> MarketWithReference {
    MarketWithReference {
        market: market(id, end),
        reference_price: d("50000"),
        reference_quality: ReferenceQuality::Exact,
        discovery_time: at(0),
        coin: "BTC".to_string(),
    }
}

fn book(token: &str, bid: &str, ask: &str) -> OrderbookSnapshot {
    OrderbookSnapshot {
        token_id: token.to_string(),
        bids: vec![OrderbookLevel { price: d(bid), size: d("100") }],
        asks: vec![OrderbookLevel { price: d(ask), size: d("100") }],
        timestamp: at(0),
    }
}

fn context(secs: i64, books: Vec<OrderbookSnapshot>) -> EventContext {
    let mut orderbooks: Table<OrderbookSnapshot> = Table::new();
    for b in books {
        orderbooks.insert(b.token_id.clone(), b);
    }
    EventContext {
        data: MarketData {
            orderbooks,
            external_prices: Table::new(),
            sourced_prices: Table::new(),
        },
        now: at(secs),
        quotes: Vec::new(),
        settlement: None,
    }
}

fn price(value: &str, secs: i64) -> Event {
    Event::ExternalPrice {
        symbol: "BTC".to_string(),
        price: d(value),
        source: "binance".to_string(),
        timestamp: at(secs),
    }
}

/// A strategy that sends no view out, on markets `m1` and `m2`.
fn strategy() -> CryptoArbitrageStrategy {
    let mut s = CryptoArbitrageStrategy::new(ArbitrageConfig::default());
    s.last_dashboard_emit = Some(0);
    s.active_markets.insert("m1".to_string(), with_reference("m1", 900));
    s
}

fn orders(actions: &Vec<Action>) -> Vec<&OrderRequest> {
    actions
        .iter()
        .filter_map(|a| match a {
            Action::PlaceOrder(o) => Some(o),
            _ => None,
        })
        .collect()
}

#[test]
fn both_outcomes_are_bought_in_equal_shares() {
    let mut s = strategy();
    let mut ctx = context(400, vec![book("m1-up", "0.38", "0.40"), book("m1-down", "0.38", "0.40")]);
    let actions = s.on_event(&price("50100", 400), &mut ctx, 0).unwrap();
    let list = orders(&actions);
    assert_eq!(list.len(), 2);
    // 10 / (0.40 + 0.40)
    assert_eq!((list[0].size, list[1].size), (d("12.5"), d("12.5")));
    assert_eq!(list[0].order_type, OrderType::Fok);
    assert_eq!((list[0].token_id.as_str(), list[1].token_id.as_str()), ("m1-up", "m1-down"));
    assert_eq!(s.pending_orders.len(), 2);
    let again = s.on_event(&price("50200", 401), &mut ctx, 0).unwrap();
    assert!(again.is_empty());
}

#[test]
fn the_limit_covers_all_legs() {
    let mut s = strategy();
    s.config.max_positions = 1;
    let mut ctx = context(400, vec![book("m1-up", "0.38", "0.40"), book("m1-down", "0.38", "0.40")]);
    assert!(s.on_event(&price("50100", 400), &mut ctx, 0).unwrap().is_empty());
    assert_eq!(s.pending_orders.len(), 0);
}

#[test]
fn a_single_outcome_is_bought_for_the_base_size() {
    let mut s = strategy();
    let mut ctx = context(850, vec![book("m1-up", "0.93", "0.95"), book("m1-down", "0.03", "0.05")]);
    let actions = s.on_event(&price("51000", 850), &mut ctx, 0).unwrap();
    let list = orders(&actions);
    assert_eq!(list.len(), 1);
    assert_eq!(list[0].price, d("0.95"));
    assert_eq!(Ok(list[0].size), d("10").over(d("0.95")));
}

fn answer(success: bool) -> Event {
    Event::OrderPlaced(OrderResult {
        success,
        order_id: Some("o1".to_string()),
        token_id: "m1-up".to_string(),
        status: None,
        message: String::new(),
    })
}

fn pending() -> PendingOrder {
    PendingOrder {
        market_id: "m1".to_string(),
        token_id: "m1-up".to_string(),
        side: OutcomeSide::Up,
        price: d("0.60"),
        size: d("10"),
        reference_price: d("50000"),
        coin: "BTC".to_string(),
    }
}

#[test]
fn only_a_confirmed_order_becomes_a_position() {
    let mut s = strategy();
    let mut ctx = context(400, Vec::new());
    s.pending_orders.insert("m1-up".to_string(), pending());
    s.on_event(&answer(false), &mut ctx, 0).unwrap();
    assert_eq!((s.pending_orders.len(), s.positions.len()), (0, 0));
    s.pending_orders.insert("m1-up".to_string(), pending());
    s.on_event(&answer(true), &mut ctx, 0).unwrap();
    assert_eq!((s.pending_orders.len(), s.positions.len()), (0, 1));
    assert_eq!(s.positions[0].order_id, Some("o1".to_string()));
    assert_eq!(s.positions[0].entry_price, d("0.60"));
    s.on_event(&answer(true), &mut ctx, 0).unwrap();
    assert_eq!(s.positions.len(), 1);
}

fn position() -> ArbitragePosition {
    ArbitragePosition {
        market_id: "m1".to_string(),
        token_id: "m1-up".to_string(),
        side: OutcomeSide::Up,
        entry_price: d("0.60"),
        size: d("10"),
        reference_price: d("50000"),
        coin: "BTC".to_string(),
        order_id: None,
        entry_time: at(0),
    }
}

/// A position whose price has reversed.
fn falling() -> CryptoArbitrageStrategy {
    let mut s = strategy();
    s.positions.push(position());
    s.on_event(&price("49500", 400), &mut context(400, Vec::new()), 0).unwrap();
    s
}

#[test]
fn a_stop_is_sold_once_until_it_is_answered() {
    let mut s = falling();
    let mut ctx = context(401, Vec::new());
    let event = Event::OrderbookUpdate(book("m1-up", "0.50", "0.55"));
    let actions = s.on_event(&event, &mut ctx, 0).unwrap();
    let list = orders(&actions);
    assert_eq!(list.len(), 1);
    assert_eq!(list[0].side, OrderSide::Sell);
    assert_eq!((list[0].price, list[0].size), (d("0.50"), d("10")));
    // The book is stored for all to see, its ask is kept for the view.
    assert_eq!(ctx.data.orderbooks.get("m1-up").unwrap().best_bid(), Some(d("0.50")));
    assert_eq!(s.cached_asks.get("m1-up"), Some(&d("0.55")));
    assert!(s.on_event(&event, &mut ctx, 0).unwrap().is_empty());
    s.on_event(&answer(false), &mut ctx, 0).unwrap();
    assert_eq!(s.positions.len(), 1);
    assert_eq!(orders(&s.on_event(&event, &mut ctx, 0).unwrap()).len(), 1);
    s.on_event(&answer(true), &mut ctx, 0).unwrap();
    assert_eq!(s.positions.len(), 0);
}

#[test]
fn a_rejection_clears_what_is_awaited() {
    let mut s = falling();
    s.pending_orders.insert("m1-up".to_string(), pending());
    s.pending_stop_loss.insert("m1-up".to_string(), true);
    let event = |token: Option<String>| Event::OrderRejected { token_id: token, reason: "no".to_string() };
    s.on_event(&event(None), &mut context(401, Vec::new()), 0).unwrap();
    assert_eq!(s.pending_orders.len(), 1);
    s.on_event(&event(Some("m1-up".to_string())), &mut context(401, Vec::new()), 0).unwrap();
    assert_eq!((s.pending_orders.len(), s.pending_stop_loss.len()), (0, 0));
    assert_eq!(s.positions.len(), 1);
}

#[test]
fn an_expired_market_takes_its_positions_along() {
    let mut s = falling();
    let mut other = position();
    other.market_id = "m2".to_string();
    s.positions.push(other);
    let actions = s
        .on_event(&Event::MarketExpired("m1".to_string()), &mut context(901, Vec::new()), 0)
        .unwrap();
    assert!(matches!(&actions[0], Action::UnsubscribeMarket(id) if id == "m1"));
    match &actions[1] {
        Action::Log { level, message } => {
            assert_eq!(*level, LogLevel::Info);
            assert_eq!(message, "Market m1 expired with 1 open position(s)");
        }
        _ => panic!("the open position is mentioned"),
    }
    assert_eq!(s.positions.len(), 1);
    assert_eq!(s.active_markets.len(), 0);
}

#[test]
fn a_market_waits_for_the_price_of_its_coin() {
    let mut s = CryptoArbitrageStrategy::new(ArbitrageConfig::default());
    s.last_dashboard_emit = Some(0);
    let event = Event::MarketDiscovered(market("m1", 900));
    assert!(s.on_event(&event, &mut context(5, Vec::new()), 0).unwrap().is_empty());
    assert!(s.pending_discovery.contains_key("BTC"));
    let actions = s.on_event(&price("50010", 6), &mut context(6, Vec::new()), 0).unwrap();
    assert!(matches!(&actions[0], Action::SubscribeMarket(m) if m.id == "m1"));
    assert_eq!(s.pending_discovery.len(), 0);
    assert_eq!(s.active_markets.get("m1").unwrap().reference_quality, ReferenceQuality::Historical(6));
}

#[test]
fn the_chain_gives_the_best_reference_where_it_is_used() {
    let quotes = vec![ChainQuote {
        window_ts: START,
        price: ChainlinkPrice { price: d("50007"), timestamp: START as u64 },
    }];
    let mut s = CryptoArbitrageStrategy::new(ArbitrageConfig::default());
    let found = s.find_best_reference("BTC", START, d("1"), &quotes);
    assert_eq!(found, (d("50007"), ReferenceQuality::OnChain));
    s.config.use_chainlink = false;
    let found = s.find_best_reference("BTC", START, d("1"), &quotes);
    assert_eq!(found, (d("1"), ReferenceQuality::Current));
}

#[test]
fn histories_of_the_combined_strategy_stay_bounded() {
    let mut s = strategy();
    for i in 0..205 {
        s.on_event(&price("50000", 10 + i), &mut context(10 + i, Vec::new()), 0).unwrap();
    }
    let list = s.price_history.get("BTC").unwrap();
    assert_eq!(list.len(), 200);
    assert_eq!(list[0].received_at.timestamp(), START + 15);
}

#[test]
fn views_follow_events_every_five_seconds() {
    let mut s = strategy();
    let mut ctx = context(400, Vec::new());
    assert!(s.on_event(&Event::Other, &mut ctx, 4_999).unwrap().is_empty());
    let actions = s.on_event(&Event::Other, &mut ctx, 5_000).unwrap();
    match &actions[0] {
        Action::EmitSignal(Signal::DashboardUpdate { view_name, rendered_html }) => {
            assert_eq!(view_name, "crypto-arb");
            assert!(rendered_html.contains("Active Markets (1)"));
            assert!(rendered_html.contains("8m 20s"));
        }
        _ => panic!("a view is sent out"),
    }
    assert!(s.on_event(&Event::Other, &mut ctx, 9_999).unwrap().is_empty());
}

#[test]
fn a_view_that_cannot_be_rendered_is_sent_out_empty() {
    let mut s = strategy();
    let most = Decimal::from_parts(79_228_162_514_264_337_593_543_950_335, 0).unwrap();
    s.positions.push(ArbitragePosition { size: most, ..position() });
    s.cached_asks.insert("m1-up".to_string(), d("99"));
    assert_eq!(s.render_view(at(1)), Err(Overflow));
    match s.maybe_emit_dashboard_update(5_000, at(1)) {
        Some(Action::EmitSignal(Signal::DashboardUpdate { rendered_html, .. })) => {
            assert_eq!(rendered_html, "");
        }
        _ => panic!("an empty view"),
    }
}

#[test]
fn the_view_shows_open_results() {
    let mut s = strategy();
    s.positions.push(position());
    s.cached_asks.insert("m1-up".to_string(), d("0.55"));
    let html = s.render_view(at(1)).unwrap();
    assert!(html.contains("<span class=\"pnl-negative\">$-0.50</span>"));
    assert!(html.contains("Open Positions (1)"));
}

#[test]
fn stopping_cancels_what_is_open() {
    let mut s = strategy();
    assert!(s.on_stop().is_empty());
    s.pending_orders.insert("m1-up".to_string(), pending());
    s.pending_stop_loss.insert("m1-up".to_string(), true);
    let actions = s.on_stop();
    assert!(matches!(actions[0], Action::CancelAllOrders));
    assert_eq!((s.pending_orders.len(), s.pending_stop_loss.len()), (0, 0));
    s.on_start(77);
    assert_eq!(s.last_scan, Some(77));
    assert_eq!(s.name(), "crypto-arbitrage");
    assert_eq!(s.description(), "Exploits mispricing in 15-min Up/Down crypto markets");
}
