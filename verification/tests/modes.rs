//! The confirmed and the cross-correlated strategy, and the stop-loss that they share.
use polyrust_strategies::base::{wait_before_retry, CryptoArbBase, StopLossReason};
use polyrust_strategies::config::ArbitrageConfig;
use polyrust_strategies::confirmed::ConfirmedStrategy;
use polyrust_strategies::crosscorr::CrossCorrStrategy;
use polyrust_strategies::decimal::Decimal;
use polyrust_strategies::domain::market::{MarketWithReference, ReferenceQuality};
use polyrust_strategies::domain::position::{ArbitrageMode, ArbitragePosition};
use polyrust_strategies::exchange::{
    Action, ChainlinkPrice, Event, EventContext, MarketData, MarketInfo, OrderRequest, OrderResult,
    OrderSide, OrderType, OrderbookLevel, OrderbookSnapshot, OutcomeSide, Signal, TokenIds,
};
use polyrust_strategies::mode_events::Pulse;
use polyrust_strategies::runtime::PriceEntry;
use polyrust_strategies::table::Table;
use polyrust_strategies::time::DateTime;

fn d(text: &str) -> Decimal {
    let (sign, rest) = match text.strip_prefix('-') {
        Some(rest) => (-1, rest),
        None => (1, text),
    };
    let (whole, fraction) = rest.split_once('.').unwrap_or((rest, ""));
    let digits: i128 = format!("{whole}{fraction}").parse().unwrap();
    Decimal::from_parts(sign * digits, fraction.len() as u32).unwrap()
}

const START: i64 = 1_706_000_400;

fn at(secs: i64) -> DateTime {
    DateTime::from_timestamp(START + secs).unwrap()
}

fn with_reference(id: &str, coin: &str) -> MarketWithReference {
    MarketWithReference {
        market: MarketInfo {
            id: id.to_string(),
            slug: "updown-15m".to_string(),
            question: "Up or Down?".to_string(),
            start_date: Some(at(0)),
            end_date: at(900),
            token_ids: TokenIds { outcome_a: format!("{id}-up"), outcome_b: format!("{id}-down") },
            accepting_orders: true,
            neg_risk: true,
            min_order_size: d("5"),
            tick_size: d("0.01"),
            fee_rate_bps: 315,
        },
        reference_price: d("50000"),
        reference_quality: ReferenceQuality::Exact,
        discovery_time: at(0),
        coin: coin.to_string(),
        window_ts: START,
    }
}

fn book(token: &str, bid: &str, ask: &str) -> OrderbookSnapshot {
    OrderbookSnapshot {
        token_id: token.to_string(),
        bids: vec![OrderbookLevel { price: d(bid), size: d("100") }],
        asks: vec![OrderbookLevel { price: d(ask), size: d("100") }],
        timestamp: at(0),
    }
}

fn context(secs: i64, books: Vec<OrderbookSnapshot>) -> EventContext {
    let mut orderbooks: Table<OrderbookSnapshot> = Table::new();
    for b in books {
        orderbooks.insert(b.token_id.clone(), b);
    }
    EventContext {
        data: MarketData {
            orderbooks,
            external_prices: Table::new(),
            sourced_prices: Table::new(),
        },
        now: at(secs),
        quotes: Vec::new(),
        settlement: None,
    }
}

fn price(coin: &str, value: &str, secs: i64) -> Event {
    Event::ExternalPrice {
        symbol: coin.to_string(),
        price: d(value),
        source: "binance".to_string(),
        timestamp: at(secs),
    }
}

fn base() -> CryptoArbBase {
    let mut b = CryptoArbBase::new(ArbitrageConfig::default(), at(0));
    b.rt.last_dashboard_emit = Some(0);
    b
}

/// No dashboard is due: nothing was sent out for less than five seconds.
fn quiet() -> Pulse {
    Pulse { now_ms: 0, widths: Table::new() }
}

fn orders(actions: &Vec<Action>) -> Vec<&OrderRequest> {
    actions
        .iter()
        .filter_map(|a| match a {
            Action::PlaceOrder(o) => Some(o),
            _ => None,
        })
        .collect()
}

fn position(mode: ArbitrageMode) -> ArbitragePosition {
    ArbitragePosition {
        market_id: "m1".to_string(),
        token_id: "m1-up".to_string(),
        side: OutcomeSide::Up,
        entry_price: d("0.60"),
        size: d("10"),
        reference_price: d("50000"),
        coin: "BTC".to_string(),
        order_id: None,
        entry_time: at(0),
        kelly_fraction: None,
        peak_bid: d("0.60"),
        peak_price: d("0.60"),
        estimated_fee: d("0.01"),
        entry_market_price: d("0.60"),
        tick_size: d("0.01"),
        fee_rate_bps: 315,
        entry_order_type: OrderType::Fok,
        entry_fee_per_share: d("0.01"),
        recovery_cost: d("0"),
        mode,
    }
}

#[test]
fn a_confident_move_is_bought_below_the_ask() {
    let mut b = base();
    b.rt.config.sizing.use_kelly = false;
    b.rt.active_markets.insert("m1".to_string(), with_reference("m1", "BTC"));
    let mut s = ConfirmedStrategy::new(b);
    assert_eq!(s.name(), "crypto-arb-confirmed");
    let ctx = context(500, vec![book("m1-up", "0.55", "0.60"), book("m1-down", "0.35", "0.40")]);
    let actions = s.on_event(&price("BTC", "52000", 500), &ctx, &quiet()).unwrap();
    let list = orders(&actions);
    assert_eq!(list.len(), 1);
    assert_eq!(list[0].token_id, "m1-up");
    assert_eq!(list[0].order_type, OrderType::Gtc);
    assert_eq!(list[0].price, d("0.59"));
    assert!(s.base.rt.pending_orders.contains_key("m1-up"));
    let again = s.on_event(&price("BTC", "52001", 501), &ctx, &quiet()).unwrap();
    assert!(orders(&again).is_empty());
}

#[test]
fn a_small_move_is_not_bought() {
    let mut b = base();
    b.rt.active_markets.insert("m1".to_string(), with_reference("m1", "BTC"));
    let mut s = ConfirmedStrategy::new(b);
    let ctx = context(500, vec![book("m1-up", "0.55", "0.60"), book("m1-down", "0.35", "0.40")]);
    let actions = s.on_event(&price("BTC", "50010", 500), &ctx, &quiet()).unwrap();
    assert!(orders(&actions).is_empty());
}

#[test]
fn confirmed_orders_become_positions_of_their_mode() {
    let mut b = base();
    b.rt.config.order.hybrid_mode = false;
    b.rt.config.sizing.use_kelly = false;
    b.rt.active_markets.insert("m1".to_string(), with_reference("m1", "BTC"));
    let mut s = ConfirmedStrategy::new(b);
    let ctx = context(500, vec![book("m1-up", "0.55", "0.60"), book("m1-down", "0.35", "0.40")]);
    let actions = s.on_event(&price("BTC", "52000", 500), &ctx, &quiet()).unwrap();
    assert_eq!(orders(&actions)[0].order_type, OrderType::Fok);
    assert_eq!(orders(&actions)[0].price, d("0.60"));
    let result = OrderResult {
        success: true,
        order_id: Some("o1".to_string()),
        token_id: "m1-up".to_string(),
        status: None,
        message: String::new(),
    };
    s.on_event(&Event::OrderPlaced(result), &ctx, &quiet()).unwrap();
    assert_eq!(s.base.rt.positions.len(), 1);
    assert_eq!(s.base.rt.positions[0].mode, ArbitrageMode::Confirmed);
    assert_eq!(s.base.rt.positions[0].entry_price, d("0.60"));
}

fn falling(mode: ArbitrageMode) -> CryptoArbBase {
    let mut b = base();
    b.rt.active_markets.insert("m1".to_string(), with_reference("m1", "BTC"));
    b.rt.record_position(position(mode));
    b.rt.price_history.insert(
        "BTC".to_string(),
        vec![PriceEntry {
            received_at: at(1),
            price: d("49500"),
            source: "binance".to_string(),
            source_ts: at(1),
        }],
    );
    b
}

#[test]
fn a_reversal_with_a_drop_is_sold_once() {
    let mut s = ConfirmedStrategy::new(falling(ArbitrageMode::Confirmed));
    let ctx = context(10, Vec::new());
    let event = Event::OrderbookUpdate(book("m1-up", "0.50", "0.55"));
    let actions = s.on_event(&event, &ctx, &quiet()).unwrap();
    let list = orders(&actions);
    assert_eq!(list.len(), 1);
    assert_eq!(list[0].side, OrderSide::Sell);
    assert_eq!(list[0].order_type, OrderType::Fok);
    assert_eq!(list[0].price, d("0.50"));
    assert!(list[0].neg_risk);
    assert!(orders(&s.on_event(&event, &ctx, &quiet()).unwrap()).is_empty());
}

#[test]
fn positions_of_other_modes_are_not_sold() {
    let mut s = ConfirmedStrategy::new(falling(ArbitrageMode::TailEnd));
    let event = Event::OrderbookUpdate(book("m1-up", "0.50", "0.55"));
    assert!(orders(&s.on_event(&event, &context(10, Vec::new()), &quiet()).unwrap()).is_empty());
}

#[test]
fn a_confirmed_sale_books_its_result() {
    let mut s = ConfirmedStrategy::new(falling(ArbitrageMode::Confirmed));
    let ctx = context(10, Vec::new());
    s.on_event(&Event::OrderbookUpdate(book("m1-up", "0.50", "0.55")), &ctx, &quiet()).unwrap();
    let result = OrderResult {
        success: true,
        order_id: Some("o1".to_string()),
        token_id: "m1-up".to_string(),
        status: None,
        message: String::new(),
    };
    s.on_event(&Event::OrderPlaced(result), &ctx, &quiet()).unwrap();
    assert_eq!(s.base.rt.positions.len(), 0);
    // (0.50 - 0.60) * 10 - 0.01 * 10 - 2 * 0.5 * 0.5 * 0.0315 * 10
    let stats = s.base.mode_stats.get("Confirmed").unwrap();
    assert_eq!(stats.counts().3, d("-1.2575"));
}

#[test]
fn a_rejected_sale_may_be_tried_again() {
    let mut s = ConfirmedStrategy::new(falling(ArbitrageMode::Confirmed));
    let ctx = context(10, Vec::new());
    let event = Event::OrderbookUpdate(book("m1-up", "0.50", "0.55"));
    s.on_event(&event, &ctx, &quiet()).unwrap();
    let rejected =
        Event::OrderRejected { token_id: Some("m1-up".to_string()), reason: "busy".to_string() };
    s.on_event(&rejected, &ctx, &quiet()).unwrap();
    assert_eq!(orders(&s.on_event(&event, &ctx, &quiet()).unwrap()).len(), 1);
}

#[test]
fn the_stop_loss_trails_the_peak() {
    let mut b = base();
    b.rt.active_markets.insert("m1".to_string(), with_reference("m1", "BTC"));
    let mut pos = position(ArbitrageMode::Confirmed);
    pos.peak_bid = d("0.70");
    // Half of the window is left: the distance is 0.015.
    let sale = b.check_stop_loss(&pos, &book("m1-up", "0.685", "0.70"), at(450)).unwrap().unwrap();
    assert_eq!(sale.trigger.reason, StopLossReason::TrailingStop);
    assert_eq!(sale.trigger.reason.name(), "trailing_stop");
    assert_eq!(sale.trigger.effective_distance, d("0.015"));
    assert_eq!(sale.exit_price, d("0.685"));
    assert!(b.check_stop_loss(&pos, &book("m1-up", "0.69", "0.70"), at(450)).unwrap().is_none());
}

#[test]
fn a_marked_token_is_sold_by_a_resting_order() {
    let mut b = falling(ArbitrageMode::Confirmed);
    b.stop_loss_use_gtc.insert("m1-up".to_string(), true);
    let pos = position(ArbitrageMode::Confirmed);
    let sale = b.check_stop_loss(&pos, &book("m1-up", "0.50", "0.55"), at(10)).unwrap().unwrap();
    assert_eq!(sale.trigger.reason, StopLossReason::DualTrigger);
    assert_eq!(sale.order_type, OrderType::Gtc);
    assert_eq!(sale.exit_price, d("0.49"));
    assert!(!b.stop_loss_use_gtc.contains_key("m1-up"));
}

#[test]
fn rejected_sales_wait_by_kind() {
    let mut b = falling(ArbitrageMode::Confirmed);
    b.rt.update_event_time(at(10));
    b.handle_stop_loss_rejection("m1-up", "no match").unwrap();
    assert!(b.stop_loss_use_gtc.contains_key("m1-up"));
    assert!(b.is_stop_loss_cooled_down("m1-up"));
    assert_eq!(b.stop_loss_retry_counts.get("m1-up"), Some(&1));
    b.rt.update_event_time(at(12));
    assert!(!b.is_stop_loss_cooled_down("m1-up"));
    b.handle_stop_loss_rejection("m1-up", "not enough balance").unwrap();
    b.rt.update_event_time(at(26));
    assert!(b.is_stop_loss_cooled_down("m1-up"));
    b.handle_stop_loss_rejection("m1-up", "invalid amounts").unwrap();
    assert_eq!(b.rt.positions.len(), 0);
}

#[test]
fn waits_follow_the_schedule() {
    let schedule = [1u64, 5, 15];
    assert_eq!(wait_before_retry(&schedule, 1), 1);
    assert_eq!(wait_before_retry(&schedule, 2), 5);
    assert_eq!(wait_before_retry(&schedule, 3), 15);
    assert_eq!(wait_before_retry(&schedule, 9), 15);
    let none: [u64; 0] = [];
    assert_eq!(wait_before_retry(&none, 0), 60);
}

#[test]
fn a_fresh_start_seeds_the_history() {
    let mut b = base();
    let answer = ChainlinkPrice { price: d("50000"), timestamp: START as u64 };
    b.warm_up(&"BTC".to_string(), answer, at(100));
    b.warm_up(&"BTC".to_string(), answer, at(100));
    let list = b.rt.price_history.get("BTC").unwrap();
    assert_eq!(list.len(), 2);
    assert_eq!(list[1].source, "chainlink");
}

fn spiking() -> CrossCorrStrategy {
    let mut b = base();
    b.rt.config.correlation.enabled = true;
    b.rt.config.correlation.discount_factor = d("1");
    b.rt.config.sizing.use_kelly = false;
    b.rt.active_markets.insert("m2".to_string(), with_reference("m2", "ETH"));
    CrossCorrStrategy::new(b)
}

#[test]
fn a_spike_of_the_leader_buys_its_followers() {
    let mut s = spiking();
    assert_eq!(s.get_followers("BTC"), vec!["ETH".to_string(), "SOL".to_string()]);
    assert!(s.get_followers("DOGE").is_empty());
    let books = || vec![book("m2-up", "0.45", "0.50"), book("m2-down", "0.45", "0.50")];
    s.on_event(&price("BTC", "50000", 0), &context(0, books()), &quiet()).unwrap();
    let actions = s.on_event(&price("BTC", "80000", 11), &context(11, books()), &quiet()).unwrap();
    let list = orders(&actions);
    assert_eq!(list.len(), 1);
    assert_eq!(list[0].token_id, "m2-up");
    // 10 / 0.50, a cent below the ask.
    assert_eq!(list[0].size, d("20"));
    assert_eq!(list[0].price, d("0.49"));
    match &s.base.rt.pending_orders.get("m2-up").unwrap().mode {
        ArbitrageMode::CrossCorrelated { leader } => assert_eq!(leader, "BTC"),
        _ => panic!("the order is of the cross-correlated mode"),
    }
}

#[test]
fn a_follower_that_has_moved_is_left_alone() {
    let mut s = spiking();
    let books = || vec![book("m2-up", "0.60", "0.61"), book("m2-down", "0.38", "0.39")];
    s.on_event(&price("BTC", "50000", 0), &context(0, books()), &quiet()).unwrap();
    let actions = s.on_event(&price("BTC", "80000", 11), &context(11, books()), &quiet()).unwrap();
    assert!(orders(&actions).is_empty());
}

#[test]
fn a_small_spike_moves_no_follower() {
    let mut s = spiking();
    let books = || vec![book("m2-up", "0.45", "0.50"), book("m2-down", "0.45", "0.50")];
    s.on_event(&price("BTC", "50000", 0), &context(0, books()), &quiet()).unwrap();
    let actions = s.on_event(&price("BTC", "60000", 11), &context(11, books()), &quiet()).unwrap();
    assert!(orders(&actions).is_empty());
}

#[test]
fn an_expired_market_settles_by_mode() {
    let mut s = ConfirmedStrategy::new(falling(ArbitrageMode::Confirmed));
    let mut ctx = context(901, Vec::new());
    ctx.settlement = Some(ChainlinkPrice { price: d("51000"), timestamp: (START + 900) as u64 });
    let actions = s.on_event(&Event::MarketExpired("m1".to_string()), &ctx, &quiet()).unwrap();
    assert!(actions.iter().any(|a| matches!(a, Action::UnsubscribeMarket(id) if id == "m1")));
    assert_eq!(s.base.rt.positions.len(), 0);
    assert!(s.base.mode_stats.len() + s.base.rt.stats.total_trades() as usize > 0);
}

#[test]
fn rounds_end_with_a_dashboard_when_it_is_due() {
    let due = Pulse { now_ms: 5_000, widths: Table::new() };
    let mut s = ConfirmedStrategy::new(base());
    let actions = s.on_event(&Event::Other, &context(1, Vec::new()), &due).unwrap();
    assert!(matches!(&actions[0], Action::EmitSignal(Signal::DashboardUpdate { .. })));
    assert!(s.on_event(&Event::Other, &context(2, Vec::new()), &due).unwrap().is_empty());
    // A price without a spike ends the round early; so does correlation that is off.
    let mut s = spiking();
    assert!(s.on_event(&price("BTC", "50000", 0), &context(0, Vec::new()), &due).unwrap().is_empty());
    assert_eq!(s.on_event(&Event::Other, &context(1, Vec::new()), &due).unwrap().len(), 1);
    let mut s = spiking();
    s.base.rt.config.correlation.enabled = false;
    assert!(s.on_event(&Event::Other, &context(1, Vec::new()), &due).unwrap().is_empty());
}
