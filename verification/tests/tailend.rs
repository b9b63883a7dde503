//! The tail-end strategy, event by event.
use polyrust_strategies::config::{ArbitrageConfig, SizingConfig, SizingError, TailEndConfig};
use polyrust_strategies::decimal::{Decimal, Overflow};
use polyrust_strategies::domain::lifecycle::{PositionLifecycle, PositionLifecycleState};
use polyrust_strategies::domain::market::{MarketWithReference, ReferenceQuality};
use polyrust_strategies::domain::position::{
    ArbitrageMode, ArbitragePosition, ExitOrderMeta, OpenLimitOrder,
};
use polyrust_strategies::exchange::{
    Action, Event, EventContext, MarketData, MarketInfo, OrderRequest, OrderResult, OrderSide,
    OrderType, OrderbookLevel, OrderbookSnapshot, OutcomeSide, Signal, TokenIds,
};
use polyrust_strategies::runtime::CryptoArbRuntime;
use polyrust_strategies::table::Table;
use polyrust_strategies::tailend::entry::SkipReason;
use polyrust_strategies::tailend::exit::TailEndStrategy;
use polyrust_strategies::time::DateTime;

fn d(text: &str) -> Decimal {
    let (sign, rest) = match text.strip_prefix('-') {
        Some(rest) => (-1, rest),
        None => (1, text),
    };
    let (whole, fraction) = rest.split_once('.').unwrap_or((rest, ""));
    let digits: i128 = format!("{whole}{fraction}").parse().unwrap();
    Decimal::from_parts(sign * digits, fraction.len() as u32).unwrap()
}

const START: i64 = 1_706_000_400;

fn at(secs: i64) -> DateTime {
    DateTime::from_timestamp(START + secs).unwrap()
}

fn market(id: &str, end: i64) -> MarketInfo {
    MarketInfo {
        id: id.to_string(),
        slug: "btc-updown-15m".to_string(),
        question: "Bitcoin Up or Down?".to_string(),
        start_date: Some(at(0)),
        end_date: at(end),
        token_ids: TokenIds { outcome_a: format!("{id}-up"), outcome_b: format!("{id}-down") },
        accepting_orders: true,
        neg_risk: false,
        min_order_size: d("5"),
        tick_size: d("0.01"),
        fee_rate_bps: 315,
    }
}

fn with_reference(id: &str, end: i64) -> MarketWithReference {
    MarketWithReference {
        market: market(id, end),
        reference_price: d("50000"),
        reference_quality: ReferenceQuality::Exact,
        discovery_time: at(0),
        coin: "BTC".to_string(),
        window_ts: START,
    }
}

fn book(token: &str, bid: &str, ask: &str, secs: i64) -> OrderbookSnapshot {
    OrderbookSnapshot {
        token_id: token.to_string(),
        bids: vec![OrderbookLevel { price: d(bid), size: d("100") }],
        asks: vec![OrderbookLevel { price: d(ask), size: d("100") }],
        timestamp: at(secs),
    }
}

fn strategy() -> TailEndStrategy {
    let mut config = ArbitrageConfig::default();
    config.tailend.enabled = true;
    TailEndStrategy::new(CryptoArbRuntime::new(config, at(0))).unwrap()
}

fn context(secs: i64, books: Vec<OrderbookSnapshot>) -> EventContext {
    let mut orderbooks: Table<OrderbookSnapshot> = Table::new();
    for b in books {
        orderbooks.insert(b.token_id.clone(), b);
    }
    EventContext {
        data: MarketData {
            orderbooks,
            external_prices: Table::new(),
            sourced_prices: Table::new(),
        },
        now: at(secs),
        quotes: Vec::new(),
        settlement: None,
    }
}

fn price(value: &str, secs: i64) -> Event {
    Event::ExternalPrice {
        symbol: "BTC".to_string(),
        price: d(value),
        source: "binance-futures".to_string(),
        timestamp: at(secs),
    }
}

fn position(token: &str, entry: &str, size: &str, secs: i64) -> ArbitragePosition {
    ArbitragePosition {
        market_id: "m1".to_string(),
        token_id: token.to_string(),
        side: OutcomeSide::Up,
        entry_price: d(entry),
        size: d(size),
        reference_price: d("50000"),
        coin: "BTC".to_string(),
        order_id: None,
        entry_time: at(secs),
        kelly_fraction: None,
        peak_bid: d(entry),
        peak_price: d(entry),
        estimated_fee: d("0"),
        entry_market_price: d(entry),
        tick_size: d("0.01"),
        fee_rate_bps: 315,
        entry_order_type: OrderType::Gtc,
        entry_fee_per_share: d("0"),
        recovery_cost: d("0"),
        mode: ArbitrageMode::TailEnd,
    }
}

fn placed(actions: &Vec<Action>) -> Vec<&OrderRequest> {
    actions
        .iter()
        .filter_map(|a| match a {
            Action::PlaceOrder(o) => Some(o),
            _ => None,
        })
        .collect()
}

fn cancelled(actions: &Vec<Action>) -> Vec<&str> {
    actions
        .iter()
        .filter_map(|a| match a {
            Action::CancelOrder(id) => Some(id.as_str()),
            _ => None,
        })
        .collect()
}

/// Prices above the reference for some seconds, then a fresh book with an ask of 0.95.
fn entry_after(prices: &[(&str, i64)], s: &mut TailEndStrategy) -> Vec<Action> {
    s.base.active_markets.insert("m1".to_string(), with_reference("m1", 900));
    let mut all = Vec::new();
    for (value, secs) in prices {
        let ctx = context(*secs, vec![book("m1-up", "0.945", "0.95", *secs)]);
        all.extend(s.on_event(&price(value, *secs), &ctx).unwrap());
    }
    all
}

#[test]
fn a_sustained_move_near_the_end_is_bought() {
    let mut s = strategy();
    let actions = entry_after(&[("50100", 840), ("50110", 844), ("50120", 847)], &mut s);
    let orders = placed(&actions);
    assert_eq!(orders.len(), 1);
    let o = orders[0];
    assert_eq!(o.token_id, "m1-up");
    // One tick above the ask; 10 / 0.95 cut to two decimals.
    assert_eq!(o.price, d("0.96"));
    assert_eq!(o.size, d("10.52"));
    assert_eq!(o.side, OrderSide::Buy);
    assert_eq!(o.order_type, OrderType::Gtc);
    assert_eq!(o.tick_size, Some(d("0.01")));
    assert_eq!(o.fee_rate_bps, Some(315));
    let pending = s.base.pending_orders.get("m1-up").unwrap();
    assert_eq!(pending.market_id, "m1");
    assert_eq!(pending.estimated_fee, d("0.0029925"));
    assert_eq!(s.base.order_telemetry.total_orders, 1);
}

#[test]
fn a_market_with_an_order_on_its_way_is_not_bought_again() {
    let mut s = strategy();
    let first = entry_after(&[("50100", 840), ("50110", 844), ("50120", 847)], &mut s);
    assert_eq!(placed(&first).len(), 1);
    let ctx = context(848, vec![book("m1-up", "0.945", "0.95", 848)]);
    let again = s.on_event(&price("50130", 848), &ctx).unwrap();
    assert!(placed(&again).is_empty());
    assert_eq!(s.base.tailend_skip_stats.get("reservation"), Some(&2));
}

#[test]
fn a_single_price_is_no_sustained_move() {
    let mut s = strategy();
    let actions = entry_after(&[("50120", 847)], &mut s);
    assert!(placed(&actions).is_empty());
    assert_eq!(s.base.tailend_skip_stats.get("sustained"), Some(&1));
}

#[test]
fn entries_wait_for_the_last_two_minutes() {
    let mut s = strategy();
    let actions = entry_after(&[("50100", 740), ("50110", 744), ("50120", 747)], &mut s);
    assert!(placed(&actions).is_empty());
    assert_eq!(s.base.tailend_skip_stats.get("time_window"), Some(&3));
}

#[test]
fn a_cooldown_keeps_a_market_closed() {
    let mut s = strategy();
    s.base.update_event_time(at(840));
    s.base.record_rejection_cooldown("m1", 15).unwrap();
    assert!(s.base.is_rejection_cooled_down("m1"));
    let actions = entry_after(&[("50100", 840), ("50110", 844), ("50120", 847)], &mut s);
    assert!(placed(&actions).is_empty());
    assert_eq!(s.base.tailend_skip_stats.get("rejection_cooldown"), Some(&3));
    s.base.update_event_time(at(855));
    assert!(!s.base.is_rejection_cooled_down("m1"));
}

#[test]
fn the_position_limit_keeps_markets_closed() {
    let mut s = strategy();
    s.base.config.max_positions = 1;
    s.base.record_position(position("other", "0.90", "10", 0));
    s.base.positions[0].market_id = "m2".to_string();
    let actions = entry_after(&[("50100", 840), ("50110", 844), ("50120", 847)], &mut s);
    assert!(placed(&actions).is_empty());
    assert_eq!(s.base.tailend_skip_stats.get("reservation"), Some(&3));
}

#[test]
fn the_tightest_bucket_gives_the_threshold() {
    let s = strategy();
    assert_eq!(s.get_ask_threshold(119), d("0.90"));
    assert_eq!(s.get_ask_threshold(90), d("0.92"));
    assert_eq!(s.get_ask_threshold(60), d("0.93"));
    assert_eq!(s.get_ask_threshold(10), d("0.95"));
    assert_eq!(s.get_ask_threshold(120), d("0.90"));
    assert_eq!(s.get_ask_threshold(121), TailEndConfig::default().ask_threshold);
    assert_eq!(s.get_ask_threshold(500), TailEndConfig::default().ask_threshold);
}

#[test]
fn the_highest_threshold_counts_whatever_the_order() {
    let mut s = strategy();
    s.base.config.tailend.dynamic_thresholds =
        vec![(30, d("0.91")), (120, d("0.94")), (60, d("0.90")), (u64::MAX, d("0.80"))];
    assert_eq!(s.get_ask_threshold(20), d("0.94"));
    assert_eq!(s.get_ask_threshold(120), d("0.94"));
    assert_eq!(s.get_ask_threshold(121), d("0.80"));
}

#[test]
fn a_tail_end_entry_is_certain_whatever_the_reference() {
    let mut s = strategy();
    let mut m = with_reference("m1", 900);
    m.reference_quality = ReferenceQuality::Historical(5);
    s.base.active_markets.insert("m1".to_string(), m);
    for (value, secs) in [("50100", 840), ("50110", 844), ("50120", 847)] {
        s.on_event(&price(value, secs), &context(secs, Vec::new())).unwrap();
    }
    let mut books: Table<OrderbookSnapshot> = Table::new();
    books.insert("m1-up".to_string(), book("m1-up", "0.945", "0.95", 847));
    let o = s.evaluate_opportunity(&"m1".to_string(), d("50120"), &books, at(847)).unwrap().unwrap();
    assert_eq!(o.confidence, d("1"));
    assert_eq!(o.profit_margin, d("0.05"));
}

#[test]
fn skip_reasons_have_names() {
    assert_eq!(SkipReason::NoAsk.name(), "no_ask");
    assert_eq!(SkipReason::StrikeProximity.name(), "strike_proximity");
    assert_eq!(SkipReason::CompositeStale.name(), "composite_stale");
}

#[test]
fn sizing_is_validated_at_the_start() {
    let mut config = ArbitrageConfig::default();
    config.sizing = SizingConfig { base_size: d("0"), ..SizingConfig::default() };
    match TailEndStrategy::new(CryptoArbRuntime::new(config, at(0))) {
        Err(e) => assert_eq!(e, SizingError::BaseSize { got: d("0") }),
        Ok(_) => panic!("a base size of zero cannot be used"),
    }
}

#[test]
fn a_confirmed_entry_rests_and_becomes_a_position_when_filled() {
    let mut s = strategy();
    entry_after(&[("50100", 840), ("50110", 844), ("50120", 847)], &mut s);
    let ctx = context(848, Vec::new());
    let result = OrderResult {
        success: true,
        order_id: Some("o1".to_string()),
        token_id: "m1-up".to_string(),
        status: None,
        message: String::new(),
    };
    assert!(s.on_event(&Event::OrderPlaced(result), &ctx).unwrap().is_empty());
    assert!(!s.base.pending_orders.contains_key("m1-up"));
    assert_eq!(s.base.open_limit_orders.get("o1").unwrap().size, d("10.52"));
    let fill = Event::OrderFilled {
        order_id: "o1".to_string(),
        token_id: "m1-up".to_string(),
        price: d("0.955"),
        size: d("10.52"),
    };
    s.on_event(&fill, &ctx).unwrap();
    assert!(!s.base.open_limit_orders.contains_key("o1"));
    assert_eq!(s.base.positions.len(), 1);
    assert_eq!(s.base.positions[0].entry_price, d("0.955"));
    assert_eq!(s.base.positions[0].size, d("10.52"));
    assert!(s.base.position_lifecycle.contains_key("m1-up"));
}

#[test]
fn a_failed_entry_is_forgotten() {
    let mut s = strategy();
    entry_after(&[("50100", 840), ("50110", 844), ("50120", 847)], &mut s);
    let result = OrderResult {
        success: false,
        order_id: None,
        token_id: "m1-up".to_string(),
        status: None,
        message: "no funds".to_string(),
    };
    s.on_event(&Event::OrderPlaced(result), &context(848, Vec::new())).unwrap();
    assert_eq!(s.base.pending_orders.len(), 0);
    assert_eq!(s.base.open_limit_orders.len(), 0);
    assert_eq!(s.base.positions.len(), 0);
}

/// A position bought at 0.95 whose external price has crashed.
fn crashed() -> TailEndStrategy {
    let mut s = strategy();
    s.base.active_markets.insert("m1".to_string(), with_reference("m1", 900));
    s.base.record_position(position("m1-up", "0.95", "20", 800));
    s.on_event(&price("49500", 820), &context(820, Vec::new())).unwrap();
    s
}

#[test]
fn a_crash_is_sold_at_once_and_only_once() {
    let mut s = crashed();
    let ctx = context(821, Vec::new());
    let first = s
        .on_event(&Event::OrderbookUpdate(book("m1-up", "0.80", "0.82", 821)), &ctx)
        .unwrap();
    let orders = placed(&first);
    assert_eq!(orders[0].side, OrderSide::Sell);
    assert_eq!(orders[0].order_type, OrderType::Fak);
    assert_eq!(orders[0].price, d("0.80"));
    assert_eq!(orders[0].size, d("20"));
    match &s.base.position_lifecycle.get("m1-up").unwrap().state {
        PositionLifecycleState::ExitExecuting { exit_price, .. } => {
            assert_eq!(*exit_price, d("0.80"));
        }
        _ => panic!("the exit is under way"),
    }
    let again = s
        .on_event(&Event::OrderbookUpdate(book("m1-up", "0.70", "0.72", 822)), &context(822, Vec::new()))
        .unwrap();
    assert!(again.is_empty());
}

#[test]
fn a_hedge_goes_with_the_exit_where_the_set_is_cheap() {
    let mut s = crashed();
    s.base.cached_asks.insert("m1-down".to_string(), d("0.05"));
    let actions = s
        .on_event(
            &Event::OrderbookUpdate(book("m1-up", "0.80", "0.82", 821)),
            &context(821, Vec::new()),
        )
        .unwrap();
    let orders = placed(&actions);
    assert_eq!(orders.len(), 2);
    assert_eq!(orders[1].token_id, "m1-down");
    assert_eq!(orders[1].side, OrderSide::Buy);
    assert_eq!(orders[1].order_type, OrderType::Gtc);
    assert_eq!(orders[1].price, d("0.05"));
    assert_eq!(s.base.exit_orders_by_id.len(), 2);
}

#[test]
fn a_hedged_position_is_left_alone() {
    let mut s = crashed();
    let mut lc = PositionLifecycle::new();
    lc.state = PositionLifecycleState::Hedged { hedge_cost: d("1"), hedged_at: at(810) };
    s.write_lifecycle("m1-up", lc);
    let actions = s
        .on_event(
            &Event::OrderbookUpdate(book("m1-up", "0.60", "0.62", 821)),
            &context(821, Vec::new()),
        )
        .unwrap();
    assert!(actions.is_empty());
}

fn exit_order_id(s: &TailEndStrategy) -> String {
    s.base.exit_orders_by_id.key_at(0).clone()
}

/// The crash of [`crashed`], with the exit confirmed as order `x1`.
fn exiting() -> TailEndStrategy {
    let mut s = crashed();
    s.on_event(&Event::OrderbookUpdate(book("m1-up", "0.80", "0.82", 821)), &context(821, Vec::new()))
        .unwrap();
    let result = OrderResult {
        success: true,
        order_id: Some("x1".to_string()),
        token_id: "m1-up".to_string(),
        status: Some("Filled".to_string()),
        message: String::new(),
    };
    s.on_event(&Event::OrderPlaced(result), &context(821, Vec::new())).unwrap();
    s
}

#[test]
fn a_placed_exit_takes_the_order_id_of_the_exchange() {
    let s = exiting();
    assert_eq!(exit_order_id(&s), "x1");
    let lc = s.base.position_lifecycle.get("m1-up").unwrap();
    assert_eq!(lc.pending_exit_order_id, Some("x1".to_string()));
}

#[test]
fn a_filled_exit_closes_the_position_and_books_the_result() {
    let mut s = exiting();
    let fill = Event::OrderFilled {
        order_id: "x1".to_string(),
        token_id: "m1-up".to_string(),
        price: d("0.80"),
        size: d("20"),
    };
    s.on_event(&fill, &context(822, Vec::new())).unwrap();
    assert_eq!(s.base.positions.len(), 0);
    assert!(!s.base.position_lifecycle.contains_key("m1-up"));
    assert_eq!(s.base.exit_orders_by_id.len(), 0);
    // (0.80 - 0.95) * 20 - 2 * 0.80 * 0.20 * 0.0315 * 20
    let (trades, won, lost, total) = s.base.stats.counts();
    assert_eq!((trades, won, lost), (1, 0, 1));
    assert_eq!(total, d("-3.2016"));
}

#[test]
fn a_partly_filled_exit_leaves_a_resting_order() {
    let mut s = exiting();
    let fill = Event::OrderFilled {
        order_id: "x1".to_string(),
        token_id: "m1-up".to_string(),
        price: d("0.80"),
        size: d("8"),
    };
    let actions = s.on_event(&fill, &context(822, Vec::new())).unwrap();
    let orders = placed(&actions);
    assert_eq!(orders.len(), 1);
    assert_eq!(orders[0].order_type, OrderType::Gtc);
    assert_eq!(orders[0].price, d("0.79"));
    assert_eq!(orders[0].size, d("12"));
    assert_eq!(s.base.positions[0].size, d("12"));
}

#[test]
fn dust_is_written_off() {
    let mut s = exiting();
    let fill = Event::OrderFilled {
        order_id: "x1".to_string(),
        token_id: "m1-up".to_string(),
        price: d("0.80"),
        size: d("17"),
    };
    let actions = s.on_event(&fill, &context(822, Vec::new())).unwrap();
    assert!(actions.is_empty());
    assert_eq!(s.base.positions.len(), 0);
    assert!(s.base.is_recovery_exit_cooled_down("m1"));
}

#[test]
fn an_exit_without_a_fill_heals_the_position() {
    let mut s = crashed();
    s.on_event(&Event::OrderbookUpdate(book("m1-up", "0.80", "0.82", 821)), &context(821, Vec::new()))
        .unwrap();
    let result = OrderResult {
        success: true,
        order_id: Some("x1".to_string()),
        token_id: "m1-up".to_string(),
        status: Some("Unmatched".to_string()),
        message: String::new(),
    };
    s.on_event(&Event::OrderPlaced(result), &context(821, Vec::new())).unwrap();
    let lc = s.base.position_lifecycle.get("m1-up").unwrap();
    assert_eq!(lc.state.name(), "Healthy");
    assert_eq!(s.base.exit_orders_by_id.len(), 0);
    let last = &lc.transition_log[lc.transition_log.len() - 1].1;
    assert_eq!(last, "ExitExecuting -> Healthy: Fak zero fill (status: Unmatched)");
}

#[test]
fn a_rejected_exit_heals_the_position() {
    let mut s = exiting();
    let event = Event::OrderRejected {
        token_id: Some("m1-up".to_string()),
        reason: "no match".to_string(),
    };
    s.on_event(&event, &context(822, Vec::new())).unwrap();
    assert_eq!(s.base.position_lifecycle.get("m1-up").unwrap().state.name(), "Healthy");
    assert_eq!(s.base.positions.len(), 1);
}

fn hedge_meta() -> ExitOrderMeta {
    ExitOrderMeta {
        token_id: "m1-up".to_string(),
        order_token_id: "m1-down".to_string(),
        order_type: OrderType::Gtc,
        source_state: "Hedge".to_string(),
        exit_price: d("0.05"),
        clip_size: d("20"),
    }
}

#[test]
fn a_filled_hedge_completes_the_set_and_calls_the_sale_off() {
    let mut s = exiting();
    s.base.exit_orders_by_id.insert("h1".to_string(), hedge_meta());
    let fill = Event::OrderFilled {
        order_id: "h1".to_string(),
        token_id: "m1-down".to_string(),
        price: d("0.05"),
        size: d("20"),
    };
    let actions = s.on_event(&fill, &context(822, Vec::new())).unwrap();
    assert_eq!(cancelled(&actions), vec!["x1"]);
    match &s.base.position_lifecycle.get("m1-up").unwrap().state {
        PositionLifecycleState::Hedged { hedge_cost, .. } => assert_eq!(*hedge_cost, d("1")),
        _ => panic!("the set is complete"),
    }
    assert_eq!(s.base.positions[0].recovery_cost, d("-1"));
}

fn limit_order(id: &str, secs: i64) -> OpenLimitOrder {
    OpenLimitOrder {
        order_id: id.to_string(),
        market_id: "m1".to_string(),
        token_id: "m1-up".to_string(),
        side: OutcomeSide::Up,
        price: d("0.95"),
        size: d("10"),
        reference_price: d("50000"),
        coin: "BTC".to_string(),
        placed_at: at(secs),
        kelly_fraction: None,
        estimated_fee: d("0"),
        tick_size: d("0.01"),
        fee_rate_bps: 315,
        cancel_pending: false,
        reconcile_miss_count: 0,
        mode: ArbitrageMode::TailEnd,
    }
}

#[test]
fn a_limit_order_that_is_too_old_is_cancelled_once() {
    let mut s = strategy();
    s.base.open_limit_orders.insert("o1".to_string(), limit_order("o1", 800));
    assert!(s.on_event(&Event::Other, &context(829, Vec::new())).unwrap().is_empty());
    let actions = s.on_event(&Event::Other, &context(831, Vec::new())).unwrap();
    assert_eq!(cancelled(&actions), vec!["o1"]);
    assert_eq!(s.base.order_telemetry.total_cancels, 1);
    assert_eq!(s.base.order_telemetry.cancel_before_fill.get("BTC"), Some(&1));
    assert!(s.on_event(&Event::Other, &context(840, Vec::new())).unwrap().is_empty());
}

#[test]
fn an_order_missing_twice_is_taken_as_filled() {
    let mut s = strategy();
    s.base.open_limit_orders.insert("o1".to_string(), limit_order("o1", 800));
    let snapshot = Event::OpenOrderSnapshot(Vec::new());
    assert!(s.on_event(&snapshot, &context(805, Vec::new())).unwrap().is_empty());
    assert_eq!(s.base.open_limit_orders.get("o1").unwrap().reconcile_miss_count, 1);
    let actions = s.on_event(&snapshot, &context(806, Vec::new())).unwrap();
    assert!(actions.iter().any(|a| matches!(
        a,
        Action::EmitSignal(Signal::ReconciledFill { order_id, .. }) if order_id == "o1"
    )));
    assert!(actions.iter().any(|a| matches!(a, Action::RecordFill { .. })));
    assert_eq!(s.base.open_limit_orders.len(), 0);
    assert_eq!(s.base.positions.len(), 1);
}

#[test]
fn an_order_that_shows_up_again_starts_over() {
    let mut s = strategy();
    s.base.open_limit_orders.insert("o1".to_string(), limit_order("o1", 800));
    s.on_event(&Event::OpenOrderSnapshot(Vec::new()), &context(805, Vec::new())).unwrap();
    s.on_event(&Event::OpenOrderSnapshot(vec!["o1".to_string()]), &context(806, Vec::new())).unwrap();
    assert_eq!(s.base.open_limit_orders.get("o1").unwrap().reconcile_miss_count, 0);
}

#[test]
fn a_cancel_that_came_too_late_is_a_fill() {
    let mut s = strategy();
    s.base.open_limit_orders.insert("o1".to_string(), limit_order("o1", 800));
    let event = Event::OrderCancelFailed {
        order_id: "o1".to_string(),
        reason: "order already matched".to_string(),
    };
    let actions = s.on_event(&event, &context(806, Vec::new())).unwrap();
    assert!(actions.iter().any(|a| matches!(
        a,
        Action::EmitSignal(Signal::MatchedFill { order_id, .. }) if order_id == "o1"
    )));
    assert_eq!(s.base.open_limit_orders.len(), 0);
    assert_eq!(s.base.positions.len(), 1);
}

#[test]
fn a_cancelled_order_is_dropped() {
    let mut s = strategy();
    s.base.open_limit_orders.insert("o1".to_string(), limit_order("o1", 800));
    s.on_event(&Event::OrderCancelled("o1".to_string()), &context(806, Vec::new())).unwrap();
    assert_eq!(s.base.open_limit_orders.len(), 0);
}

#[test]
fn an_expired_market_settles_its_positions() {
    let mut s = strategy();
    s.base.active_markets.insert("m1".to_string(), with_reference("m1", 900));
    s.base.record_position(position("m1-up", "0.95", "20", 800));
    s.on_event(&price("50500", 900), &context(900, Vec::new())).unwrap();
    let actions =
        s.on_event(&Event::MarketExpired("m1".to_string()), &context(901, Vec::new())).unwrap();
    assert!(actions.iter().any(|a| matches!(a, Action::UnsubscribeMarket(id) if id == "m1")));
    assert_eq!(s.base.positions.len(), 0);
    assert_eq!(s.base.active_markets.len(), 0);
    // (1 - 0.95) * 20
    let (_, won, _, total) = s.base.stats.counts();
    assert_eq!((won, total), (1, d("1")));
}

#[test]
fn a_discovered_market_waits_for_a_price() {
    let mut s = strategy();
    let m = market("m1", 900);
    let ctx = context(10, Vec::new());
    assert!(s.on_event(&Event::MarketDiscovered(m.clone()), &ctx).unwrap().is_empty());
    assert_eq!(s.base.active_markets.len(), 0);
    let actions = s.on_event(&price("50000", 11), &context(11, Vec::new())).unwrap();
    assert!(actions.iter().any(|a| matches!(a, Action::SubscribeMarket(m) if m.id == "m1")));
    let m = s.base.active_markets.get("m1").unwrap();
    assert_eq!(m.reference_quality, ReferenceQuality::Historical(11));
    let mut ctx = context(12, Vec::new());
    ctx.data.external_prices.insert("BTC".to_string(), d("50001"));
    let actions = s.on_event(&Event::MarketDiscovered(market("m2", 900)), &ctx).unwrap();
    assert!(actions.iter().any(|a| matches!(a, Action::SubscribeMarket(m) if m.id == "m2")));
}

#[test]
fn the_trailing_stop_compares_blended_prices() {
    let mut s = strategy();
    s.base.active_markets.insert("m1".to_string(), with_reference("m1", 900));
    s.base.record_position(position("m1-up", "0.90", "20", 500));
    s.on_event(&price("50000", 880), &context(880, Vec::new())).unwrap();
    // 0.70 * 0.95 + 0.30 * 0.90: below the highest bid, but no fall of the blended price.
    let steady = Event::OrderbookUpdate(book("m1-up", "0.95", "0.96", 880));
    for _ in 0..2 {
        assert!(s.on_event(&steady, &context(880, Vec::new())).unwrap().is_empty());
        assert_eq!(s.base.positions[0].peak_bid, d("0.95"));
        assert_eq!(s.base.positions[0].peak_price, d("0.935"));
    }
    // 0.70 * 0.94 + 0.30 * 0.90: a fall of 0.007.
    let lower = Event::OrderbookUpdate(book("m1-up", "0.94", "0.96", 880));
    assert!(s.on_event(&lower, &context(880, Vec::new())).unwrap().is_empty());
    // 0.70 * 0.93 + 0.30 * 0.90: a fall of 0.014.
    let fallen = Event::OrderbookUpdate(book("m1-up", "0.93", "0.96", 880));
    let actions = s.on_event(&fallen, &context(880, Vec::new())).unwrap();
    assert_eq!(placed(&actions)[0].price, d("0.93"));
    let id = exit_order_id(&s);
    let source = &s.base.exit_orders_by_id.get(&id).unwrap().source_state;
    assert_eq!(source, "TrailingStop(peak=0.9350, current=0.9210, dist=0.01)");
}

#[test]
fn a_price_change_raises_the_blended_peak() {
    let mut s = strategy();
    s.base.config.tailend.fast_path_enabled = true;
    s.base.active_markets.insert("m1".to_string(), with_reference("m1", 900));
    s.base.record_position(position("m1-up", "0.90", "20", 500));
    let ctx = || context(600, vec![book("m1-up", "0.93", "0.96", 600)]);
    s.on_event(&price("50000", 600), &ctx()).unwrap();
    assert_eq!(s.base.positions[0].peak_bid, d("0.90"));
    // 0.70 * 0.93 + 0.30 * 0.90
    assert_eq!(s.base.positions[0].peak_price, d("0.921"));
    // A reversal of 0.001 lowers the blend by 0.30 * 0.01, not the peak.
    s.on_event(&price("49950", 600), &ctx()).unwrap();
    assert_eq!(s.base.positions[0].peak_price, d("0.921"));
    let stale = context(700, vec![book("m1-up", "0.97", "0.98", 600)]);
    s.on_event(&price("50000", 700), &stale).unwrap();
    assert_eq!(s.base.positions[0].peak_price, d("0.921"));
}

#[test]
fn an_overflow_is_an_error() {
    let mut s = strategy();
    s.base.active_markets.insert("m1".to_string(), with_reference("m1", 900));
    let most = Decimal::from_parts(79_228_162_514_264_337_593_543_950_335, 0).unwrap();
    s.base.record_position(position("m1-up", "0.95", "20", 815));
    s.base.positions[0].entry_price = most;
    s.base.position_lifecycle.insert("m1-up".to_string(), PositionLifecycle::new());
    let mut low = book("m1-up", "0.80", "0.82", 821);
    low.bids[0].price = most.neg();
    let r = s.on_event(&Event::OrderbookUpdate(low), &context(821, Vec::new()));
    assert!(matches!(r, Err(Overflow)));
}

#[test]
fn a_young_position_is_sold_in_a_crash_only() {
    let mut s = strategy();
    s.base.active_markets.insert("m1".to_string(), with_reference("m1", 900));
    s.base.record_position(position("m1-up", "0.95", "20", 815));
    let drop = Event::OrderbookUpdate(book("m1-up", "0.90", "0.92", 821));
    assert!(s.on_event(&drop, &context(821, Vec::new())).unwrap().is_empty());
    s.on_event(&price("49500", 821), &context(821, Vec::new())).unwrap();
    assert_eq!(placed(&s.on_event(&drop, &context(821, Vec::new())).unwrap()).len(), 1);
}
