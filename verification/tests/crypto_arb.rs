//! The combined strategy on plain inputs.
use polyrust_strategies::config::ArbitrageConfig;
use polyrust_strategies::crypto_arb::strategy::CryptoArbitrageStrategy;
use polyrust_strategies::crypto_arb::types::{
    ArbitragePosition, MarketWithReference, ReferenceQuality,
};
use polyrust_strategies::decimal::Decimal;
use polyrust_strategies::domain::market::BoundarySnapshot;
use polyrust_strategies::domain::position::ArbitrageMode;
use polyrust_strategies::exchange::{
    Action, MarketData, MarketInfo, OrderbookLevel, OrderbookSnapshot, OutcomeSide, Signal,
    TokenIds,
};
use polyrust_strategies::fee_math::{net_profit_margin, parse_slug_timestamp, taker_fee};
use polyrust_strategies::runtime::{PriceEntry, WINDOW_SECS};
use polyrust_strategies::table::Table;
use polyrust_strategies::time::DateTime;

/// A decimal written out.
fn d(text: &str) -> Decimal {
    let (whole, fraction) = text.split_once('.').unwrap_or((text, ""));
    let digits = format!("{whole}{fraction}");
    Decimal::from_parts(digits.parse().unwrap(), fraction.len() as u32).unwrap()
}

fn now() -> DateTime {
    DateTime::from_timestamp(1_706_000_400).unwrap()
}

fn later(secs: i64) -> DateTime {
    after(now(), secs)
}

fn after(t: DateTime, secs: i64) -> DateTime {
    DateTime::from_timestamp(t.timestamp() + secs).unwrap()
}

fn entry(received_at: DateTime, price: Decimal, source: &str) -> PriceEntry {
    PriceEntry { received_at, price, source: source.to_string(), source_ts: received_at }
}

fn make_data() -> MarketData {
    MarketData {
        orderbooks: Table::new(),
        external_prices: Table::new(),
        sourced_prices: Table::new(),
    }
}

fn make_market_info(id: &str, end_date: DateTime) -> MarketInfo {
    MarketInfo {
        id: id.to_string(),
        slug: "btc-up-down".to_string(),
        question: "Will BTC go up?".to_string(),
        start_date: None,
        end_date,
        token_ids: TokenIds {
            outcome_a: "token_up".to_string(),
            outcome_b: "token_down".to_string(),
        },
        accepting_orders: true,
        neg_risk: false,
        min_order_size: d("5"),
        tick_size: d("0.01"),
        fee_rate_bps: 0,
    }
}

fn make_mwr(reference_price: Decimal, time_remaining_secs: i64) -> MarketWithReference {
    MarketWithReference {
        market: make_market_info(
            "market1",
            later(time_remaining_secs),
        ),
        reference_price,
        reference_quality: ReferenceQuality::Exact,
        discovery_time: now(),
        coin: "BTC".to_string(),
    }
}

fn make_orderbook(token_id: &str, best_bid: Decimal, best_ask: Decimal) -> OrderbookSnapshot {
    OrderbookSnapshot {
        token_id: token_id.to_string(),
        bids: vec![OrderbookLevel {
            price: best_bid,
            size: d("100"),
        }],
        asks: vec![OrderbookLevel {
            price: best_ask,
            size: d("100"),
        }],
        timestamp: now(),
    }
}

// --- predict_winner tests ---

#[test]
fn predict_winner_btc_up() {
    let mwr = make_mwr(d("50000"), 600);
    // Current price above reference => Up
    assert_eq!(mwr.predict_winner(d("50100")), Some(OutcomeSide::Up));
}

#[test]
fn predict_winner_btc_down() {
    let mwr = make_mwr(d("50000"), 600);
    // Current price below reference => Down
    assert_eq!(mwr.predict_winner(d("49900")), Some(OutcomeSide::Down));
}

#[test]
fn predict_winner_at_reference_returns_none() {
    let mwr = make_mwr(d("50000"), 600);
    // Price equals reference => no directional signal
    assert_eq!(mwr.predict_winner(d("50000")), None);
}

// --- get_confidence tests ---

#[test]
fn confidence_tail_end() {
    // < 120s remaining, market >= 0.90 -> confidence 1.0
    let mwr = make_mwr(d("50000"), 60);
    let confidence = mwr.get_confidence(d("51000"), d("0.95"), 60).unwrap();
    assert_eq!(confidence, d("1.0"));
}

#[test]
fn confidence_tail_end_low_market_price() {
    // < 120s but market < 0.90 -> NOT tail-end, falls to late window
    // Small move so late window doesn't cap at 1.0
    let mwr = make_mwr(d("50000"), 60);
    // distance_pct = 50/50000 = 0.001, base = 0.001 * 66 = 0.066
    // market_boost = 1.0 + (0.55 - 0.50) * 0.5 = 1.025
    // raw = 0.066 * 1.025 = 0.0677 < 1.0
    let confidence = mwr.get_confidence(d("50050"), d("0.55"), 60).unwrap();
    assert!(d("1.0").gt(confidence));
    assert!(confidence.gt(Decimal::zero()));
}

#[test]
fn confidence_late_window() {
    // 120-300s remaining
    let mwr = make_mwr(d("50000"), 200);
    let confidence = mwr.get_confidence(d("51000"), d("0.70"), 200).unwrap();
    // distance_pct = 1000/50000 = 0.02
    // base = 0.02 * 66 = 1.32
    // market_boost = 1.0 + (0.70 - 0.50) * 0.5 = 1.10
    // raw = 1.32 * 1.10 = 1.452 -> capped at 1.0
    assert!(confidence.gt(Decimal::zero()));
    assert!(confidence.le(d("1.0")));
}

#[test]
fn confidence_early_window() {
    // > 300s remaining
    let mwr = make_mwr(d("50000"), 600);
    // distance_pct = 500/50000 = 0.01
    // raw = 0.01 * 50 = 0.50
    let confidence = mwr.get_confidence(d("50500"), d("0.50"), 600).unwrap();
    assert_eq!(confidence, d("0.50"));
}

#[test]
fn confidence_early_window_small_move() {
    // > 300s, small move => lower confidence
    let mwr = make_mwr(d("50000"), 600);
    // distance_pct = 100/50000 = 0.002
    // raw = 0.002 * 50 = 0.10
    let confidence = mwr.get_confidence(d("50100"), d("0.50"), 600).unwrap();
    assert_eq!(confidence, d("0.10"));
}

// --- evaluate_opportunity tests ---

#[test]
fn evaluate_tail_end_opportunity() {
    let mwr = make_mwr(d("50000"), 60);
    let mut data = make_data();

    // Set up orderbook with high ask for Up outcome
    data.orderbooks.insert(
        "token_up".to_string(),
        make_orderbook("token_up", d("0.93"), d("0.95")),
    );
    data.orderbooks.insert(
        "token_down".to_string(),
        make_orderbook("token_down", d("0.03"), d("0.05")),
    );

    let strategy = CryptoArbitrageStrategy::new(ArbitrageConfig::default());
    // Current price > reference => Up wins; ask = 0.95 >= 0.90
    let opps = strategy
        .evaluate_opportunity(&mwr, d("51000"), &data.orderbooks, now())
        .unwrap();
    assert!(!opps.is_empty());
    let opp = &opps[0];
    assert_eq!(opp.mode, ArbitrageMode::TailEnd);
    assert_eq!(opp.outcome_to_buy, OutcomeSide::Up);
    assert_eq!(opp.buy_price, d("0.95"));
    assert_eq!(opp.confidence, d("1.0"));
}

#[test]
fn evaluate_two_sided_opportunity() {
    let mwr = make_mwr(d("50000"), 400);
    let mut data = make_data();

    // Both asks low: 0.40 + 0.40 = 0.80 < 0.98
    // Gross margin = 0.20, fees = ~0.03, net > 0 → opportunity generated
    data.orderbooks.insert(
        "token_up".to_string(),
        make_orderbook("token_up", d("0.38"), d("0.40")),
    );
    data.orderbooks.insert(
        "token_down".to_string(),
        make_orderbook("token_down", d("0.38"), d("0.40")),
    );

    let strategy = CryptoArbitrageStrategy::new(ArbitrageConfig::default());
    let opps = strategy
        .evaluate_opportunity(&mwr, d("50100"), &data.orderbooks, now())
        .unwrap();
    assert_eq!(opps.len(), 2, "TwoSided should return both outcomes");
    assert_eq!(opps[0].mode, ArbitrageMode::TwoSided);
    assert_eq!(opps[0].outcome_to_buy, OutcomeSide::Up);
    assert_eq!(opps[1].outcome_to_buy, OutcomeSide::Down);
    assert_eq!(opps[0].profit_margin, d("0.20")); // 1.0 - 0.80
    assert!(opps[0].net_margin.gt(Decimal::zero()));
    assert!(opps[0].estimated_fee.gt(Decimal::zero()));
    for o in &opps {
        assert_eq!(o.profit_margin.minus(o.estimated_fee), Ok(o.net_margin));
    }
}

#[test]
fn evaluate_confirmed_opportunity() {
    let mwr = make_mwr(d("50000"), 200);
    let mut data = make_data();

    // Late window, reasonable ask, high distance
    data.orderbooks.insert(
        "token_up".to_string(),
        make_orderbook("token_up", d("0.55"), d("0.60")),
    );
    data.orderbooks.insert(
        "token_down".to_string(),
        make_orderbook("token_down", d("0.35"), d("0.40")),
    );

    let strategy = CryptoArbitrageStrategy::new(ArbitrageConfig::default());
    // Large price move: 52000 vs 50000 = 4% distance
    // confidence = min(1.0, 0.04 * 66 * boost) will be > 0.50
    let opps = strategy
        .evaluate_opportunity(&mwr, d("52000"), &data.orderbooks, now())
        .unwrap();
    assert!(!opps.is_empty());
    let opp = &opps[0];
    assert_eq!(opp.mode, ArbitrageMode::Confirmed);
    assert_eq!(opp.outcome_to_buy, OutcomeSide::Up);
    assert!(opp.confidence.ge(d("0.50")));
    assert!(opp.estimated_fee.gt(Decimal::zero()));
    assert!(opp.net_margin.gt(Decimal::zero()));
    assert!(opp.profit_margin.gt(opp.net_margin));
}

#[test]
fn evaluate_no_opportunity_low_confidence() {
    let mwr = make_mwr(d("50000"), 600);
    let mut data = make_data();

    // Early window, tiny move, high ask => no opportunity
    data.orderbooks.insert(
        "token_up".to_string(),
        make_orderbook("token_up", d("0.88"), d("0.92")),
    );
    data.orderbooks.insert(
        "token_down".to_string(),
        make_orderbook("token_down", d("0.06"), d("0.08")),
    );

    let strategy = CryptoArbitrageStrategy::new(ArbitrageConfig::default());
    // Tiny move: 50010 vs 50000 = 0.02% distance
    // confidence = 0.0002 * 50 = 0.01 < 0.50
    let opps = strategy
        .evaluate_opportunity(&mwr, d("50010"), &data.orderbooks, now())
        .unwrap();
    assert!(opps.is_empty());
}

// --- stop-loss tests ---

#[test]
fn stop_loss_triggers() {
    // Reversal > 0.5% AND price drop > 5¢ AND time > 60s
    let mut strategy = CryptoArbitrageStrategy::new(ArbitrageConfig::default());

    let mwr = make_mwr(d("50000"), 300);
    strategy.active_markets.insert("market1".to_string(), mwr);

    // We bet Up at reference 50000 with entry price 0.60
    let pos = ArbitragePosition {
        market_id: "market1".to_string(),
        token_id: "token_up".to_string(),
        side: OutcomeSide::Up,
        entry_price: d("0.60"),
        size: d("10"),
        reference_price: d("50000"),
        coin: "BTC".to_string(),
        order_id: None,
        entry_time: now(),
    };

    // Price reversed: BTC dropped from 50000 to 49500 = -1% > 0.5%
    let mut history = Vec::new();
    history.push(entry(now(), d("49500"), "binance"));
    strategy.price_history.insert("BTC".to_string(), history);

    // Market bid dropped from 0.60 to 0.50 = 10¢ > 5¢
    let snapshot = make_orderbook("token_up", d("0.50"), d("0.55"));

    let action = strategy.check_stop_loss(&pos, &snapshot, now()).unwrap();
    assert!(action.is_some());
}

#[test]
fn stop_loss_does_not_trigger_final_60s() {
    let mut strategy = CryptoArbitrageStrategy::new(ArbitrageConfig::default());

    // Only 30 seconds left
    let mwr = make_mwr(d("50000"), 30);
    strategy.active_markets.insert("market1".to_string(), mwr);

    let pos = ArbitragePosition {
        market_id: "market1".to_string(),
        token_id: "token_up".to_string(),
        side: OutcomeSide::Up,
        entry_price: d("0.60"),
        size: d("10"),
        reference_price: d("50000"),
        coin: "BTC".to_string(),
        order_id: None,
        entry_time: now(),
    };

    let mut history = Vec::new();
    history.push(entry(now(), d("49500"), "binance"));
    strategy.price_history.insert("BTC".to_string(), history);

    let snapshot = make_orderbook("token_up", d("0.50"), d("0.55"));
    let action = strategy.check_stop_loss(&pos, &snapshot, now()).unwrap();
    assert!(action.is_none());
}

#[test]
fn stop_loss_does_not_trigger_small_drop() {
    let mut strategy = CryptoArbitrageStrategy::new(ArbitrageConfig::default());

    let mwr = make_mwr(d("50000"), 300);
    strategy.active_markets.insert("market1".to_string(), mwr);

    let pos = ArbitragePosition {
        market_id: "market1".to_string(),
        token_id: "token_up".to_string(),
        side: OutcomeSide::Up,
        entry_price: d("0.60"),
        size: d("10"),
        reference_price: d("50000"),
        coin: "BTC".to_string(),
        order_id: None,
        entry_time: now(),
    };

    // Crypto reversed, but market price only dropped 3¢ < 5¢
    let mut history = Vec::new();
    history.push(entry(now(), d("49500"), "binance"));
    strategy.price_history.insert("BTC".to_string(), history);

    let snapshot = make_orderbook("token_up", d("0.57"), d("0.60"));
    let action = strategy.check_stop_loss(&pos, &snapshot, now()).unwrap();
    assert!(action.is_none());
}

// --- market discovery/expiry tests ---

#[test]
fn on_market_discovered_creates_entry() {
    let mut strategy = make_strategy_no_chainlink();
    let mut data = make_data();

    // Set BTC price in context
    data.external_prices.insert("BTC".to_string(), d("50000"));

    let market = make_market_info("btc-market-1", later(900));

    let actions = strategy.on_market_discovered(&market, &data.external_prices, now(), &Vec::new());
    assert_eq!(actions.len(), 1);
    assert!(matches!(actions[0], Action::SubscribeMarket(_)));
    assert!(strategy.active_markets.contains_key("btc-market-1"));
    // Reference price should be the current external price (Current quality)
    let mwr = strategy.active_markets.get("btc-market-1").unwrap();
    assert_eq!(mwr.reference_price, d("50000"));
    assert_eq!(mwr.reference_quality, ReferenceQuality::Current);
}

#[test]
fn on_market_expired_removes_market() {
    let mut strategy = CryptoArbitrageStrategy::new(ArbitrageConfig::default());
    let mut data = make_data();

    let mwr = make_mwr(d("50000"), 0);
    strategy.active_markets.insert("market1".to_string(), mwr);

    let actions = strategy.on_market_expired(&"market1".to_string());
    assert!(!strategy.active_markets.contains_key("market1"));
    assert_eq!(actions.len(), 1);
    assert!(matches!(actions[0], Action::UnsubscribeMarket(_)));
}

// --- extract_coin tests ---

#[test]
fn extract_coin_from_question() {
    let strategy = CryptoArbitrageStrategy::new(ArbitrageConfig::default());
    assert_eq!(
        strategy.extract_coin("Will BTC go up in the next 15 minutes?"),
        Some("BTC".to_string())
    );
    assert_eq!(
        strategy.extract_coin("Will ETH be above $2000?"),
        Some("ETH".to_string())
    );
    assert_eq!(strategy.extract_coin("Random question about stocks"), None);
    // Full coin names (as used by Polymarket)
    assert_eq!(
        strategy.extract_coin("Bitcoin Up or Down - January 27, 4:45PM-5:00PM ET"),
        Some("BTC".to_string())
    );
    assert_eq!(
        strategy.extract_coin("Ethereum Up or Down - January 27, 4:45PM-5:00PM ET"),
        Some("ETH".to_string())
    );
    assert_eq!(
        strategy.extract_coin("Solana Up or Down - January 27, 4:45PM-5:00PM ET"),
        Some("SOL".to_string())
    );
    assert_eq!(
        strategy.extract_coin("XRP Up or Down - January 27, 4:45PM-5:00PM ET"),
        Some("XRP".to_string())
    );
}

// --- DashboardViewProvider tests ---

#[test]
fn dashboard_view_returns_some() {
    let strategy = CryptoArbitrageStrategy::new(ArbitrageConfig::default());
    let view = strategy.dashboard_view();
    assert!(view.is_some());
    assert_eq!(view.unwrap().view_name(), "crypto-arb");
}

#[test]
fn render_view_empty_state() {
    let strategy = CryptoArbitrageStrategy::new(ArbitrageConfig::default());
    let html = strategy.render_view(now()).unwrap();
    // Should contain all three section headers
    assert!(html.contains("Reference Prices"));
    assert!(html.contains("Active Markets"));
    assert!(html.contains("Open Positions"));
    // Empty state messages
    assert!(html.contains("No active markets"));
    assert!(html.contains("No open positions"));
}

#[test]
fn render_view_with_active_markets_and_prices() {
    let mut strategy = CryptoArbitrageStrategy::new(ArbitrageConfig::default());

    // Add an active market
    let mwr = make_mwr(d("50000"), 300);
    strategy.active_markets.insert("market1".to_string(), mwr);

    // Add current price history for BTC
    let mut history = Vec::new();
    history.push(entry(now(), d("50500"), "binance"));
    strategy.price_history.insert("BTC".to_string(), history);

    let html = strategy.render_view(now()).unwrap();

    // Reference price section should show coin data with formatted prices
    assert!(html.contains("BTC"));
    assert!(html.contains("$50,000.00"));
    assert!(html.contains("$50,500.00"));
    assert!(html.contains("UP")); // 50500 > 50000 => UP prediction

    // Active markets section should show the market
    assert!(html.contains("BTC Up/Down"));

    // No open positions
    assert!(html.contains("No open positions"));
}

#[test]
fn render_view_with_positions() {
    let mut strategy = CryptoArbitrageStrategy::new(ArbitrageConfig::default());

    // Add a position
    let pos = ArbitragePosition {
        market_id: "market1".to_string(),
        token_id: "token_up".to_string(),
        side: OutcomeSide::Up,
        entry_price: d("0.60"),
        size: d("10"),
        reference_price: d("50000"),
        coin: "BTC".to_string(),
        order_id: None,
        entry_time: now(),
    };
    strategy.positions.push(pos);

    let html = strategy.render_view(now()).unwrap();

    // Should show position data
    assert!(html.contains("Open Positions (1)"));
    assert!(html.contains("BTC"));
    assert!(html.contains("0.60")); // entry price
    assert!(!html.contains("No open positions"));
}

// --- dashboard update emission tests ---

#[test]
fn maybe_emit_dashboard_update_first_call_emits() {
    let mut strategy = CryptoArbitrageStrategy::new(ArbitrageConfig::default());
    let action = strategy.maybe_emit_dashboard_update(1_000, now());
    assert!(action.is_some(), "first call should emit");
    match action {
        Some(Action::EmitSignal(Signal::DashboardUpdate { view_name, .. })) => {
            assert_eq!(view_name, "crypto-arb");
        }
        _ => panic!("the first call should emit a dashboard update"),
    }
}

#[test]
fn maybe_emit_dashboard_update_throttles() {
    let mut strategy = CryptoArbitrageStrategy::new(ArbitrageConfig::default());

    // First call emits
    let action = strategy.maybe_emit_dashboard_update(1_000, now());
    assert!(action.is_some());

    // Immediate second call should be throttled
    let action = strategy.maybe_emit_dashboard_update(1_000, now());
    assert!(action.is_none(), "immediate second call should be throttled");
}

#[test]
fn render_view_current_quality_reference() {
    let mut strategy = CryptoArbitrageStrategy::new(ArbitrageConfig::default());

    let mut mwr = make_mwr(d("50000"), 300);
    mwr.reference_quality = ReferenceQuality::Current;
    strategy.active_markets.insert("market1".to_string(), mwr);

    let html = strategy.render_view(now()).unwrap();
    // Current quality reference should show ~ prefix with formatted price
    assert!(html.contains("~$50,000.00"));
}

#[test]
fn render_view_historical_quality_reference() {
    let mut strategy = CryptoArbitrageStrategy::new(ArbitrageConfig::default());

    let mut mwr = make_mwr(d("50000"), 300);
    mwr.reference_quality = ReferenceQuality::Historical(10);
    strategy.active_markets.insert("market1".to_string(), mwr);

    let html = strategy.render_view(now()).unwrap();
    // Historical quality reference should show ≈ prefix
    assert!(html.contains("≈$50,000.00"));
}

#[test]
fn render_view_onchain_quality_reference() {
    let mut strategy = CryptoArbitrageStrategy::new(ArbitrageConfig::default());

    let mut mwr = make_mwr(d("50000"), 300);
    mwr.reference_quality = ReferenceQuality::OnChain;
    strategy.active_markets.insert("market1".to_string(), mwr);

    let html = strategy.render_view(now()).unwrap();
    // OnChain quality reference should show ✓ prefix
    assert!(html.contains("✓$50,000.00"));
}

// --- reference quality tests ---

#[test]
fn quality_factor_values() {
    assert_eq!(ReferenceQuality::OnChain.quality_factor(), Decimal::one());
    assert_eq!(ReferenceQuality::Exact.quality_factor(), Decimal::one());
    assert_eq!(
        ReferenceQuality::Historical(3).quality_factor(),
        d("0.95")
    );
    assert_eq!(
        ReferenceQuality::Historical(10).quality_factor(),
        d("0.85")
    );
    assert_eq!(ReferenceQuality::Current.quality_factor(), d("0.70"));
}

#[test]
fn confidence_discounted_by_quality() {
    // Exact quality: raw confidence unchanged
    let mwr_exact = make_mwr(d("50000"), 600);
    // distance_pct = 500/50000 = 0.01, raw = 0.01 * 50 = 0.50
    let c_exact = mwr_exact.get_confidence(d("50500"), d("0.50"), 600).unwrap();
    assert_eq!(c_exact, d("0.50")); // 0.50 * 1.0 = 0.50

    // Current quality: discounted by 0.70
    let mut mwr_current = make_mwr(d("50000"), 600);
    mwr_current.reference_quality = ReferenceQuality::Current;
    let c_current = mwr_current.get_confidence(d("50500"), d("0.50"), 600).unwrap();
    assert_eq!(c_current, d("0.350")); // 0.50 * 0.70 = 0.35
}

/// Helper: create a strategy with Chainlink disabled (no RPC calls in tests).
fn make_strategy_no_chainlink() -> CryptoArbitrageStrategy {
    let mut config = ArbitrageConfig::default();
    config.use_chainlink = false;
    CryptoArbitrageStrategy::new(config)
}

#[test]
fn find_best_reference_exact_boundary() {
    let mut strategy = make_strategy_no_chainlink();

    let ts = 1706000000i64;
    strategy.boundary_prices.insert(
        "BTC-1706000000".to_string(),
        BoundarySnapshot {
            timestamp: DateTime::from_timestamp(ts).unwrap(),
            price: d("42500"),
            source: "chainlink".to_string(),
        },
    );

    let (price, quality) = strategy.find_best_reference("BTC", ts, d("43000"), &Vec::new());
    assert_eq!(price, d("42500"));
    assert_eq!(quality, ReferenceQuality::Exact);
}

#[test]
fn find_best_reference_historical() {
    let mut strategy = make_strategy_no_chainlink();

    let window_ts = 1706000000i64;
    let target_dt = DateTime::from_timestamp(window_ts).unwrap();

    // Add history entries around the window start
    let mut history = Vec::new();
    // 5 seconds after window start
    history.push(entry(after(target_dt, 5), d("42600"), "binance"));
    // 20 seconds after window start
    history.push(entry(after(target_dt, 20), d("42700"), "binance"));
    strategy.price_history.insert("BTC".to_string(), history);

    let (price, quality) = strategy.find_best_reference("BTC", window_ts, d("43000"), &Vec::new());
    assert_eq!(price, d("42600")); // Closest to window start (5s)
    assert_eq!(quality, ReferenceQuality::Historical(5));
}

#[test]
fn find_best_reference_historical_prefers_chainlink() {
    let mut strategy = make_strategy_no_chainlink();

    let window_ts = 1706000000i64;
    let target_dt = DateTime::from_timestamp(window_ts).unwrap();

    let mut history = Vec::new();
    // Binance at 3s, Chainlink at 6s — within 5s of each other
    history.push(entry(after(target_dt, 3), d("42600"), "binance"));
    history.push(entry(after(target_dt, 6), d("42650"), "chainlink"));
    strategy.price_history.insert("BTC".to_string(), history);

    let (price, quality) = strategy.find_best_reference("BTC", window_ts, d("43000"), &Vec::new());
    // Should prefer Chainlink even though it's slightly further
    assert_eq!(price, d("42650"));
    assert_eq!(quality, ReferenceQuality::Historical(6));
}

#[test]
fn find_best_reference_fallback_to_current() {
    let strategy = make_strategy_no_chainlink();

    // No boundary snapshots, no history
    let (price, quality) = strategy.find_best_reference("BTC", 1706000000, d("43000"), &Vec::new());
    assert_eq!(price, d("43000"));
    assert_eq!(quality, ReferenceQuality::Current);
}

#[test]
fn find_best_reference_stale_history_falls_to_current() {
    let mut strategy = make_strategy_no_chainlink();

    let window_ts = 1706000000i64;
    let target_dt = DateTime::from_timestamp(window_ts).unwrap();

    // History entry 60s after window start — too stale (> 30s threshold)
    let mut history = Vec::new();
    history.push(entry(after(target_dt, 60), d("42800"), "binance"));
    strategy.price_history.insert("BTC".to_string(), history);

    let (price, quality) = strategy.find_best_reference("BTC", window_ts, d("43000"), &Vec::new());
    assert_eq!(price, d("43000"));
    assert_eq!(quality, ReferenceQuality::Current);
}

#[test]
fn parse_slug_timestamp_valid() {
    assert_eq!(
        parse_slug_timestamp("btc-updown-15m-1706000000"),
        Some(1706000000)
    );
}

#[test]
fn parse_slug_timestamp_no_number() {
    assert_eq!(parse_slug_timestamp("btc-updown-15m"), None);
}

#[test]
fn parse_slug_timestamp_small_number() {
    assert_eq!(parse_slug_timestamp("btc-updown-15m-12345"), None);
}

#[test]
fn prune_boundary_snapshots_removes_old() {
    let mut strategy = CryptoArbitrageStrategy::new(ArbitrageConfig::default());

    let now_ts = now().timestamp();
    let old_ts = now_ts - (WINDOW_SECS * 5); // 5 windows ago
    let recent_ts = now_ts - WINDOW_SECS; // 1 window ago

    strategy.boundary_prices.insert(
        format!("BTC-{old_ts}"),
        BoundarySnapshot {
            timestamp: DateTime::from_timestamp(old_ts).unwrap(),
            price: d("40000"),
            source: "chainlink".to_string(),
        },
    );
    strategy.boundary_prices.insert(
        format!("BTC-{recent_ts}"),
        BoundarySnapshot {
            timestamp: DateTime::from_timestamp(recent_ts).unwrap(),
            price: d("42000"),
            source: "chainlink".to_string(),
        },
    );

    strategy.prune_boundary_snapshots("BTC", now());

    // Old one should be pruned, recent one kept
    assert!(!strategy.boundary_prices.contains_key(&format!("BTC-{old_ts}")));
    assert!(strategy.boundary_prices.contains_key(&format!("BTC-{recent_ts}")));
}

#[test]
fn on_market_discovered_with_boundary_snapshot() {
    let mut strategy = make_strategy_no_chainlink();
    let mut data = make_data();

    // Set BTC price in context
    data.external_prices.insert("BTC".to_string(), d("50500"));

    // Set up a boundary snapshot for the current window
    let now_ts = now().timestamp();
    let window_ts = now_ts - (now_ts % WINDOW_SECS);
    strategy.boundary_prices.insert(
        format!("BTC-{window_ts}"),
        BoundarySnapshot {
            timestamp: DateTime::from_timestamp(window_ts).unwrap(),
            price: d("50000"),
            source: "chainlink".to_string(),
        },
    );

    let mut market = make_market_info("btc-market-1", later(900));
    market.start_date = DateTime::from_timestamp(window_ts);

    let actions = strategy.on_market_discovered(&market, &data.external_prices, now(), &Vec::new());
    assert_eq!(actions.len(), 1);
    assert!(matches!(actions[0], Action::SubscribeMarket(_)));

    let mwr = strategy.active_markets.get("btc-market-1").unwrap();
    // Should use the boundary snapshot, not the current price
    assert_eq!(mwr.reference_price, d("50000"));
    assert_eq!(mwr.reference_quality, ReferenceQuality::Exact);
}

// --- config sub-struct tests ---

#[test]
fn config_default_sub_configs() {
    let config = ArbitrageConfig::default();

    // Fee defaults
    assert_eq!(config.fee.taker_fee_rate, d("0.0315"));

    // Spike defaults
    assert_eq!(config.spike.threshold_pct, d("0.005"));
    assert_eq!(config.spike.window_secs, 10);
    assert_eq!(config.spike.history_size, 50);

    // Order defaults
    assert!(config.order.hybrid_mode);
    assert_eq!(config.order.limit_offset, d("0.01"));
    assert_eq!(config.order.max_age_secs, 30);

    // Sizing defaults
    assert_eq!(config.sizing.base_size, d("10"));
    assert_eq!(config.sizing.kelly_multiplier, d("0.25"));
    assert_eq!(config.sizing.min_size, d("2"));
    assert_eq!(config.sizing.max_size, d("25"));
    assert!(config.sizing.use_kelly);

    // StopLoss defaults
    assert_eq!(config.stop_loss.reversal_pct, d("0.005"));
    assert_eq!(config.stop_loss.min_drop, d("0.05"));
    assert!(config.stop_loss.trailing_enabled);
    assert_eq!(config.stop_loss.trailing_distance, d("0.03"));
    assert!(config.stop_loss.time_decay);

    // Correlation defaults
    assert!(!config.correlation.enabled);
    assert_eq!(config.correlation.min_spike_pct, d("0.01"));
    assert_eq!(config.correlation.pairs.len(), 2);

    // Performance defaults
    assert_eq!(config.performance.min_trades, 20);
    assert_eq!(config.performance.min_win_rate, d("0.40"));
    assert_eq!(config.performance.window_size, 50);
    assert!(!config.performance.auto_disable);
}

// --- taker_fee tests ---

#[test]
fn taker_fee_at_50_50() {
    // At p=0.50: fee = 2 * 0.50 * 0.50 * 0.0315 = 0.01575
    let fee = taker_fee(d("0.50"), d("0.0315"));
    assert_eq!(fee, d("0.015750"));
}

#[test]
fn taker_fee_at_80() {
    // At p=0.80: fee = 2 * 0.80 * 0.20 * 0.0315 = 0.01008
    let fee = taker_fee(d("0.80"), d("0.0315"));
    assert_eq!(fee, d("0.010080"));
}

#[test]
fn taker_fee_at_95() {
    // At p=0.95: fee = 2 * 0.95 * 0.05 * 0.0315 = 0.0029925
    let fee = taker_fee(d("0.95"), d("0.0315"));
    assert_eq!(fee, d("0.0029925"));
}

// --- net_profit_margin tests ---

#[test]
fn net_profit_margin_taker() {
    // At p=0.80: gross = 0.20, fee = 0.01008, net = 0.18992
    let net = net_profit_margin(d("0.80"), d("0.0315"), false);
    let expected = d("0.20").minus(d("0.010080")).unwrap();
    assert_eq!(net, expected);
}

#[test]
fn net_profit_margin_maker() {
    // Maker fee = $0, so net = gross = 1 - price
    let net = net_profit_margin(d("0.80"), d("0.0315"), true);
    assert_eq!(net, d("0.20"));
}

// --- fee-aware filtering tests ---

#[test]
fn confirmed_mode_filtered_at_50_with_small_margin() {
    // A high fee rate eats up a small gross margin.
    let mwr = make_mwr(d("50000"), 200); // late window
    let mut data = make_data();

    data.orderbooks.insert(
        "token_up".to_string(),
        make_orderbook("token_up", d("0.95"), d("0.97")),
    );
    data.orderbooks.insert(
        "token_down".to_string(),
        make_orderbook("token_down", d("0.01"), d("0.03")),
    );

    // Use a high fee rate that makes the 3¢ gross margin negative
    let mut config = ArbitrageConfig::default();
    config.use_chainlink = false;
    config.fee.taker_fee_rate = d("0.60"); // Extreme fee rate for testing
    config.late_window_margin = d("0.02");
    let strategy = CryptoArbitrageStrategy::new(config);

    // Large move for high confidence (52000 vs 50000 = 4%)
    let opps = strategy
        .evaluate_opportunity(&mwr, d("52000"), &data.orderbooks, now())
        .unwrap();
    // At ask=0.97, gross=0.03, fee=2*0.97*0.03*0.60=0.03492
    // net = 0.03 - 0.03492 = -0.00492 < late_window_margin(0.02) → filtered
    assert!(
        opps.is_empty(),
        "Should filter Confirmed mode when net margin < 0 after fee"
    );
}

#[test]
fn tail_end_at_95_still_passes_with_fees() {
    // At p=0.95: fee ≈ 0.003, margin = 0.05, net ≈ 0.047 > 0
    let mwr = make_mwr(d("50000"), 60); // < 120s
    let mut data = make_data();

    data.orderbooks.insert(
        "token_up".to_string(),
        make_orderbook("token_up", d("0.93"), d("0.95")),
    );
    data.orderbooks.insert(
        "token_down".to_string(),
        make_orderbook("token_down", d("0.03"), d("0.05")),
    );

    let strategy = CryptoArbitrageStrategy::new(ArbitrageConfig::default());
    let opps = strategy
        .evaluate_opportunity(&mwr, d("51000"), &data.orderbooks, now())
        .unwrap();
    assert!(!opps.is_empty(), "Tail-End at 0.95 should still pass");
    let opp = &opps[0];
    assert_eq!(opp.mode, ArbitrageMode::TailEnd);
    // Verify fee is small (~0.3¢)
    assert!(d("0.005").gt(opp.estimated_fee));
    // Net margin should be ~4.7¢
    assert!(opp.net_margin.gt(d("0.04")));
}

#[test]
fn two_sided_filtered_when_fees_exceed_margin() {
    // Both asks near 0.49 → combined 0.98 just under threshold
    // but fees on both legs eat up the tiny 2¢ margin
    let mwr = make_mwr(d("50000"), 400);
    let mut data = make_data();

    // 0.48 + 0.49 = 0.97, gross margin = 0.03
    // fee_up = 2*0.48*0.52*0.0315 = 0.01572
    // fee_down = 2*0.49*0.51*0.0315 = 0.01575
    // total_fee = 0.03147, net = 0.03 - 0.03147 = -0.00147 → filtered
    data.orderbooks.insert(
        "token_up".to_string(),
        make_orderbook("token_up", d("0.46"), d("0.48")),
    );
    data.orderbooks.insert(
        "token_down".to_string(),
        make_orderbook("token_down", d("0.47"), d("0.49")),
    );

    let strategy = CryptoArbitrageStrategy::new(ArbitrageConfig::default());
    let opps = strategy
        .evaluate_opportunity(&mwr, d("50100"), &data.orderbooks, now())
        .unwrap();
    assert!(
        opps.is_empty(),
        "Two-Sided should be filtered when fees exceed margin"
    );
}
