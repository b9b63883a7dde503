//! Prices, markets, orders, positions and lifecycles.
use polyrust_strategies::config::{ArbitrageConfig, ReferenceQualityLevel, StopLossConfig, TailEndConfig, UnifiedPriceConfig};
use polyrust_strategies::decimal::{Decimal, Overflow};
use polyrust_strategies::domain::lifecycle::{
    compute_reversal, compute_unified_sl_price, crash_at, decayed_distance, is_dual,
    price_after_reversal, trailing_distance_at, PositionLifecycle,
    PositionLifecycleState, StopLossTriggerKind, TriggerEvalContext, UnifiedSlPrice,
};
use polyrust_strategies::domain::market::{BoundarySnapshot, MarketWithReference, ReferenceQuality};
use polyrust_strategies::domain::position::{
    compute_exit_clip, ArbitrageMode, ArbitragePosition, OpenLimitOrder,
};
use polyrust_strategies::domain::telemetry::{ModeStats, SpikeEvent, StopLossRejectionKind};
use polyrust_strategies::exchange::{
    Action, ChainQuote, ChainlinkPrice, MarketInfo, OrderType, OrderbookLevel, OrderbookSnapshot,
    OutcomeSide, SourcedPrice, TokenIds,
};
use polyrust_strategies::runtime::{distinct_coins, CryptoArbRuntime, PriceEntry};
use polyrust_strategies::services::feed::warm_up_windows;
use polyrust_strategies::services::observability::{is_due, OrderCounts};
use polyrust_strategies::services::order::is_permanently_gone;
use polyrust_strategies::table::Table;
use polyrust_strategies::time::DateTime;

fn d(text: &str) -> Decimal {
    let (sign, rest) = match text.strip_prefix('-') {
        Some(rest) => (-1, rest),
        None => (1, text),
    };
    let (whole, fraction) = rest.split_once('.').unwrap_or((rest, ""));
    let digits: i128 = format!("{whole}{fraction}").parse().unwrap();
    Decimal::from_parts(sign * digits, fraction.len() as u32).unwrap()
}

const START: i64 = 1_706_000_400;

fn at(secs: i64) -> DateTime {
    DateTime::from_timestamp(START + secs).unwrap()
}

fn runtime() -> CryptoArbRuntime {
    CryptoArbRuntime::new(ArbitrageConfig::default(), at(0))
}

fn entry(price: &str, source: &str, secs: i64) -> PriceEntry {
    PriceEntry {
        received_at: at(secs),
        price: d(price),
        source: source.to_string(),
        source_ts: at(secs),
    }
}

fn history(rt: &mut CryptoArbRuntime, entries: Vec<PriceEntry>) {
    rt.price_history.insert("BTC".to_string(), entries);
}

fn market(id: &str, start: Option<i64>, end: i64) -> MarketInfo {
    MarketInfo {
        id: id.to_string(),
        slug: "btc-updown-15m".to_string(),
        question: "Bitcoin Up or Down?".to_string(),
        start_date: start.map(at),
        end_date: at(end),
        token_ids: TokenIds { outcome_a: format!("{id}-up"), outcome_b: format!("{id}-down") },
        accepting_orders: true,
        neg_risk: false,
        min_order_size: d("5"),
        tick_size: d("0.01"),
        fee_rate_bps: 315,
    }
}

fn with_reference(id: &str, quality: ReferenceQuality) -> MarketWithReference {
    MarketWithReference {
        market: market(id, Some(0), 900),
        reference_price: d("50000"),
        reference_quality: quality,
        discovery_time: at(0),
        coin: "BTC".to_string(),
        window_ts: START,
    }
}

fn position(token: &str, size: &str) -> ArbitragePosition {
    ArbitragePosition {
        market_id: "m1".to_string(),
        token_id: token.to_string(),
        side: OutcomeSide::Up,
        entry_price: d("0.90"),
        size: d(size),
        reference_price: d("50000"),
        coin: "BTC".to_string(),
        order_id: None,
        entry_time: at(0),
        kelly_fraction: None,
        peak_bid: d("0.90"),
        peak_price: d("0.90"),
        estimated_fee: d("0"),
        entry_market_price: d("0.90"),
        tick_size: d("0.01"),
        fee_rate_bps: 315,
        entry_order_type: OrderType::Gtc,
        entry_fee_per_share: d("0"),
        recovery_cost: d("0"),
        mode: ArbitrageMode::TailEnd,
    }
}

#[test]
fn histories_keep_the_latest_prices() {
    let mut rt = runtime();
    let none: Vec<ChainQuote> = Vec::new();
    let btc = "BTC".to_string();
    let feed = "binance".to_string();
    for i in 0..250 {
        let price = Decimal::new(50_000 + i, 0);
        let _ = rt.record_price(&btc, price, &feed, at(10 + i), at(10 + i), &none);
    }
    let list = rt.price_history.get("BTC").unwrap();
    assert_eq!(list.len(), 200);
    assert_eq!(list[0].price, d("50050"));
    assert_eq!(rt.get_latest_price("BTC"), Some(d("50249")));
    // A repeated price renews the latest one.
    let _ = rt.record_price(&btc, d("50249"), &feed, at(400), at(400), &none);
    let list = rt.price_history.get("BTC").unwrap();
    assert_eq!(list.len(), 200);
    assert_eq!(list[199].received_at.timestamp(), START + 400);
    assert_eq!(rt.get_latest_price("ETH"), None);
}

#[test]
fn boundary_prices_prefer_the_oracle() {
    let mut rt = runtime();
    let none: Vec<ChainQuote> = Vec::new();
    let btc = "BTC".to_string();
    let _ = rt.record_price(&btc, d("50000"), &"binance".to_string(), at(0), at(0), &none);
    let _ = rt.record_price(&btc, d("50001"), &"ChainLink".to_string(), at(1), at(1), &none);
    let _ = rt.record_price(&btc, d("50002"), &"binance".to_string(), at(2), at(2), &none);
    let _ = rt.record_price(&btc, d("50003"), &"chainlink".to_string(), at(3), at(3), &none);
    let key = format!("BTC-{START}");
    assert_eq!(rt.boundary_prices.get(&key).unwrap().price, d("50001"));
}

fn boundary(price: &str, secs: i64) -> BoundarySnapshot {
    BoundarySnapshot { timestamp: at(secs), price: d(price), source: "chainlink".to_string() }
}

#[test]
fn references_come_from_the_best_source() {
    let mut rt = runtime();
    assert_eq!(
        rt.find_best_reference("BTC", START, d("1"), None),
        (d("1"), ReferenceQuality::Current)
    );
    history(&mut rt, vec![entry("2", "binance", 29), entry("3", "binance", 35)]);
    assert_eq!(
        rt.find_best_reference("BTC", START, d("1"), None),
        (d("2"), ReferenceQuality::Historical(29))
    );
    let near = ChainlinkPrice { price: d("4"), timestamp: (START + 30) as u64 };
    assert_eq!(
        rt.find_best_reference("BTC", START, d("1"), Some(near)),
        (d("4"), ReferenceQuality::OnChain(30))
    );
    let far = ChainlinkPrice { price: d("4"), timestamp: (START + 31) as u64 };
    assert_eq!(
        rt.find_best_reference("BTC", START, d("1"), Some(far)),
        (d("2"), ReferenceQuality::Historical(29))
    );
    rt.boundary_prices.insert(format!("BTC-{START}"), boundary("5", 2));
    assert_eq!(
        rt.find_best_reference("BTC", START, d("1"), Some(near)),
        (d("5"), ReferenceQuality::Exact)
    );
}

#[test]
fn futures_count_as_settling_feeds() {
    let mut rt = runtime();
    history(&mut rt, vec![entry("2", "coinbase", 3), entry("3", "Binance-Futures", 6)]);
    assert_eq!(
        rt.find_best_reference("BTC", START, d("1"), None),
        (d("3"), ReferenceQuality::Historical(6))
    );
}

#[test]
fn better_references_upgrade_markets() {
    let mut rt = runtime();
    rt.active_markets.insert("m1".to_string(), with_reference("m1", ReferenceQuality::Current));
    history(&mut rt, vec![entry("49900", "binance", 4)]);
    rt.try_upgrade_quality("BTC");
    let m = rt.active_markets.get("m1").unwrap();
    assert_eq!(m.reference_quality, ReferenceQuality::Historical(4));
    assert_eq!(m.reference_price, d("49900"));
    rt.boundary_prices.insert(format!("BTC-{START}"), boundary("49950", 1));
    rt.try_upgrade_quality("BTC");
    let m = rt.active_markets.get("m1").unwrap();
    assert_eq!(m.reference_quality, ReferenceQuality::Exact);
    assert_eq!(m.reference_price, d("49950"));
}

#[test]
fn quality_levels_are_ordered() {
    assert!(ReferenceQuality::Exact.meets_threshold(ReferenceQualityLevel::OnChain));
    assert!(ReferenceQuality::OnChain(3).meets_threshold(ReferenceQualityLevel::OnChain));
    assert!(!ReferenceQuality::Historical(3).meets_threshold(ReferenceQualityLevel::OnChain));
    assert!(!ReferenceQuality::Current.meets_threshold(ReferenceQualityLevel::Historical));
    assert_eq!(ReferenceQuality::Current.quality_factor(), d("0.70"));
}

fn sourced(list: &[(&str, &str, i64)]) -> Table<SourcedPrice> {
    let mut t: Table<SourcedPrice> = Table::new();
    for (source, price, secs) in list {
        t.insert(source.to_string(), SourcedPrice { price: d(price), timestamp: at(*secs) });
    }
    t
}

#[test]
fn composites_weigh_fresh_sources() {
    let rt = runtime();
    let s = sourced(&[("binance-futures", "100", 9), ("binance-spot", "102", 8), ("coinbase", "101", 1)]);
    let c = rt.composite_fair_price(Some(&s), at(10), 5, 2, d("200")).unwrap().unwrap();
    // (100 * 0.5 + 102 * 0.3) / 0.8; the third source is too old.
    assert_eq!(c.price, d("100.75"));
    assert_eq!(c.sources_used, 2);
    assert_eq!(c.max_lag_ms, 2000);
    let tight = rt.composite_fair_price(Some(&s), at(10), 5, 2, d("50")).unwrap();
    assert!(tight.is_none());
    assert!(rt.composite_fair_price(None, at(10), 5, 2, d("50")).unwrap().is_none());
}

#[test]
fn a_composite_needs_a_quorum() {
    let rt = runtime();
    let s = sourced(&[("binance-futures", "100", 9), ("coinbase", "100", 9)]);
    let c = rt.composite_fair_price(Some(&s), at(10), 5, 2, d("50")).unwrap().unwrap();
    assert_eq!((c.price, c.sources_used), (d("100"), 2));
    let s = sourced(&[("binance-futures", "100", 1), ("coinbase", "100", 9)]);
    assert!(rt.composite_fair_price(Some(&s), at(10), 5, 2, d("50")).unwrap().is_none());
    assert!(rt.composite_fair_price(None, at(10), 5, 0, d("50")).unwrap().is_none());
}

#[test]
fn without_a_quorum_a_stop_loss_goes_by_the_best_single_source() {
    let mut rt = runtime();
    let s = sourced(&[("chainlink", "99", 9), ("coinbase", "101", 1)]);
    rt.update_sl_composite_cache("BTC", Some(&s), at(10)).unwrap();
    let c = rt.get_sl_composite("BTC", 3000, at(10)).unwrap();
    assert_eq!((c.price, c.sources_used), (d("99"), 1));
}

#[test]
fn composites_are_cached_for_stop_losses() {
    let mut rt = runtime();
    let s = sourced(&[("binance-futures", "100", 9), ("binance-spot", "100", 9)]);
    rt.update_sl_composite_cache("BTC", Some(&s), at(10)).unwrap();
    assert_eq!(rt.get_sl_composite("BTC", 3000, at(13)).unwrap().price, d("100"));
    assert!(rt.get_sl_composite("BTC", 3000, at(14)).is_none());
    assert!(rt.get_sl_composite("ETH", 3000, at(10)).is_none());
}

#[test]
fn sustained_moves_need_ticks_on_one_side() {
    let mut rt = runtime();
    history(&mut rt, vec![entry("49990", "b", 0), entry("50010", "b", 5), entry("50020", "b", 9)]);
    let up = OutcomeSide::Up;
    assert_eq!(rt.check_sustained_direction("BTC", d("50000"), up, 5, 2, at(10)), Ok(true));
    assert_eq!(rt.check_sustained_direction("BTC", d("50000"), up, 5, 3, at(10)), Ok(false));
    assert_eq!(rt.check_sustained_direction("BTC", d("50000"), up, 10, 2, at(10)), Ok(false));
    assert_eq!(rt.check_sustained_direction("BTC", d("50000"), OutcomeSide::Down, 5, 2, at(10)), Ok(false));
    assert_eq!(rt.check_sustained_direction("ETH", d("50000"), up, 5, 0, at(10)), Ok(false));
}

#[test]
fn volatility_is_the_largest_wick() {
    let mut rt = runtime();
    history(&mut rt, vec![entry("49000", "b", 5), entry("50500", "b", 9)]);
    assert_eq!(rt.max_recent_volatility("BTC", d("50000"), 10, at(10)), Ok(Some(d("0.02"))));
    assert_eq!(rt.max_recent_volatility("BTC", d("50000"), 3, at(10)), Ok(Some(d("0.01"))));
    assert_eq!(rt.max_recent_volatility("BTC", d("50000"), 3, at(20)), Ok(None));
    assert_eq!(rt.max_recent_volatility("BTC", d("0"), 10, at(10)), Ok(None));
}

#[test]
fn spikes_are_measured_over_the_window() {
    let mut rt = runtime();
    history(&mut rt, vec![entry("50000", "b", 0), entry("50100", "b", 5)]);
    assert_eq!(rt.detect_spike("BTC", d("50250"), at(10)), Ok(Some(d("0.005"))));
    assert_eq!(rt.detect_spike("BTC", d("49750"), at(10)), Ok(Some(d("-0.005"))));
    assert_eq!(rt.detect_spike("BTC", d("50249"), at(10)), Ok(None));
    assert_eq!(rt.detect_spike("BTC", d("51000"), at(9)), Ok(None));
    assert_eq!(rt.detect_spike("ETH", d("51000"), at(9)), Ok(None));
}

#[test]
fn spikes_are_kept_up_to_a_number() {
    let mut rt = runtime();
    rt.config.spike.history_size = 2;
    for i in 0..3 {
        rt.record_spike(SpikeEvent {
            coin: "BTC".to_string(),
            timestamp: at(i),
            change_pct: d("0.01"),
            from_price: d("50000"),
            to_price: d("50500"),
            acted: false,
        });
    }
    assert_eq!(rt.spike_events.len(), 2);
    assert_eq!(rt.spike_events[0].timestamp.timestamp(), START + 1);
}

#[test]
fn feeds_are_fresh_when_all_were_seen_lately() {
    let mut rt = runtime();
    rt.feed_last_seen.insert("a".to_string(), at(5));
    rt.feed_last_seen.insert("b".to_string(), at(9));
    let both = vec!["a".to_string(), "b".to_string()];
    assert!(rt.are_feeds_fresh(&both, 5, at(10)));
    assert!(!rt.are_feeds_fresh(&both, 4, at(10)));
    assert!(!rt.are_feeds_fresh(&vec!["c".to_string()], 5, at(10)));
}

#[test]
fn a_fresh_start_asks_for_five_windows() {
    let list = warm_up_windows(at(100));
    assert_eq!(list, vec![START, START - 900, START - 1800, START - 2700, START - 3600]);
    let mut rt = runtime();
    let answer = ChainlinkPrice { price: d("50000"), timestamp: (START - 900) as u64 };
    rt.warm_up(&"BTC".to_string(), answer, at(100));
    let list = rt.price_history.get("BTC").unwrap();
    assert_eq!(list[0].received_at.timestamp(), START - 900);
    assert_eq!(list[0].source, "chainlink");
    let odd = ChainlinkPrice { price: d("50001"), timestamp: u64::MAX / 2 };
    rt.warm_up(&"BTC".to_string(), odd, at(100));
    assert_eq!(rt.price_history.get("BTC").unwrap()[1].received_at.timestamp(), START + 100);
}

#[test]
fn settlement_prefers_the_chain() {
    let mut rt = runtime();
    history(&mut rt, vec![entry("50100", "chainlink", 899), entry("50200", "binance", 901)]);
    let chain = ChainlinkPrice { price: d("50300"), timestamp: (START + 890) as u64 };
    assert_eq!(rt.get_settlement_price("BTC", at(900), Some(chain)), Some(d("50300")));
    assert_eq!(rt.get_settlement_price("BTC", at(900), None), Some(d("50100")));
}

#[test]
fn discovery_is_idempotent_and_feeds_the_nearest_end() {
    let mut rt = runtime();
    let none: Vec<ChainQuote> = Vec::new();
    let m = market("m1", Some(0), 900);
    assert_eq!(rt.on_market_discovered(&m, Some(d("50000")), at(10), &none).len(), 1);
    assert_eq!(rt.on_market_discovered(&m, Some(d("60000")), at(20), &none).len(), 0);
    assert_eq!(rt.active_markets.get("m1").unwrap().reference_price, d("50000"));
    let late = market("m2", Some(900), 1800);
    assert_eq!(rt.on_market_discovered(&late, Some(d("50000")), at(20), &none).len(), 1);
    assert_eq!(rt.coin_nearest_expiry.get("BTC").unwrap().timestamp(), START + 900);
    let mut other = market("m3", Some(0), 900);
    other.question = "Will it rain?".to_string();
    assert_eq!(rt.on_market_discovered(&other, Some(d("1")), at(20), &none).len(), 0);
    assert!(rt.is_tracked_coin("BTC") && !rt.is_tracked_coin("DOGE"));
    assert_eq!(rt.extract_coin("ripple up or down"), Some("XRP".to_string()));
}

#[test]
fn a_market_waits_for_a_price_once() {
    let mut rt = runtime();
    let none: Vec<ChainQuote> = Vec::new();
    let m = market("m1", Some(0), 900);
    assert_eq!(rt.on_market_discovered(&m, None, at(10), &none).len(), 0);
    assert_eq!(rt.on_market_discovered(&m, None, at(11), &none).len(), 0);
    assert_eq!(rt.pending_discovery.get("BTC").unwrap().len(), 1);
    let other = market("m2", Some(900), 1800);
    rt.on_market_discovered(&other, None, at(12), &none);
    assert_eq!(rt.pending_discovery.get("BTC").unwrap().len(), 2);
}

#[test]
fn the_chain_answers_for_the_window_of_a_market() {
    let mut rt = runtime();
    let quotes = vec![
        ChainQuote { window_ts: START - 900, price: ChainlinkPrice { price: d("1"), timestamp: 0 } },
        ChainQuote {
            window_ts: START,
            price: ChainlinkPrice { price: d("50007"), timestamp: START as u64 },
        },
    ];
    rt.on_market_discovered(&market("m1", Some(0), 900), Some(d("50000")), at(10), &quotes);
    let m = rt.active_markets.get("m1").unwrap();
    assert_eq!(m.reference_price, d("50007"));
    assert_eq!(m.reference_quality, ReferenceQuality::OnChain(0));
}

#[test]
fn expiry_takes_everything_of_the_market() {
    let mut rt = runtime();
    rt.active_markets.insert("m1".to_string(), with_reference("m1", ReferenceQuality::Exact));
    rt.record_position(position("m1-up", "10"));
    let mut other = position("m2-up", "10");
    other.market_id = "m2".to_string();
    rt.record_position(other);
    rt.open_limit_orders.insert("o1".to_string(), limit_order("o1"));
    let chain = ChainlinkPrice { price: d("49000"), timestamp: (START + 900) as u64 };
    let actions = rt.on_market_expired(&"m1".to_string(), Some(chain)).unwrap();
    assert!(actions.iter().any(|a| matches!(a, Action::CancelOrder(id) if id == "o1")));
    assert!(actions.iter().any(|a| matches!(a, Action::UnsubscribeMarket(id) if id == "m1")));
    assert_eq!(rt.positions.len(), 1);
    assert_eq!(rt.open_limit_orders.len(), 0);
    assert_eq!(rt.active_markets.len(), 0);
    // The bet was lost: 0.90 * 10.
    let (_, won, lost, total) = rt.stats.counts();
    assert_eq!((won, lost, total), (0, 1, d("-9")));
}

fn limit_order(id: &str) -> OpenLimitOrder {
    OpenLimitOrder {
        order_id: id.to_string(),
        market_id: "m1".to_string(),
        token_id: "m1-up".to_string(),
        side: OutcomeSide::Up,
        price: d("0.90"),
        size: d("10"),
        reference_price: d("50000"),
        coin: "BTC".to_string(),
        placed_at: at(0),
        kelly_fraction: None,
        estimated_fee: d("0"),
        tick_size: d("0.01"),
        fee_rate_bps: 315,
        cancel_pending: false,
        reconcile_miss_count: 0,
        mode: ArbitrageMode::TailEnd,
    }
}

#[test]
fn reservations_take_slots_until_released() {
    let mut rt = runtime();
    rt.config.max_positions = 2;
    assert!(rt.can_open_position());
    assert!(rt.try_reserve_market(&"m1".to_string(), 2));
    assert!(!rt.try_reserve_market(&"m2".to_string(), 1));
    assert!(!rt.try_reserve_market(&"m1".to_string(), 1));
    assert!(!rt.can_open_position());
    assert_eq!(rt.slots_in_use(), Some(2));
    rt.release_reservation("m1");
    assert_eq!(rt.slots_in_use(), Some(0));
    assert!(rt.try_reserve_market(&"m2".to_string(), 1));
    rt.consume_reservation("m2");
    assert_eq!(rt.slots_in_use(), Some(0));
    assert!(!rt.try_reserve_market(&"m3".to_string(), 3));
}

#[test]
fn exposure_is_a_position_an_order_or_a_reservation() {
    let mut rt = runtime();
    assert!(!rt.has_market_exposure("m1"));
    rt.record_position(position("m1-up", "10"));
    assert!(rt.has_market_exposure("m1") && rt.has_position_in("m1"));
    let mut rt = runtime();
    rt.open_limit_orders.insert("o1".to_string(), limit_order("o1"));
    assert!(rt.has_market_exposure("m1") && !rt.has_position_in("m1"));
    let mut rt = runtime();
    assert!(rt.try_reserve_market(&"m1".to_string(), 1));
    assert!(rt.has_market_exposure("m1"));
}

#[test]
fn positions_are_reduced_or_removed() {
    let mut rt = runtime();
    rt.record_position(position("t", "10"));
    let (was, closed) = rt.reduce_or_remove_position_by_token("t", d("4")).unwrap().unwrap();
    assert_eq!((was.size, closed), (d("10"), false));
    assert_eq!(rt.positions[0].size, d("6"));
    let (was, closed) = rt.reduce_or_remove_position_by_token("t", d("6")).unwrap().unwrap();
    assert_eq!((was.size, closed), (d("6"), true));
    assert_eq!(rt.positions.len(), 0);
    assert!(!rt.position_lifecycle.contains_key("t"));
    assert!(rt.reduce_or_remove_position_by_token("t", d("1")).unwrap().is_none());
    assert!(rt.remove_position_by_token("t").is_none());
}

#[test]
fn peaks_only_rise() {
    let mut rt = runtime();
    rt.record_position(position("t", "10"));
    rt.update_peak_bid("t", d("0.95"));
    assert_eq!(rt.positions[0].peak_bid, d("0.95"));
    rt.update_peak_bid("t", d("0.92"));
    rt.update_peak_bid("other", d("0.99"));
    assert_eq!(rt.positions[0].peak_bid, d("0.95"));
}

#[test]
fn each_token_has_an_opposite() {
    let mut rt = runtime();
    rt.active_markets.insert("m1".to_string(), with_reference("m1", ReferenceQuality::Exact));
    assert_eq!(rt.get_opposite_token("m1", "m1-up"), Some("m1-down".to_string()));
    assert_eq!(rt.get_opposite_token("m1", "m1-down"), Some("m1-up".to_string()));
    assert_eq!(rt.get_opposite_token("m2", "m1-up"), None);
    assert!(rt.validate_min_order_size("m1", d("5")));
    assert!(!rt.validate_min_order_size("m1", d("4.99")));
}

#[test]
fn poor_modes_are_disabled_after_enough_trades() {
    let mut rt = runtime();
    rt.config.performance.auto_disable = true;
    rt.config.performance.min_trades = 2;
    rt.record_trade_pnl(d("-1")).unwrap();
    assert_eq!(rt.is_auto_disabled(), Ok(false));
    rt.record_trade_pnl(d("-1")).unwrap();
    assert_eq!(rt.is_auto_disabled(), Ok(true));
    rt.config.performance.auto_disable = false;
    assert_eq!(rt.is_auto_disabled(), Ok(false));
}

#[test]
fn results_are_counted_and_averaged() {
    let mut s = ModeStats::new(2);
    assert_eq!(s.win_rate(), Ok(d("0")));
    assert_eq!(s.avg_pnl(), Ok(d("0")));
    s.record(d("3")).unwrap();
    s.record(d("0")).unwrap();
    s.record(d("-1")).unwrap();
    assert_eq!(s.counts(), (3, 2, 1, d("2")));
    assert_eq!(s.total_trades(), 3);
    let rate = s.win_rate().unwrap();
    assert!(rate.gt(d("0.66")) && d("0.67").gt(rate));
    assert_eq!(s.avg_pnl(), Ok(d("-0.5")));
    s.adjust_pnl(d("1")).unwrap();
    assert_eq!(s.counts().3, d("3"));
    let most = Decimal::from_parts(79_228_162_514_264_337_593_543_950_335, 0).unwrap();
    assert_eq!(s.record(most), Err(Overflow));
}

#[test]
fn figures_add_up_over_results_and_adjustments() {
    let mut s = ModeStats::new(3);
    for pnl in ["1", "-2", "0", "4", "-1"] {
        s.record(d(pnl)).unwrap();
        s.adjust_pnl(d("0.5")).unwrap();
    }
    assert_eq!(s.counts(), (5, 3, 2, d("4.5")));
    // The last three: 0, 4 and -1.
    assert_eq!(s.avg_pnl(), Ok(d("1")));
}

#[test]
fn rejections_are_classified() {
    let kind = StopLossRejectionKind::classify;
    assert!(matches!(kind("Order couldn't be FULLY FILLED"), StopLossRejectionKind::Liquidity));
    assert!(matches!(kind("no match found"), StopLossRejectionKind::Liquidity));
    assert!(matches!(kind("Not enough balance"), StopLossRejectionKind::BalanceAllowance));
    assert!(matches!(kind("allowance too low"), StopLossRejectionKind::BalanceAllowance));
    assert!(matches!(kind("Invalid amounts"), StopLossRejectionKind::InvalidSize));
    assert!(matches!(kind("must be higher than 0"), StopLossRejectionKind::InvalidSize));
    assert!(matches!(kind("timeout"), StopLossRejectionKind::Transient));
    let fast = [1u64];
    let slow = [5u64];
    assert_eq!(StopLossRejectionKind::Liquidity.cooldown_schedule(&fast, &slow), &[1u64]);
    assert_eq!(StopLossRejectionKind::Transient.cooldown_schedule(&fast, &slow), &[5u64]);
}

#[test]
fn some_reasons_mean_that_an_order_is_gone() {
    assert!(is_permanently_gone("order already matched"));
    assert!(is_permanently_gone("already canceled"));
    assert!(!is_permanently_gone("rate limited"));
}

#[test]
fn exit_clips_respect_depth_and_dust() {
    assert_eq!(compute_exit_clip(d("20"), d("100"), d("0.8"), d("5")), Ok(d("20")));
    assert_eq!(compute_exit_clip(d("20"), d("10"), d("0.8"), d("5")), Ok(d("8")));
    assert_eq!(compute_exit_clip(d("20"), d("5"), d("0.8"), d("5")), Ok(d("0")));
}

#[test]
fn depth_sums_the_levels_within_a_price() {
    let level = |p: &str, s: &str| OrderbookLevel { price: d(p), size: d(s) };
    let book = OrderbookSnapshot {
        token_id: "t".to_string(),
        bids: vec![level("0.80", "1"), level("0.79", "2"), level("0.70", "4")],
        asks: vec![level("0.82", "8"), level("0.90", "16")],
        timestamp: at(0),
    };
    assert_eq!(book.bid_depth_down_to(d("0.79")), Ok(d("3")));
    assert_eq!(book.ask_depth_up_to(d("0.85")), Ok(d("8")));
    assert_eq!(book.best_bid(), Some(d("0.80")));
    assert_eq!(book.best_ask(), Some(d("0.82")));
}

#[test]
fn lifecycles_follow_the_machine() {
    let mut lc = PositionLifecycle::new();
    let exit = || PositionLifecycleState::ExitExecuting {
        order_id: "x".to_string(),
        order_type: OrderType::Fak,
        exit_price: d("0.80"),
        submitted_at: at(0),
        hedge_order_id: None,
        hedge_price: None,
    };
    let hedged = || PositionLifecycleState::Hedged { hedge_cost: d("1.50"), hedged_at: at(0) };
    assert_eq!(
        lc.transition(hedged(), "early", at(0)),
        Err("Invalid transition: Healthy -> Hedged (reason: early)".to_string())
    );
    assert_eq!(lc.transition(exit(), "crash", at(1)), Ok(()));
    assert_eq!(lc.state.to_string(), "ExitExecuting(Fak@0.80)");
    assert_eq!(lc.transition_log[0].1, "Healthy -> ExitExecuting: crash");
    assert_eq!(lc.transition(hedged(), "filled", at(2)), Ok(()));
    assert_eq!(lc.state.to_string(), "Hedged(cost=1.50)");
    assert!(!lc.state.can_transition_to(&PositionLifecycleState::Healthy));
    let mut lc = PositionLifecycle::new();
    for i in 0..60 {
        lc.transition(exit(), "again", at(i)).unwrap();
    }
    assert_eq!(lc.transition_log.len(), 50);
    assert_eq!(lc.transition_log[0].0.timestamp(), START + 10);
    assert!(lc.transition(exit(), "again", at(60)).is_ok());
    assert!(lc.transition(hedged(), "filled", at(61)).is_ok());
    assert!(lc.transition(exit(), "late", at(62)).is_err());
    assert_eq!(lc.transition_log.len(), 50);
    assert_eq!(lc.transition_log[49].0.timestamp(), START + 61);
    assert_eq!(lc.transition_log[49].1, "ExitExecuting -> Hedged: filled");
}

fn blend(price: &str, implied: Option<&str>) -> UnifiedSlPrice {
    UnifiedSlPrice {
        price: d(price),
        raw_bid: d(price),
        implied_price: implied.map(d),
        degraded: implied.is_none(),
    }
}

fn trigger_context(price: &str, implied: Option<&str>) -> TriggerEvalContext {
    TriggerEvalContext {
        entry_price: d("0.90"),
        peak_price: d("0.90"),
        side: OutcomeSide::Up,
        reference_price: d("50000"),
        tick_size: d("0.01"),
        entry_time: at(0),
        unified_price: blend(price, implied),
        book_age_ms: 100,
        external_fresh: true,
        composite_ok: true,
        time_remaining: 450,
        now: at(60),
    }
}

#[test]
fn triggers_by_level() {
    let sl = StopLossConfig::default();
    let te = TailEndConfig::default();
    let mut lc = PositionLifecycle::new();
    // Level 1: a drop of 0.08.
    match lc.evaluate_triggers(&trigger_context("0.82", Some("0.90")), &sl, &te).unwrap() {
        Some(StopLossTriggerKind::HardCrash { bid_drop, reversal_pct }) => {
            assert_eq!((bid_drop, reversal_pct), (d("0.08"), d("0")));
        }
        _ => panic!("a hard crash fires"),
    }
    // Level 2: a reversal of 0.005 and a drop of 0.05, twice.
    let ctx = trigger_context("0.85", Some("0.85"));
    assert!(lc.evaluate_triggers(&ctx, &sl, &te).unwrap().is_none());
    assert_eq!(lc.dual_trigger_ticks, 1);
    match lc.evaluate_triggers(&ctx, &sl, &te).unwrap() {
        Some(k) => {
            assert_eq!(k.short_name(), "dual_trigger");
            assert_eq!(k.to_string(), "DualTrigger(ticks=2)");
        }
        None => panic!("the dual trigger fires"),
    }
    // Level 3: armed at 0.92, a fall of 0.02, half of the window left.
    let ctx = TriggerEvalContext { peak_price: d("0.92"), ..trigger_context("0.90", Some("0.90")) };
    match lc.evaluate_triggers(&ctx, &sl, &te).unwrap() {
        Some(StopLossTriggerKind::TrailingStop { effective_distance, .. }) => {
            assert_eq!(effective_distance, d("0.015"));
        }
        _ => panic!("the trailing stop fires"),
    }
    // Level 4: a drop of 0.05 soon after entry.
    let ctx = TriggerEvalContext { now: at(5), composite_ok: false, ..trigger_context("0.85", None) };
    match lc.evaluate_triggers(&ctx, &sl, &te).unwrap() {
        Some(k) => assert_eq!(k.to_string(), "PostEntryExit(bid_drop=0.05)"),
        None => panic!("the post-entry exit fires"),
    }
    let ctx = TriggerEvalContext { now: at(10), ..ctx };
    assert!(lc.evaluate_triggers(&ctx, &sl, &te).unwrap().is_none());
}

#[test]
fn good_ticks_in_a_row_fire_the_dual_trigger() {
    let sl = StopLossConfig {
        dual_trigger_consecutive_ticks: 4,
        trailing_enabled: false,
        ..StopLossConfig::default()
    };
    let te = TailEndConfig::default();
    let mut lc = PositionLifecycle::new();
    let good = trigger_context("0.85", Some("0.85"));
    let bad = trigger_context("0.90", Some("0.85"));
    for _ in 0..3 {
        assert!(lc.evaluate_triggers(&good, &sl, &te).unwrap().is_none());
    }
    assert!(lc.evaluate_triggers(&bad, &sl, &te).unwrap().is_none());
    assert_eq!(lc.dual_trigger_ticks, 0);
    for _ in 0..3 {
        assert!(lc.evaluate_triggers(&good, &sl, &te).unwrap().is_none());
    }
    match lc.evaluate_triggers(&good, &sl, &te).unwrap() {
        Some(StopLossTriggerKind::DualTrigger { consecutive_ticks }) => {
            assert_eq!(consecutive_ticks, 4);
        }
        _ => panic!("the dual trigger fires"),
    }
}

#[test]
fn levels_for_a_given_reversal() {
    let sl = StopLossConfig {
        hard_drop_abs: d("0.08"),
        hard_reversal_pct: d("0.006"),
        reversal_pct: d("0.003"),
        min_drop: d("0.05"),
        ..StopLossConfig::default()
    };
    assert!(crash_at(d("0.079"), d("0.0059"), &sl).is_none());
    match crash_at(d("0"), d("0.006"), &sl) {
        Some(StopLossTriggerKind::HardCrash { bid_drop, reversal_pct }) => {
            assert_eq!((bid_drop, reversal_pct), (d("0"), d("0.006")));
        }
        _ => panic!("a reversal alone is a crash"),
    }
    assert!(crash_at(d("0.08"), d("0"), &sl).is_some());
    assert!(is_dual(d("0.05"), d("0.003"), &sl));
    assert!(!is_dual(d("0.049"), d("0.003"), &sl));
    assert!(!is_dual(d("0.05"), d("0.0029"), &sl));
    assert_eq!(price_after_reversal(d("0.90"), d("0.01"), d("5")), Ok(d("0.85")));
    assert_eq!(price_after_reversal(d("0.90"), d("-0.01"), d("5")), Ok(d("0.90")));
    assert_eq!(price_after_reversal(d("0.90"), d("0.5"), d("5")), Ok(d("0")));
    assert_eq!(decayed_distance(d("0.5"), &sl), Ok(d("0.015")));
    assert_eq!(decayed_distance(d("-1"), &sl), Ok(d("0.01")));
}

#[test]
fn a_stale_book_fires_no_trigger() {
    let sl = StopLossConfig::default();
    let te = TailEndConfig::default();
    let mut lc = PositionLifecycle::new();
    let ctx = TriggerEvalContext {
        book_age_ms: sl.sl_max_book_age_ms + 1,
        now: at(1),
        ..trigger_context("0.10", Some("0.10"))
    };
    assert!(lc.evaluate_triggers(&ctx, &sl, &te).unwrap().is_none());
}

#[test]
fn a_trailing_stop_near_the_cap_cannot_arm() {
    let sl = StopLossConfig::default();
    let te = TailEndConfig::default();
    let mut lc = PositionLifecycle::new();
    let ctx = TriggerEvalContext { entry_price: d("0.985"), ..trigger_context("0.985", None) };
    assert!(lc.evaluate_triggers(&ctx, &sl, &te).unwrap().is_none());
    assert!(lc.trailing_unarmable);
}

#[test]
fn trailing_distances_tighten_with_time() {
    let sl = StopLossConfig::default();
    assert_eq!(trailing_distance_at(900, &sl), Ok(d("0.03")));
    assert_eq!(trailing_distance_at(450, &sl), Ok(d("0.015")));
    assert_eq!(trailing_distance_at(1, &sl), Ok(d("0.01")));
    assert_eq!(trailing_distance_at(2000, &sl), Ok(d("0.03")));
    let flat = StopLossConfig { time_decay: false, ..StopLossConfig::default() };
    assert_eq!(trailing_distance_at(1, &flat), Ok(d("0.03")));
}

#[test]
fn stop_loss_prices_blend_the_bid_and_the_feed() {
    let config = UnifiedPriceConfig { external_weight: d("0.25"), sensitivity: d("10") };
    let up = OutcomeSide::Up;
    // Reversal 0.01, implied 0.90 - 0.10, blend 0.75 * 0.88 + 0.25 * 0.80.
    let u = compute_unified_sl_price(d("0.88"), d("0.90"), up, d("50000"), Some(d("49500")), &config).unwrap();
    assert_eq!((u.price, u.implied_price), (d("0.86"), Some(d("0.80"))));
    assert!(!u.degraded);
    let u = compute_unified_sl_price(d("0.88"), d("0.90"), up, d("50000"), None, &config).unwrap();
    assert_eq!(u.price, d("0.88"));
    assert!(u.degraded);
    let zero = UnifiedPriceConfig { external_weight: d("0"), ..config };
    let u = compute_unified_sl_price(d("0.88"), d("0.90"), up, d("50000"), Some(d("1")), &zero).unwrap();
    assert_eq!(u.price, d("0.88"));
    assert!(!u.degraded && u.implied_price.is_none());
}

#[test]
fn reversals_are_seen_from_the_side_held() {
    assert_eq!(compute_reversal(OutcomeSide::Up, d("50000"), d("49500")), Ok(d("0.01")));
    assert_eq!(compute_reversal(OutcomeSide::Down, d("50000"), d("49500")), Ok(d("-0.01")));
    assert_eq!(compute_reversal(OutcomeSide::No, d("0"), d("49500")), Ok(d("0")));
}

#[test]
fn coins_are_listed_once() {
    let list = vec!["BTC".to_string(), "ETH".to_string(), "BTC".to_string()];
    assert_eq!(distinct_coins(&list), vec!["BTC".to_string(), "ETH".to_string()]);
}

#[test]
fn status_reports_start_the_counters_over() {
    let mut rt = runtime();
    rt.record_tailend_skip("no_ask");
    rt.record_tailend_skip("no_ask");
    rt.record_signal_veto("stale");
    rt.feed_last_seen.insert("binance".to_string(), at(3));
    let s = rt.maybe_log_status_summary(1000, at(5)).unwrap();
    assert_eq!(s.skips, Some("no_ask=2".to_string()));
    assert_eq!(s.vetoes, Some("stale=1".to_string()));
    assert_eq!(s.feed_lags, Some("binance=2000ms".to_string()));
    assert_eq!(s.orders, None);
    assert_eq!(rt.tailend_skip_stats.len(), 0);
    assert!(rt.maybe_log_status_summary(60_999, at(6)).is_none());
    rt.order_telemetry.total_orders = 7;
    rt.order_telemetry.total_fills = 4;
    rt.order_telemetry.total_cancels = 2;
    rt.order_telemetry.post_only_rejects = 1;
    let s = rt.maybe_log_status_summary(61_000, at(7)).unwrap();
    assert_eq!(s.skips, None);
    assert_eq!(
        s.orders,
        Some(OrderCounts { total_orders: 7, total_fills: 4, total_cancels: 2, post_only_rejects: 1 })
    );
    assert!(is_due(Some(5), 5, 0) && !is_due(Some(5), 5, 1) && is_due(Some(6), 5, 0) && !is_due(Some(6), 5, 1));
}
