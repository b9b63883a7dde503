//! The dashboards.
use polyrust_strategies::config::ArbitrageConfig;
use polyrust_strategies::dashboard::skips::render_skip_stats;
use polyrust_strategies::dashboard::view::{
    close_event, render_performance, render_reference_line, try_emit_dashboard_updates,
    CryptoArbDashboard,
};
use polyrust_strategies::decimal::Decimal;
use polyrust_strategies::domain::market::{MarketWithReference, ReferenceQuality};
use polyrust_strategies::domain::position::{ArbitrageMode, ArbitragePosition};
use polyrust_strategies::domain::telemetry::ModeStats;
use polyrust_strategies::exchange::{Action, MarketInfo, OrderType, OutcomeSide, Signal, TokenIds};
use polyrust_strategies::runtime::{CryptoArbRuntime, PriceEntry};
use polyrust_strategies::table::Table;
use polyrust_strategies::time::DateTime;

fn d(text: &str) -> Decimal {
    let (sign, rest) = match text.strip_prefix('-') {
        Some(rest) => (-1, rest),
        None => (1, text),
    };
    let (whole, fraction) = rest.split_once('.').unwrap_or((rest, ""));
    let digits: i128 = format!("{whole}{fraction}").parse().unwrap();
    Decimal::from_parts(sign * digits, fraction.len() as u32).unwrap()
}

const START: i64 = 1_706_000_400;

fn at(secs: i64) -> DateTime {
    DateTime::from_timestamp(START + secs).unwrap()
}

fn with_reference(id: &str, coin: &str, end: i64) -> MarketWithReference {
    MarketWithReference {
        market: MarketInfo {
            id: id.to_string(),
            slug: "updown".to_string(),
            question: "Up or Down?".to_string(),
            start_date: Some(at(0)),
            end_date: at(end),
            token_ids: TokenIds { outcome_a: format!("{id}-up"), outcome_b: format!("{id}-down") },
            accepting_orders: true,
            neg_risk: false,
            min_order_size: d("5"),
            tick_size: d("0.01"),
            fee_rate_bps: 315,
        },
        reference_price: d("50000"),
        reference_quality: ReferenceQuality::Exact,
        discovery_time: at(0),
        coin: coin.to_string(),
        window_ts: START,
    }
}

fn state() -> CryptoArbRuntime {
    let mut rt = CryptoArbRuntime::new(ArbitrageConfig::default(), at(0));
    rt.active_markets.insert("m1".to_string(), with_reference("m1", "SOL", 900));
    rt.active_markets.insert("m2".to_string(), with_reference("m2", "BTC", 600));
    rt.price_history.insert(
        "BTC".to_string(),
        vec![PriceEntry {
            received_at: at(1),
            price: d("49500"),
            source: "binance".to_string(),
            source_ts: at(1),
        }],
    );
    rt.cached_asks.insert("m2-up".to_string(), d("0.80"));
    rt
}

#[test]
fn the_dashboard_orders_its_tables() {
    let rt = state();
    let view = CryptoArbDashboard::new(&rt);
    assert_eq!(view.view_name(), "crypto-arb");
    let html = view.render_view(at(500), &Table::new()).unwrap();
    let references = html.find("Reference Prices").unwrap();
    let markets = html.find("Active Markets (2)").unwrap();
    let positions = html.find("Open Positions (0)").unwrap();
    assert!(references < markets && markets < positions);
    // By coin in the first table, by end in the second.
    let first = &html[references..markets];
    assert!(first.find("BTC").unwrap() < first.find("SOL").unwrap());
    let second = &html[markets..positions];
    assert!(second.find("BTC Up/Down").unwrap() < second.find("SOL Up/Down").unwrap());
    assert!(second.contains("1m 40s"));
    assert!(second.contains("0.80") && second.contains("0.010") && second.contains("0.190"));
    assert!(first.contains("=$50,000.00") && first.contains("-1.00%") && first.contains("DOWN"));
    assert!(html.contains("Disabled"));
    assert!(html.contains("120s&rarr;0.90, 90s&rarr;0.92, 60s&rarr;0.93, 30s&rarr;0.95"));
}

#[test]
fn a_reference_line_without_a_price_shows_dashes() {
    let line = render_reference_line("<B>", "~", d("1"), None).unwrap();
    assert_eq!(
        line,
        "<tr><td class=\"py-1\">&lt;B&gt;</td><td class=\"text-right py-1\">~$1.00</td><td class=\"text-right py-1\">-</td><td class=\"text-right py-1 \">-</td><td class=\"text-right py-1\" style=\"font-weight:700\">-</td></tr>"
    );
}

#[test]
fn positions_show_their_open_result() {
    let mut rt = state();
    rt.positions.push(ArbitragePosition {
        market_id: "m2".to_string(),
        token_id: "m2-up".to_string(),
        side: OutcomeSide::Up,
        entry_price: d("0.70"),
        size: d("10"),
        reference_price: d("50000"),
        coin: "BTC".to_string(),
        order_id: None,
        entry_time: at(0),
        kelly_fraction: Some(d("0.125")),
        peak_bid: d("0.70"),
        peak_price: d("0.70"),
        estimated_fee: d("0"),
        entry_market_price: d("0.70"),
        tick_size: d("0.01"),
        fee_rate_bps: 0,
        entry_order_type: OrderType::Fok,
        entry_fee_per_share: d("0.01"),
        recovery_cost: d("0"),
        mode: ArbitrageMode::TailEnd,
    });
    let html = CryptoArbDashboard::new(&rt).render_view(at(500), &Table::new()).unwrap();
    assert!(html.contains("Open Positions (1)"));
    // (0.80 - 0.70) * 10 - 0.01 * 10
    assert!(html.contains("<span class=\"bp-profit\">$0.90</span>"));
    assert!(html.contains("<td>Up</td>") && html.contains("12.5%"));
}

#[test]
fn performance_shows_rates_and_sums() {
    let mut s = ModeStats::new(10);
    assert!(render_performance(&s).unwrap().contains("No trades recorded yet"));
    s.record(d("1.5")).unwrap();
    s.record(d("-2")).unwrap();
    let html = render_performance(&s).unwrap();
    assert!(html.contains("50.0%") && html.contains("$-0.50") && html.contains("$-0.2500"));
    assert!(html.contains("bp-loss"));
}

#[test]
fn skips_are_grouped_and_explained() {
    let mut stats: Table<u64> = Table::new();
    let mut widths: Table<String> = Table::new();
    assert!(render_skip_stats(&stats, &widths).contains("No skips in current period"));
    stats.insert("spread".to_string(), 5);
    stats.insert("no_ask".to_string(), 10);
    widths.insert("spread".to_string(), "50.0".to_string());
    widths.insert("no_ask".to_string(), "100.0".to_string());
    let html = render_skip_stats(&stats, &widths);
    assert!(html.contains("Market Quality") && !html.contains("Rate Limiting"));
    assert!(html.find("No liquidity").unwrap() < html.find("Wide spread").unwrap());
    assert!(html.contains("width:50.0%") && html.contains("width:100.0%"));
}

#[test]
fn updates_are_five_seconds_apart() {
    let mut rt = state();
    let widths: Table<String> = Table::new();
    let first = try_emit_dashboard_updates(&mut rt, 1_000, at(1), &widths);
    match &first[0] {
        Action::EmitSignal(Signal::DashboardUpdate { view_name, rendered_html }) => {
            assert_eq!(view_name, "crypto-arb");
            assert!(rendered_html.contains("Active Markets (2)"));
        }
        _ => panic!("a dashboard update"),
    }
    assert!(try_emit_dashboard_updates(&mut rt, 5_999, at(2), &widths).is_empty());
    assert_eq!(try_emit_dashboard_updates(&mut rt, 6_000, at(3), &widths).len(), 1);
}

#[test]
fn an_event_closes_with_a_view_and_a_report() {
    let mut rt = state();
    rt.record_tailend_skip("spread");
    let (actions, report) = close_event(&mut rt, 1_000, at(1), &Table::new());
    assert_eq!(actions.len(), 1);
    let report = report.unwrap();
    assert_eq!(report.active_markets, 2);
    assert_eq!(report.skips, Some("spread=1".to_string()));
    let (actions, report) = close_event(&mut rt, 2_000, at(2), &Table::new());
    assert!(actions.is_empty() && report.is_none());
}
