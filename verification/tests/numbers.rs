//! Decimals, instants, texts and tables.
use polyrust_strategies::config::{ArbitrageConfig, EnvVars, Overrides, SizingConfig, SizingError};
use polyrust_strategies::dashboard::view::{
    change_pct, format_change, format_kelly, format_margins, format_time, render_performance,
};
use polyrust_strategies::decimal::{Decimal, Overflow};
use polyrust_strategies::domain::market::{confidence_at_distance, confidence_score, distance_pct};
use polyrust_strategies::domain::telemetry::ModeStats;
use polyrust_strategies::fee_math::{
    checked_kelly_position_size, checked_net_profit_margin, checked_taker_fee, escape_html,
    fmt_market_price, fmt_usd, kelly_position_size, parse_slug_timestamp, size_at_fraction,
    size_at_payout,
};
use polyrust_strategies::services::market::{coin_from_upper, has_whole_word};
use polyrust_strategies::services::pricing::{make_boundary_key, window_floor};
use polyrust_strategies::table::Table;
use polyrust_strategies::time::DateTime;

fn d(text: &str) -> Decimal {
    let (sign, rest) = match text.strip_prefix('-') {
        Some(rest) => (-1, rest),
        None => (1, text),
    };
    let (whole, fraction) = rest.split_once('.').unwrap_or((rest, ""));
    let digits: i128 = format!("{whole}{fraction}").parse().unwrap();
    Decimal::from_parts(sign * digits, fraction.len() as u32).unwrap()
}

fn parts(x: Decimal) -> (i128, u32) {
    (x.mantissa(), x.scale())
}

#[test]
fn sums_are_exact_at_the_larger_scale() {
    assert_eq!(parts(d("0.1").plus(d("0.25")).unwrap()), (35, 2));
    assert_eq!(parts(d("1").minus(d("0.95")).unwrap()), (5, 2));
    assert_eq!(parts(d("0.95").minus(d("1")).unwrap()), (-5, 2));
    assert_eq!(parts(d("1").minus(d("1.00")).unwrap()), (0, 2));
    assert_eq!(parts(d("0.00").plus(d("0.0")).unwrap()), (0, 1));
    assert_eq!(parts(d("0.00").minus(d("0.0")).unwrap()), (0, 1));
    assert_eq!(
        parts(d("12345678901234567.89").minus(d("12345678901234567.8901")).unwrap()),
        (-1, 4)
    );
    assert_eq!(
        parts(d("12345678901234567890123456.78").minus(d("0.001")).unwrap()),
        (12345678901234567890123456779, 3)
    );
    assert_eq!(
        parts(d("12345678901234567890123456.78").minus(d("12345678901234567890123456.780")).unwrap()),
        (0, 3)
    );
}

#[test]
fn a_zero_operand_gives_back_the_other() {
    assert_eq!(parts(d("0.000").plus(d("1.5")).unwrap()), (15, 1));
    assert_eq!(parts(d("1.5").plus(d("0.000")).unwrap()), (15, 1));
    assert_eq!(parts(d("0.000").minus(d("1.5")).unwrap()), (-15, 1));
    assert_eq!(parts(d("0.000").times(d("1.5")).unwrap()), (0, 0));
    assert_eq!(parts(d("0.000").over(d("1.5")).unwrap()), (0, 0));
}

#[test]
fn products_are_exact_at_the_sum_of_the_scales() {
    assert_eq!(parts(d("0.5").times(d("0.25")).unwrap()), (125, 3));
    assert_eq!(parts(d("-2").times(d("0.40")).unwrap()), (-80, 2));
    assert_eq!(
        parts(d("123456789012.34").times(d("12345678901.2")).unwrap()),
        (1524157875319545924440808, 3)
    );
    assert_eq!(parts(d("0.00000000000002").times(d("0.00000000000005")).unwrap()), (10, 28));
}

#[test]
fn quotients_are_exact_where_the_mantissas_divide() {
    assert_eq!(parts(d("6").over(d("3")).unwrap()), (2, 0));
    assert_eq!(parts(d("0.60").over(d("-0.3")).unwrap()), (-20, 1));
    assert_eq!(parts(d("10").over(d("0.40")).unwrap()), (25, 0));
    assert_eq!(parts(d("6").over(d("0.3")).unwrap()), (20, 0));
    assert_eq!(parts(d("500").over(d("50000")).unwrap()), (1, 2));
    assert_eq!(parts(d("-500").over(d("50000")).unwrap()), (-1, 2));
    assert_eq!(parts(d("1").over(d("0.50")).unwrap()), (2, 0));
    assert_eq!(parts(d("1").over(d("8")).unwrap()), (125, 3));
    assert_eq!(parts(d("1").over(d("10")).unwrap()), (10, 2));
    assert_eq!(parts(d("3").over(d("1.5")).unwrap()), (20, 1));
    assert_eq!(parts(d("450").over(d("900")).unwrap()), (50, 2));
    assert_eq!(parts(d("0.0000000000000000001").over(d("4")).unwrap()), (25, 21));
    assert_eq!(parts(d("18446744073709551615.5").over(d("4")).unwrap()), (4611686018427387903875, 3));
    assert_eq!(parts(d("1").over(d("4294967295")).unwrap()).1, 28);
    assert_eq!(parts(d("1").over(d("3")).unwrap()), (3333333333333333333333333333, 28));
}

#[test]
fn overflow_is_reported() {
    let most = Decimal::from_parts(79_228_162_514_264_337_593_543_950_335, 0).unwrap();
    assert_eq!(most.plus(Decimal::one()), Err(Overflow));
    assert_eq!(most.neg().minus(Decimal::one()), Err(Overflow));
    assert_eq!(most.times(d("2")), Err(Overflow));
    assert_eq!(most.over(d("0.1")), Err(Overflow));
    assert_eq!(Decimal::one().over(Decimal::zero()), Err(Overflow));
    assert_eq!(Decimal::from_parts(79_228_162_514_264_337_593_543_950_336, 0), None);
    assert_eq!(Decimal::from_parts(1, 29), None);
}

#[test]
fn numbers_compare_whatever_their_scales() {
    assert_eq!(d("0.5"), d("0.50"));
    assert!(d("0.5").gt(d("0.499")));
    assert!(!d("0.5").gt(d("0.500")));
    assert!(d("-1").le(d("0.0")));
    assert!(d("0").ge(d("0.00")));
    assert_eq!(parts(d("0.5").max(d("0.50"))), (5, 1));
    assert_eq!(parts(d("0.5").min(d("0.40"))), (40, 2));
    assert_eq!(d("-3.5").abs(), d("3.5"));
}

#[test]
fn prices_are_written_in_dollars() {
    assert_eq!(fmt_usd(d("88959.374")), "$88,959.37");
    assert_eq!(fmt_usd(d("1234567.895")), "$1,234,567.90");
    assert_eq!(fmt_usd(d("0.125")), "$0.12");
    assert_eq!(fmt_usd(d("0.135")), "$0.14");
    assert_eq!(fmt_usd(d("999")), "$999.00");
    assert_eq!(fmt_usd(d("-1234.5")), "$-1,234.50");
    assert_eq!(fmt_market_price(d("0.5")), "0.50");
    assert_eq!(fmt_market_price(d("0.985")), "0.98");
}

#[test]
fn long_texts_are_refused() {
    let most = Decimal::from_parts(79_228_162_514_264_337_593_543_950_335, 0).unwrap();
    assert_eq!(fmt_usd(most), "$79,228,162,514,264,337,593,543,950,335.00");
    // A fee of 35 * 10^27 has no room for three places.
    let price = Decimal::from_parts(-70_000_000_000_000, 0).unwrap();
    let rate = Decimal::from_parts(-4, 0).unwrap();
    assert!(checked_taker_fee(price, rate).is_ok());
    assert!(matches!(format_margins(Some(price), None, rate), Err(Overflow)));
    let mut s = ModeStats::new(10);
    s.record(Decimal::from_parts(999_999_999_999_999_999_999_999_999, 0).unwrap()).unwrap();
    assert!(render_performance(&s).is_ok());
    let mut s = ModeStats::new(10);
    s.record(Decimal::from_parts(1_000_000_000_000_000_000_000_000_000, 0).unwrap()).unwrap();
    assert!(matches!(render_performance(&s), Err(Overflow)));
}

#[test]
fn texts_are_cut_off_and_filled_up() {
    assert_eq!(format_change(d("0.129")), "+0.12%");
    assert_eq!(format_change(d("-0.001")), "-0.00%");
    assert_eq!(format_change(d("7")), "+7.00%");
    assert_eq!(fmt_market_price(d("0.000")), "0.00");
    assert_eq!(SizingError::MinSize { got: d("-0.050") }.message(), "min_size must be positive, got -0.050");
}

#[test]
fn changes_and_times_are_written_with_sign_and_unit() {
    assert_eq!(format_change(d("1")), "+1.00%");
    assert_eq!(format_change(d("-0.5")), "-0.50%");
    assert_eq!(change_pct(d("50000"), d("50500")), Ok(d("1")));
    assert_eq!(change_pct(d("0"), d("50500")), Ok(d("0")));
    assert_eq!(format_time(61), "1m 1s");
    assert_eq!(format_time(60), "60s");
    assert_eq!(format_kelly(None).unwrap(), "fixed");
    assert_eq!(format_kelly(Some(d("0.125"))).unwrap(), "12.5%");
    let (fee, net) = format_margins(Some(d("0.80")), Some(d("0.90")), d("0.0315")).unwrap();
    assert_eq!((fee.as_str(), net.as_str()), ("0.010", "0.190"));
    let (fee, net) = format_margins(None, None, d("0.0315")).unwrap();
    assert_eq!((fee.as_str(), net.as_str()), ("-", "-"));
}

#[test]
fn fees_vanish_at_the_extremes_and_are_symmetric() {
    let rate = d("0.0315");
    assert_eq!(checked_taker_fee(d("0"), rate), Ok(d("0")));
    assert_eq!(checked_taker_fee(d("1"), rate), Ok(d("0")));
    assert_eq!(checked_taker_fee(d("0.20"), rate), checked_taker_fee(d("0.80"), rate));
    assert_eq!(checked_taker_fee(d("0.50"), rate), Ok(d("0.01575")));
    assert!(d("0.01575").gt(checked_taker_fee(d("0.49"), rate).unwrap()));
    assert_eq!(checked_taker_fee(d("0.50"), d("0")), Ok(d("0")));
    assert_eq!(parts(checked_taker_fee(d("0.80"), rate).unwrap()), (1008000, 8));
}

#[test]
fn fees_overflow_on_huge_prices() {
    let most = Decimal::from_parts(79_228_162_514_264_337_593_543_950_335, 0).unwrap();
    assert_eq!(checked_taker_fee(most, d("0.0315")), Err(Overflow));
    assert_eq!(checked_net_profit_margin(most, d("0.0315"), false), Err(Overflow));
}

#[test]
fn a_maker_keeps_the_gross_margin() {
    assert_eq!(checked_net_profit_margin(d("0.95"), d("0.0315"), true), Ok(d("0.05")));
    assert_eq!(checked_net_profit_margin(d("0.95"), d("0.0315"), false), Ok(d("0.0470075")));
    let maker = checked_net_profit_margin(d("0.90"), d("0.0315"), true).unwrap();
    let taker = checked_net_profit_margin(d("0.90"), d("0.0315"), false).unwrap();
    assert_eq!(maker.minus(taker), checked_taker_fee(d("0.90"), d("0.0315")));
}

fn sizing() -> SizingConfig {
    SizingConfig {
        base_size: d("10"),
        kelly_multiplier: d("0.25"),
        min_size: d("2"),
        max_size: d("25"),
        use_kelly: true,
        ..SizingConfig::default()
    }
}

#[test]
fn kelly_sizes_scale_with_the_edge_between_the_limits() {
    // payout 1, kelly 0.8: 10 * 0.8 * 0.25 = 2
    assert_eq!(kelly_position_size(d("0.9"), d("0.5"), &sizing()), d("2"));
    // 100 * 0.8 * 0.25 = 20
    let large = SizingConfig { base_size: d("100"), ..sizing() };
    assert_eq!(kelly_position_size(d("0.9"), d("0.5"), &large), d("20"));
    let huge = SizingConfig { base_size: d("1000"), ..sizing() };
    assert_eq!(kelly_position_size(d("0.9"), d("0.5"), &huge), d("25"));
    let tiny = SizingConfig { base_size: d("1"), ..sizing() };
    assert_eq!(kelly_position_size(d("0.9"), d("0.5"), &tiny), d("2"));
}

#[test]
fn a_given_payout_gives_the_size() {
    let large = SizingConfig { base_size: d("100"), ..sizing() };
    // (0.8 * 0.5 - 0.2) / 0.5 = 0.4: 100 * 0.4 * 0.25
    assert_eq!(size_at_payout(d("0.8"), d("0.5"), &large), Ok(d("10")));
    assert_eq!(size_at_payout(d("0.5"), d("0.5"), &large), Ok(d("0")));
    assert_eq!(size_at_payout(d("1"), d("0.0009"), &large), Ok(d("0")));
    assert_eq!(size_at_fraction(d("0.4"), &large), Ok(d("10")));
    assert_eq!(size_at_fraction(d("0.01"), &large), Ok(d("2")));
    assert_eq!(size_at_fraction(d("4"), &large), Ok(d("25")));
    assert_eq!(size_at_fraction(d("-0.4"), &large), Ok(d("0")));
}

#[test]
fn kelly_sizes_are_zero_without_an_edge() {
    assert_eq!(kelly_position_size(d("0.5"), d("0.5"), &sizing()), d("0"));
    assert_eq!(kelly_position_size(d("0.3"), d("0.5"), &sizing()), d("0"));
    assert_eq!(kelly_position_size(d("0.9"), d("0"), &sizing()), d("0"));
    assert_eq!(kelly_position_size(d("0.9"), d("1"), &sizing()), d("0"));
    assert_eq!(kelly_position_size(d("0.9"), d("0.9995"), &sizing()), d("0"));
    let most = Decimal::from_parts(79_228_162_514_264_337_593_543_950_335, 0).unwrap();
    assert_eq!(checked_kelly_position_size(most, d("0.1"), &sizing()), Err(Overflow));
}

#[test]
fn sizing_limits_are_validated() {
    assert_eq!(sizing().validate(), Ok(()));
    assert_eq!(
        SizingConfig { base_size: d("0"), ..sizing() }.validate(),
        Err(SizingError::BaseSize { got: d("0") })
    );
    assert_eq!(
        SizingConfig { min_size: d("-1"), ..sizing() }.validate(),
        Err(SizingError::MinSize { got: d("-1") })
    );
    assert_eq!(
        SizingConfig { min_size: d("30"), ..sizing() }.validate(),
        Err(SizingError::MaxBelowMin { max_size: d("25"), min_size: d("30") })
    );
    assert_eq!(
        SizingConfig { kelly_multiplier: d("0.0"), ..sizing() }.validate(),
        Err(SizingError::KellyMultiplier { got: d("0") })
    );
}

#[test]
fn sizing_faults_are_explained() {
    assert_eq!(
        SizingError::BaseSize { got: d("-1.50") }.message(),
        "base_size must be positive, got -1.50"
    );
    assert_eq!(SizingError::MinSize { got: d("0") }.message(), "min_size must be positive, got 0");
    assert_eq!(
        SizingError::MaxBelowMin { max_size: d("25"), min_size: d("30") }.message(),
        "max_size (25) must be >= min_size (30)"
    );
    assert_eq!(
        SizingError::KellyMultiplier { got: d("0.0") }.message(),
        "kelly_multiplier must be positive, got 0.0"
    );
}

#[test]
fn slugs_end_in_a_recent_timestamp() {
    assert_eq!(parse_slug_timestamp("1706000000"), Some(1706000000));
    assert_eq!(parse_slug_timestamp("btc-1577836800"), None);
    assert_eq!(parse_slug_timestamp("btc-1577836801"), Some(1577836801));
    assert_eq!(parse_slug_timestamp("btc-99999999999999999999"), None);
    assert_eq!(parse_slug_timestamp("btc-"), None);
    assert_eq!(parse_slug_timestamp("btc-+1706000000"), Some(1706000000));
    assert_eq!(parse_slug_timestamp(""), None);
}

#[test]
fn markup_is_escaped() {
    assert_eq!(escape_html("<a href=\"x\">B&B's</a>"), "&lt;a href=&quot;x&quot;&gt;B&amp;B&#x27;s&lt;/a&gt;");
    assert_eq!(escape_html("BTC"), "BTC");
    let parts = escape_html("a<b") + &escape_html("&c");
    assert_eq!(escape_html("a<b&c"), parts);
}

#[test]
fn confidence_by_regime() {
    // Late window: 0.001 * 66 * (1 + 0.05 * 0.5) = 0.06765
    let late = confidence_score(d("50000"), d("1"), d("50050"), d("0.55"), 60).unwrap();
    assert_eq!(late, d("0.06765"));
    // Early window, discounted: 0.01 * 50 * 0.85
    let early = confidence_score(d("50000"), d("0.85"), d("49500"), d("0.55"), 301).unwrap();
    assert_eq!(early, d("0.425"));
    // The late window begins at 300 seconds: 0.01 * 66.
    assert_eq!(confidence_score(d("50000"), d("1"), d("50500"), d("0.50"), 300), Ok(d("0.66")));
    assert_eq!(confidence_score(d("50000"), d("1"), d("50500"), d("0.50"), 301), Ok(d("0.50")));
    assert_eq!(confidence_score(d("0"), d("1"), d("50050"), d("0.55"), 600), Ok(d("0")));
    assert_eq!(confidence_score(d("50000"), d("0.95"), d("99000"), d("0.95"), 119), Ok(d("0.95")));
    assert_eq!(distance_pct(d("50000"), d("49500")), Ok(d("0.01")));
}

#[test]
fn confidence_scales_with_the_quality() {
    for secs in [60, 300, 301] {
        let full = confidence_score(d("50000"), d("1"), d("50500"), d("0.60"), secs).unwrap();
        for factor in ["1", "0.98", "0.95", "0.85", "0.70"] {
            let c = confidence_score(d("50000"), d(factor), d("50500"), d("0.60"), secs).unwrap();
            assert_eq!(Ok(c), full.times(d(factor)));
            assert!(d(factor).ge(c));
        }
    }
}

#[test]
fn a_given_distance_gives_the_confidence() {
    // 0.01 * 66 * (1 + 0.10 * 0.5) * 0.5
    assert_eq!(confidence_at_distance(d("0.01"), d("0.5"), d("0.60"), 200), Ok(d("0.3465")));
    assert_eq!(confidence_at_distance(d("0.01"), d("1"), d("0.60"), 600), Ok(d("0.5")));
    assert_eq!(confidence_at_distance(d("0.04"), d("1"), d("0.60"), 600), Ok(d("1")));
    assert_eq!(confidence_at_distance(d("0"), d("0.95"), d("0.90"), 119), Ok(d("0.95")));
    let most = Decimal::from_parts(79_228_162_514_264_337_593_543_950_335, 0).unwrap();
    assert_eq!(confidence_at_distance(most, d("1"), d("0.60"), 600), Err(Overflow));
}

#[test]
fn confidence_is_never_negative_for_a_price() {
    for p in [
        "0",
        "0.0000000000000000000000000001",
        "0.1234567890123456789012345678",
        "0.4999999999999999999999999999",
        "0.9999999999999999999999999999",
        "1.0000000000000000000000000000",
    ] {
        for secs in [60, 200, 600] {
            let c = confidence_score(d("50000"), d("0.95"), d("50500"), d(p), secs).unwrap();
            assert!(c.ge(d("0")) && d("0.95").ge(c));
        }
    }
    assert_eq!(confidence_score(d("0"), d("0.95"), d("50500"), d("0.4999999999999999999999999999"), 200), Ok(d("0")));
}

#[test]
fn words_stand_alone() {
    assert!(has_whole_word("WILL SOL GO UP?", "SOL"));
    assert!(has_whole_word("SOL", "SOL"));
    assert!(!has_whole_word("RESOLUTION", "SOL"));
    assert!(!has_whole_word("SOLVE IT", "SOL"));
    assert!(has_whole_word("SOLVE SOL", "SOL"));
    assert_eq!(coin_from_upper("RIPPLE UP OR DOWN", &Vec::new()), Some("XRP".to_string()));
    assert_eq!(coin_from_upper("DOGE UP OR DOWN", &vec!["DOGE".to_string()]), Some("DOGE".to_string()));
    assert_eq!(coin_from_upper("DOGE UP OR DOWN", &vec!["BTC".to_string()]), None);
}

#[test]
fn windows_start_at_quarter_hours() {
    assert_eq!(window_floor(1_706_000_400), 1_706_000_400);
    assert_eq!(window_floor(1_706_001_299), 1_706_000_400);
    assert_eq!(window_floor(-1), 0);
    assert_eq!(window_floor(i64::MIN), -9_223_372_036_854_775_800);
    assert_eq!(make_boundary_key("BTC", 1_706_000_400), "BTC-1706000400");
    assert_eq!(make_boundary_key("BTC", -900), "BTC--900");
}

#[test]
fn instants_differ_in_whole_seconds() {
    let t = DateTime::from_nanos(1_500_000_000).unwrap();
    let u = DateTime::from_timestamp(3).unwrap();
    assert_eq!(u.secs_since(t), 1);
    assert_eq!(t.secs_since(u), -1);
    assert_eq!(u.millis_since(t), 1500);
    assert_eq!(t.timestamp(), 1);
    assert_eq!(t.timestamp_millis(), 1500);
    assert!(t.before(u));
    assert_eq!(t.plus_secs(2).unwrap().nanos(), 3_500_000_000);
    assert_eq!(t.minus_secs(1).unwrap().nanos(), 500_000_000);
    assert_eq!(DateTime::from_timestamp(i64::MAX), None);
}

#[test]
fn tables_hold_one_value_per_key() {
    let mut t: Table<Decimal> = Table::new();
    t.insert("a".to_string(), d("1"));
    t.insert("b".to_string(), d("2"));
    t.insert("a".to_string(), d("3"));
    assert_eq!(t.len(), 2);
    assert_eq!(t.get("a"), Some(&d("3")));
    assert_eq!(t.key_at(0), "a");
    assert_eq!(t.remove("a"), Some(d("3")));
    assert_eq!(t.remove("a"), None);
    assert!(!t.contains_key("a"));
    assert_eq!(t.len(), 1);
}

fn unset() -> EnvVars {
    EnvVars {
        min_profit_margin: None,
        min_sustained_secs: None,
        min_sustained_ticks: None,
        max_volatility: None,
        max_spread_bps: None,
        stale_ob_secs: None,
    }
}

#[test]
fn environment_variables_override_their_settings() {
    let vars = EnvVars {
        min_profit_margin: Some("0.07".to_string()),
        min_sustained_secs: Some("9".to_string()),
        min_sustained_ticks: Some("+4".to_string()),
        max_volatility: Some("0.02".to_string()),
        max_spread_bps: Some("150".to_string()),
        stale_ob_secs: Some("-3".to_string()),
    };
    let config = ArbitrageConfig::default().with_env_overrides(&vars);
    assert_eq!(config.min_profit_margin, d("0.07"));
    assert_eq!(config.tailend.min_sustained_secs, 9);
    assert_eq!(config.tailend.min_sustained_ticks, 4);
    assert_eq!(config.tailend.max_recent_volatility, d("0.02"));
    assert_eq!(config.tailend.max_spread_bps, d("150"));
    assert_eq!(config.tailend.stale_ob_secs, -3);
}

#[test]
fn unreadable_variables_override_nothing() {
    let plain = ArbitrageConfig::default();
    let vars = EnvVars {
        min_profit_margin: Some("much".to_string()),
        min_sustained_secs: Some("-1".to_string()),
        min_sustained_ticks: Some("".to_string()),
        ..unset()
    };
    let config = ArbitrageConfig::default().with_env_overrides(&vars);
    assert_eq!(config.min_profit_margin, plain.min_profit_margin);
    assert_eq!(config.tailend.min_sustained_secs, plain.tailend.min_sustained_secs);
    assert_eq!(config.tailend.min_sustained_ticks, plain.tailend.min_sustained_ticks);
    let config = ArbitrageConfig::default().with_overrides(Overrides {
        min_profit_margin: Some(d("0.5")),
        min_sustained_secs: None,
        min_sustained_ticks: None,
        max_volatility: None,
        max_spread_bps: None,
        stale_ob_secs: None,
    });
    assert_eq!(config.min_profit_margin, d("0.5"));
    assert_eq!(config.tailend.stale_ob_secs, plain.tailend.stale_ob_secs);
}
