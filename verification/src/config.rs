//! Configuration. Every mode is off until it is enabled.
use crate::decimal::{Decimal, at_most, dec, decimal_text, decimal_value, less, zero};
use crate::text::{i64_value, owned, parse_i64, parse_u64, parse_usize, u64_value, usize_value};
use crate::value::{comparing_compares_values, signs_agree, value};
use vstd::prelude::*;
use vstd::string::*;

verus! {

/// Reference price quality, from least to most accurate.
#[derive(Clone, Copy, Debug, PartialEq, Eq, PartialOrd, Ord, Structural)]
pub enum ReferenceQualityLevel {
    /// The price at discovery.
    Current,
    /// A recorded price within 30 s of the window start.
    Historical,
    /// A price from the oracle's chain.
    OnChain,
    /// A snapshot within 2 s of the window start.
    Exact,
}

impl Default for ReferenceQualityLevel {
    fn default() -> (r: Self)
        ensures
            r == ReferenceQualityLevel::Current,
    {
        ReferenceQualityLevel::Current
    }
}

impl ReferenceQualityLevel {
    /// Rank of the level, from 0.
    pub open spec fn rank_of(self) -> int {
        match self {
            ReferenceQualityLevel::Current => 0,
            ReferenceQualityLevel::Historical => 1,
            ReferenceQualityLevel::OnChain => 2,
            ReferenceQualityLevel::Exact => 3,
        }
    }

    /// Name of the level.
    pub open spec fn name_of(self) -> Seq<char> {
        match self {
            ReferenceQualityLevel::Current => "Current"@,
            ReferenceQualityLevel::Historical => "Historical"@,
            ReferenceQualityLevel::OnChain => "OnChain"@,
            ReferenceQualityLevel::Exact => "Exact"@,
        }
    }

    /// Name of the level.
    pub fn name(self) -> (r: &'static str)
        ensures
            r@ == self.name_of(),
    {
        match self {
            ReferenceQualityLevel::Current => "Current",
            ReferenceQualityLevel::Historical => "Historical",
            ReferenceQualityLevel::OnChain => "OnChain",
            ReferenceQualityLevel::Exact => "Exact",
        }
    }

    /// Rank of the level, from 0.
    pub fn rank(self) -> (r: u8)
        ensures
            r == self.rank_of(),
    {
        match self {
            ReferenceQualityLevel::Current => 0,
            ReferenceQualityLevel::Historical => 1,
            ReferenceQualityLevel::OnChain => 2,
            ReferenceQualityLevel::Exact => 3,
        }
    }
}

/// Ticks needed in the sustained window unless configured.
pub fn default_min_sustained_ticks() -> (r: usize)
    ensures
        r == 2,
{
    2
}

/// Ask thresholds by seconds remaining unless configured.
pub open spec fn standard_time_thresholds() -> Seq<(u64, Decimal)> {
    seq![(120u64, dec(90, 2)), (90u64, dec(92, 2)), (60u64, dec(93, 2)), (30u64, dec(95, 2))]
}

/// Ask thresholds by seconds remaining unless configured.
pub fn default_time_thresholds() -> (r: Vec<(u64, Decimal)>)
    ensures
        r@ == standard_time_thresholds(),
{
    let mut r: Vec<(u64, Decimal)> = Vec::new();
    r.push((120, Decimal::new(90, 2)));
    r.push((90, Decimal::new(92, 2)));
    r.push((60, Decimal::new(93, 2)));
    r.push((30, Decimal::new(95, 2)));
    assert(r@ =~= standard_time_thresholds());
    r
}

/// Tail-end mode: entries shortly before a market ends.
#[derive(Debug)]
pub struct TailEndConfig {
    /// The mode is on.
    pub enabled: bool,
    /// Most seconds remaining at entry.
    pub time_threshold_secs: u64,
    /// Least ask price at entry when no time bucket applies.
    pub ask_threshold: Decimal,
    /// Least reference quality at entry.
    pub min_reference_quality: ReferenceQualityLevel,
    /// Least ask price by seconds remaining.
    pub dynamic_thresholds: Vec<(u64, Decimal)>,
    /// Widest spread, in basis points.
    pub max_spread_bps: Decimal,
    /// Seconds for which the price must have favoured the side.
    pub min_sustained_secs: u64,
    /// Largest recent deviation from the reference.
    pub max_recent_volatility: Decimal,
    /// Seconds without a retry after a rejected order.
    pub rejection_cooldown_secs: u64,
    /// Least number of ticks in the sustained window.
    pub min_sustained_ticks: usize,
    /// Oldest order book, in seconds.
    pub stale_ob_secs: i64,
    /// Drop from entry that exits soon after entry.
    pub post_entry_exit_drop: Decimal,
    /// Seconds after entry in which that drop counts.
    pub post_entry_window_secs: i64,
    /// Entries are post-only.
    pub post_only: bool,
    /// Entries need an agreeing composite price.
    pub use_composite_price: bool,
    /// Oldest source in the composite, in seconds.
    pub max_source_stale_secs: i64,
    /// Least number of sources in the composite.
    pub min_sources: usize,
    /// Widest dispersion of the sources, in basis points.
    pub max_dispersion_bps: Decimal,
    /// Oldest required feed, in seconds.
    pub feed_stale_secs: i64,
    /// Price ticks may trade on a recent book.
    pub fast_path_enabled: bool,
    /// Oldest book of the fast path, in milliseconds.
    pub fast_path_max_book_age_ms: i64,
    /// Seconds after entry before a sale.
    pub min_sell_delay_secs: i64,
    /// Least distance of the price from the reference.
    pub min_strike_distance_pct: Decimal,
}

impl Default for TailEndConfig {
    fn default() -> (r: Self)
        ensures
            !r.enabled,
            r.time_threshold_secs == 120,
            r.ask_threshold == dec(90, 2),
            r.min_reference_quality == ReferenceQualityLevel::Historical,
            r.dynamic_thresholds@ == standard_time_thresholds(),
            r.max_spread_bps == dec(100, 0),
            r.min_sustained_secs == 10,
            r.max_recent_volatility == dec(1, 2),
            r.rejection_cooldown_secs == 15,
            r.min_sustained_ticks == 2,
            r.stale_ob_secs == 15,
            r.post_entry_exit_drop == dec(5, 2),
            r.post_entry_window_secs == 10,
            !r.post_only,
            !r.use_composite_price,
            r.max_source_stale_secs == 10,
            r.min_sources == 2,
            r.max_dispersion_bps == dec(50, 0),
            r.feed_stale_secs == 30,
            r.fast_path_enabled,
            r.fast_path_max_book_age_ms == 2000,
            r.min_sell_delay_secs == 10,
            r.min_strike_distance_pct == zero(),
    {
        TailEndConfig {
            enabled: false,
            time_threshold_secs: 120,
            ask_threshold: Decimal::new(90, 2),
            min_reference_quality: ReferenceQualityLevel::Historical,
            dynamic_thresholds: default_time_thresholds(),
            max_spread_bps: Decimal::new(100, 0),
            min_sustained_secs: 10,
            max_recent_volatility: Decimal::new(1, 2),
            rejection_cooldown_secs: 15,
            min_sustained_ticks: default_min_sustained_ticks(),
            stale_ob_secs: 15,
            post_entry_exit_drop: Decimal::new(5, 2),
            post_entry_window_secs: 10,
            post_only: false,
            use_composite_price: false,
            max_source_stale_secs: 10,
            min_sources: 2,
            max_dispersion_bps: Decimal::new(50, 0),
            feed_stale_secs: 30,
            fast_path_enabled: true,
            fast_path_max_book_age_ms: 2000,
            min_sell_delay_secs: 10,
            min_strike_distance_pct: Decimal::new(0, 0),
        }
    }
}

/// Two-sided mode: both outcomes below 1 together.
#[derive(Clone, Copy, Debug)]
pub struct TwoSidedConfig {
    /// The mode is on.
    pub enabled: bool,
    /// Highest combined ask.
    pub combined_threshold: Decimal,
}

impl Default for TwoSidedConfig {
    fn default() -> (r: Self)
        ensures
            !r.enabled,
            r.combined_threshold == dec(98, 2),
    {
        TwoSidedConfig {
            enabled: false,
            combined_threshold: Decimal::new(98, 2),
        }
    }
}

/// Confirmed mode: entries on model confidence.
#[derive(Clone, Copy, Debug)]
pub struct ConfirmedConfig {
    /// The mode is on.
    pub enabled: bool,
    /// Least confidence at entry.
    pub min_confidence: Decimal,
    /// Least net margin at entry.
    pub min_margin: Decimal,
}

impl Default for ConfirmedConfig {
    fn default() -> (r: Self)
        ensures
            !r.enabled,
            r.min_confidence == dec(50, 2),
            r.min_margin == dec(2, 2),
    {
        ConfirmedConfig {
            enabled: false,
            min_confidence: Decimal::new(50, 2),
            min_margin: Decimal::new(2, 2),
        }
    }
}

/// Fee model.
#[derive(Clone, Copy, Debug)]
pub struct FeeConfig {
    /// Taker fee rate.
    pub taker_fee_rate: Decimal,
}

impl Default for FeeConfig {
    fn default() -> (r: Self)
        ensures
            r.taker_fee_rate == dec(315, 4),
    {
        FeeConfig {
            taker_fee_rate: Decimal::new(315, 4),
        }
    }
}

/// Spike detection.
#[derive(Clone, Copy, Debug)]
pub struct SpikeConfig {
    /// Least change that is a spike.
    pub threshold_pct: Decimal,
    /// Seconds to look back.
    pub window_secs: u64,
    /// Most spikes kept.
    pub history_size: usize,
}

impl Default for SpikeConfig {
    fn default() -> (r: Self)
        ensures
            r.threshold_pct == dec(5, 3),
            r.window_secs == 10,
            r.history_size == 50,
    {
        SpikeConfig {
            threshold_pct: Decimal::new(5, 3),
            window_secs: 10,
            history_size: 50,
        }
    }
}

/// Order placement.
#[derive(Clone, Copy, Debug)]
pub struct OrderConfig {
    /// Maker orders where the mode allows.
    pub hybrid_mode: bool,
    /// Distance of a limit order below the ask.
    pub limit_offset: Decimal,
    /// Age at which an open order is cancelled.
    pub max_age_secs: u64,
    /// Ticks above the ask for tail-end orders.
    pub tick_steps_above_ask: u32,
}

impl Default for OrderConfig {
    fn default() -> (r: Self)
        ensures
            r.hybrid_mode,
            r.limit_offset == dec(1, 2),
            r.max_age_secs == 30,
            r.tick_steps_above_ask == 1,
    {
        OrderConfig {
            hybrid_mode: true,
            limit_offset: Decimal::new(1, 2),
            max_age_secs: 30,
            tick_steps_above_ask: 1,
        }
    }
}

/// Position sizing.
#[derive(Clone, Copy, Debug)]
pub struct SizingConfig {
    /// Base size in USDC.
    pub base_size: Decimal,
    /// Fraction of the Kelly size.
    pub kelly_multiplier: Decimal,
    /// Least size in USDC.
    pub min_size: Decimal,
    /// Largest size in USDC.
    pub max_size: Decimal,
    /// Kelly sizing instead of the base size.
    pub use_kelly: bool,
    /// Fraction of the visible depth that an order may take.
    pub depth_cap_factor: Decimal,
}

impl Default for SizingConfig {
    fn default() -> (r: Self)
        ensures
            r.base_size == dec(10, 0),
            r.kelly_multiplier == dec(25, 2),
            r.min_size == dec(2, 0),
            r.max_size == dec(25, 0),
            r.use_kelly,
            r.depth_cap_factor == dec(50, 2),
    {
        SizingConfig {
            base_size: Decimal::new(10, 0),
            kelly_multiplier: Decimal::new(25, 2),
            min_size: Decimal::new(2, 0),
            max_size: Decimal::new(25, 0),
            use_kelly: true,
            depth_cap_factor: Decimal::new(50, 2),
        }
    }
}

/// Blend of the bid with the price implied by the external feed.
#[derive(Clone, Copy, Debug)]
pub struct UnifiedPriceConfig {
    /// Weight of the implied price.
    pub external_weight: Decimal,
    /// Price drop per unit of reversal.
    pub sensitivity: Decimal,
}

impl Default for UnifiedPriceConfig {
    fn default() -> (r: Self)
        ensures
            r.external_weight == dec(30, 2),
            r.sensitivity == dec(10, 0),
    {
        UnifiedPriceConfig {
            external_weight: Decimal::new(30, 2),
            sensitivity: Decimal::new(10, 0),
        }
    }
}

/// Stop-loss.
#[derive(Debug)]
pub struct StopLossConfig {
    /// Reversal of the external price that counts.
    pub reversal_pct: Decimal,
    /// Drop of the market price that counts.
    pub min_drop: Decimal,
    /// Trailing stop is on.
    pub trailing_enabled: bool,
    /// Distance from the peak.
    pub trailing_distance: Decimal,
    /// The distance tightens as the end nears.
    pub time_decay: bool,
    /// Least distance after tightening.
    pub trailing_min_distance: Decimal,
    /// Seconds without re-entry after a stale position.
    pub stale_market_cooldown_secs: u64,
    /// Stop-losses rest at or below this many seconds remaining.
    pub min_remaining_secs: i64,
    /// Oldest book for a trigger, in milliseconds.
    pub sl_max_book_age_ms: i64,
    /// Oldest external price for a trigger, in milliseconds.
    pub sl_max_external_age_ms: i64,
    /// Least sources for a composite price.
    pub sl_min_sources: usize,
    /// Widest dispersion of the sources, in basis points.
    pub sl_max_dispersion_bps: Decimal,
    /// Drop that exits at once.
    pub hard_drop_abs: Decimal,
    /// Reversal that exits at once.
    pub hard_reversal_pct: Decimal,
    /// Ticks for which the dual trigger must hold.
    pub dual_trigger_consecutive_ticks: usize,
    /// Gain that arms the trailing stop.
    pub trailing_arm_distance: Decimal,
    /// Blend used by the triggers.
    pub unified_price: UnifiedPriceConfig,
    /// Exits may be hedged.
    pub recovery_enabled: bool,
    /// Highest cost of a complete set.
    pub recovery_max_set_cost: Decimal,
    /// Seconds without re-entry after a recovery.
    pub recovery_cooldown_secs: u64,
    /// Seconds without re-entry after an exit.
    pub reentry_cooldown_secs: i64,
    /// Fraction of the bid depth that an exit may take.
    pub exit_depth_cap_factor: Decimal,
    /// A sale rejected for liquidity is retried as a resting order.
    pub gtc_fallback: bool,
    /// Ticks below the bid for a resting sale.
    pub gtc_fallback_tick_offset: u32,
    /// Age at which a resting sale is chased.
    pub gtc_stop_loss_max_age_secs: i64,
    /// Seconds between retries after liquidity rejections.
    pub liquidity_cooldowns: Vec<u64>,
    /// Seconds between retries after other rejections.
    pub balance_cooldowns: Vec<u64>,
}

impl Default for StopLossConfig {
    fn default() -> (r: Self)
        ensures
            r.reversal_pct == dec(5, 3),
            r.min_drop == dec(5, 2),
            r.trailing_enabled,
            r.trailing_distance == dec(3, 2),
            r.time_decay,
            r.trailing_min_distance == dec(1, 2),
            r.stale_market_cooldown_secs == 120,
            r.min_remaining_secs == 0,
            r.liquidity_cooldowns@ == seq![1u64, 5u64, 15u64, 30u64],
            r.balance_cooldowns@ == seq![5u64, 15u64, 30u64, 60u64],
            r.sl_max_book_age_ms == 5000,
            r.sl_max_external_age_ms == 3000,
            r.sl_min_sources == 2,
            r.sl_max_dispersion_bps == dec(50, 0),
            r.hard_drop_abs == dec(8, 2),
            r.hard_reversal_pct == dec(6, 3),
            r.dual_trigger_consecutive_ticks == 2,
            r.trailing_arm_distance == dec(1, 2),
            call_ensures(UnifiedPriceConfig::default, (), r.unified_price),
            r.recovery_enabled,
            r.recovery_max_set_cost == dec(101, 2),
            r.recovery_cooldown_secs == 30,
            r.reentry_cooldown_secs == 30,
            r.exit_depth_cap_factor == dec(80, 2),
            r.gtc_fallback,
            r.gtc_fallback_tick_offset == 1,
            r.gtc_stop_loss_max_age_secs == 2,
    {
        let mut liquidity_cooldowns: Vec<u64> = Vec::new();
        liquidity_cooldowns.push(1);
        liquidity_cooldowns.push(5);
        liquidity_cooldowns.push(15);
        liquidity_cooldowns.push(30);
        assert(liquidity_cooldowns@ =~= seq![1u64, 5u64, 15u64, 30u64]);
        let mut balance_cooldowns: Vec<u64> = Vec::new();
        balance_cooldowns.push(5);
        balance_cooldowns.push(15);
        balance_cooldowns.push(30);
        balance_cooldowns.push(60);
        assert(balance_cooldowns@ =~= seq![5u64, 15u64, 30u64, 60u64]);
        StopLossConfig {
            reversal_pct: Decimal::new(5, 3),
            min_drop: Decimal::new(5, 2),
            trailing_enabled: true,
            trailing_distance: Decimal::new(3, 2),
            time_decay: true,
            trailing_min_distance: Decimal::new(1, 2),
            stale_market_cooldown_secs: 120,
            min_remaining_secs: 0,
            sl_max_book_age_ms: 5000,
            sl_max_external_age_ms: 3000,
            sl_min_sources: 2,
            sl_max_dispersion_bps: Decimal::new(50, 0),
            hard_drop_abs: Decimal::new(8, 2),
            hard_reversal_pct: Decimal::new(6, 3),
            dual_trigger_consecutive_ticks: 2,
            trailing_arm_distance: Decimal::new(1, 2),
            unified_price: UnifiedPriceConfig::default(),
            recovery_enabled: true,
            recovery_max_set_cost: Decimal::new(101, 2),
            recovery_cooldown_secs: 30,
            reentry_cooldown_secs: 30,
            exit_depth_cap_factor: Decimal::new(80, 2),
            gtc_fallback: true,
            gtc_fallback_tick_offset: 1,
            gtc_stop_loss_max_age_secs: 2,
            liquidity_cooldowns,
            balance_cooldowns,
        }
    }
}

/// Performance tracking.
#[derive(Clone, Copy, Debug)]
pub struct PerformanceConfig {
    /// Least trades before a mode can be disabled.
    pub min_trades: u64,
    /// Least win rate of an enabled mode.
    pub min_win_rate: Decimal,
    /// Recent results kept.
    pub window_size: usize,
    /// Poor modes are disabled.
    pub auto_disable: bool,
}

impl Default for PerformanceConfig {
    fn default() -> (r: Self)
        ensures
            r.min_trades == 20,
            r.min_win_rate == dec(40, 2),
            r.window_size == 50,
            !r.auto_disable,
    {
        PerformanceConfig {
            min_trades: 20,
            min_win_rate: Decimal::new(40, 2),
            window_size: 50,
            auto_disable: false,
        }
    }
}

/// Rounding of orders.
#[derive(Clone, Copy, Debug)]
pub struct RoundingConfig {
    /// Decimals of a size.
    pub size_decimals: u32,
    /// Decimals of a price.
    pub price_decimals: u32,
}

impl Default for RoundingConfig {
    fn default() -> (r: Self)
        ensures
            r.size_decimals == 2,
            r.price_decimals == 2,
    {
        RoundingConfig {
            size_decimals: 2,
            price_decimals: 2,
        }
    }
}

/// A sizing configuration that cannot be used.
#[derive(Clone, Copy, Debug, PartialEq)]
pub enum SizingError {
    /// The base size is not positive.
    BaseSize { got: Decimal },
    /// The least size is not positive.
    MinSize { got: Decimal },
    /// The largest size is below the least.
    MaxBelowMin { max_size: Decimal, min_size: Decimal },
    /// The Kelly multiplier is not positive.
    KellyMultiplier { got: Decimal },
}

impl SizingError {
    /// The message for an operator.
    pub open spec fn message_of(self) -> Seq<char> {
        match self {
            SizingError::BaseSize { got } => "base_size must be positive, got "@ + decimal_text(got),
            SizingError::MinSize { got } => "min_size must be positive, got "@ + decimal_text(got),
            SizingError::MaxBelowMin { max_size, min_size } => "max_size ("@ + decimal_text(
                max_size,
            ) + ") must be >= min_size ("@ + decimal_text(min_size) + ")"@,
            SizingError::KellyMultiplier { got } => "kelly_multiplier must be positive, got "@
                + decimal_text(got),
        }
    }

    /// The message for an operator.
    pub fn message(&self) -> (r: String)
        ensures
            r@ == self.message_of(),
    {
        match self {
            SizingError::BaseSize { got } => {
                let mut s = owned("base_size must be positive, got ");
                s.append(got.to_string().as_str());
                s
            },
            SizingError::MinSize { got } => {
                let mut s = owned("min_size must be positive, got ");
                s.append(got.to_string().as_str());
                s
            },
            SizingError::MaxBelowMin { max_size, min_size } => {
                let mut s = owned("max_size (");
                s.append(max_size.to_string().as_str());
                s.append(") must be >= min_size (");
                s.append(min_size.to_string().as_str());
                s.append(")");
                s
            },
            SizingError::KellyMultiplier { got } => {
                let mut s = owned("kelly_multiplier must be positive, got ");
                s.append(got.to_string().as_str());
                s
            },
        }
    }
}

impl SizingConfig {
    /// The first condition that the configuration breaks.
    pub open spec fn fault(self) -> Option<SizingError> {
        if at_most(self.base_size, zero()) {
            Some(SizingError::BaseSize { got: self.base_size })
        } else if at_most(self.min_size, zero()) {
            Some(SizingError::MinSize { got: self.min_size })
        } else if less(self.max_size, self.min_size) {
            Some(SizingError::MaxBelowMin { max_size: self.max_size, min_size: self.min_size })
        } else if at_most(self.kelly_multiplier, zero()) {
            Some(SizingError::KellyMultiplier { got: self.kelly_multiplier })
        } else {
            None
        }
    }

    /// Checks the sizing values.
    pub fn validate(&self) -> (r: Result<(), SizingError>)
        ensures
            r == (match self.fault() {
                Some(e) => Err::<(), SizingError>(e),
                None => Ok(()),
            }),
    {
        if self.base_size.le(Decimal::zero()) {
            return Err(SizingError::BaseSize { got: self.base_size });
        }
        if self.min_size.le(Decimal::zero()) {
            return Err(SizingError::MinSize { got: self.min_size });
        }
        if self.max_size.lt(self.min_size) {
            return Err(
                SizingError::MaxBelowMin { max_size: self.max_size, min_size: self.min_size },
            );
        }
        if self.kelly_multiplier.le(Decimal::zero()) {
            return Err(SizingError::KellyMultiplier { got: self.kelly_multiplier });
        }
        Ok(())
    }
}

/// Leader coin and the coins that follow it.
#[derive(Debug)]
pub struct CorrelationPair {
    pub leader: String,
    pub followers: Vec<String>,
}

/// Cross-market correlation.
#[derive(Debug)]
pub struct CorrelationConfig {
    /// Correlation signals are on.
    pub enabled: bool,
    /// Least spike of a leader.
    pub min_spike_pct: Decimal,
    /// Leaders with their followers.
    pub pairs: Vec<CorrelationPair>,
    /// Confidence of a follower relative to its leader.
    pub discount_factor: Decimal,
}

/// The texts of a list.
pub open spec fn texts(v: Seq<String>) -> Seq<Seq<char>> {
    Seq::new(v.len(), |i: int| v[i]@)
}

impl Default for CorrelationConfig {
    fn default() -> (r: Self)
        ensures
            !r.enabled,
            r.min_spike_pct == dec(1, 2),
            r.pairs@.len() == 2,
            r.pairs@[0].leader@ == "BTC"@,
            texts(r.pairs@[0].followers@) =~= seq!["ETH"@, "SOL"@],
            r.pairs@[1].leader@ == "ETH"@,
            texts(r.pairs@[1].followers@) =~= seq!["SOL"@],
            r.discount_factor == dec(70, 2),
    {
        let mut first: Vec<String> = Vec::new();
        first.push(owned("ETH"));
        first.push(owned("SOL"));
        let mut second: Vec<String> = Vec::new();
        second.push(owned("SOL"));
        let mut pairs: Vec<CorrelationPair> = Vec::new();
        pairs.push(CorrelationPair { leader: owned("BTC"), followers: first });
        pairs.push(CorrelationPair { leader: owned("ETH"), followers: second });
        CorrelationConfig {
            enabled: false,
            min_spike_pct: Decimal::new(1, 2),
            pairs,
            discount_factor: Decimal::new(70, 2),
        }
    }
}

/// Configuration of the crypto arbitrage strategies.
#[derive(Debug)]
pub struct ArbitrageConfig {
    /// The strategy is on.
    pub enabled: bool,
    /// Coins to track.
    pub coins: Vec<String>,
    /// Most positions at a time.
    pub max_positions: usize,
    /// Least profit margin.
    pub min_profit_margin: Decimal,
    /// Least profit margin in the late window (120 to 300 s).
    pub late_window_margin: Decimal,
    /// Seconds between market scans.
    pub scan_interval_secs: u64,
    /// Reference prices come from the oracle's chain.
    pub use_chainlink: bool,
    /// Endpoints for the oracle's chain, tried in order.
    pub chainlink_rpc_urls: Vec<String>,
    pub tailend: TailEndConfig,
    pub twosided: TwoSidedConfig,
    pub confirmed: ConfirmedConfig,
    pub fee: FeeConfig,
    pub spike: SpikeConfig,
    pub order: OrderConfig,
    pub sizing: SizingConfig,
    pub stop_loss: StopLossConfig,
    pub correlation: CorrelationConfig,
    pub performance: PerformanceConfig,
    pub rounding: RoundingConfig,
}

/// Oracle endpoints unless configured.
pub fn default_chainlink_rpc_urls() -> (r: Vec<String>)
    ensures
        texts(r@) =~= seq!["https://polygon-rpc.com"@],
{
    let mut r: Vec<String> = Vec::new();
    r.push(owned("https://polygon-rpc.com"));
    r
}

impl Default for ArbitrageConfig {
    fn default() -> (r: Self)
        ensures
            !r.enabled,
            texts(r.coins@) =~= seq!["BTC"@, "ETH"@, "SOL"@, "XRP"@],
            r.max_positions == 5,
            r.min_profit_margin == dec(3, 2),
            r.late_window_margin == dec(2, 2),
            r.scan_interval_secs == 30,
            r.use_chainlink,
            texts(r.chainlink_rpc_urls@) =~= seq!["https://polygon-rpc.com"@],
            call_ensures(TailEndConfig::default, (), r.tailend),
            call_ensures(TwoSidedConfig::default, (), r.twosided),
            call_ensures(ConfirmedConfig::default, (), r.confirmed),
            call_ensures(FeeConfig::default, (), r.fee),
            call_ensures(SpikeConfig::default, (), r.spike),
            call_ensures(OrderConfig::default, (), r.order),
            call_ensures(SizingConfig::default, (), r.sizing),
            call_ensures(StopLossConfig::default, (), r.stop_loss),
            call_ensures(CorrelationConfig::default, (), r.correlation),
            call_ensures(PerformanceConfig::default, (), r.performance),
            call_ensures(RoundingConfig::default, (), r.rounding),
    {
        let mut coins: Vec<String> = Vec::new();
        coins.push(owned("BTC"));
        coins.push(owned("ETH"));
        coins.push(owned("SOL"));
        coins.push(owned("XRP"));
        ArbitrageConfig {
            enabled: false,
            coins,
            max_positions: 5,
            min_profit_margin: Decimal::new(3, 2),
            late_window_margin: Decimal::new(2, 2),
            scan_interval_secs: 30,
            use_chainlink: true,
            chainlink_rpc_urls: default_chainlink_rpc_urls(),
            tailend: TailEndConfig::default(),
            twosided: TwoSidedConfig::default(),
            confirmed: ConfirmedConfig::default(),
            fee: FeeConfig::default(),
            spike: SpikeConfig::default(),
            order: OrderConfig::default(),
            sizing: SizingConfig::default(),
            stop_loss: StopLossConfig::default(),
            correlation: CorrelationConfig::default(),
            performance: PerformanceConfig::default(),
            rounding: RoundingConfig::default(),
        }
    }
}

/// The environment variables that override a configuration, where they are set.
#[derive(Debug)]
pub struct EnvVars {
    /// `POLY_MIN_PROFIT_MARGIN`
    pub min_profit_margin: Option<String>,
    /// `POLY_TAILEND_MIN_SUSTAINED_SECS`
    pub min_sustained_secs: Option<String>,
    /// `POLY_TAILEND_MIN_SUSTAINED_TICKS`
    pub min_sustained_ticks: Option<String>,
    /// `POLY_TAILEND_MAX_VOLATILITY`
    pub max_volatility: Option<String>,
    /// `POLY_TAILEND_MAX_SPREAD_BPS`
    pub max_spread_bps: Option<String>,
    /// `POLY_TAILEND_STALE_OB_SECS`
    pub stale_ob_secs: Option<String>,
}

/// The values that override a configuration.
#[derive(Debug)]
pub struct Overrides {
    pub min_profit_margin: Option<Decimal>,
    pub min_sustained_secs: Option<u64>,
    pub min_sustained_ticks: Option<usize>,
    pub max_volatility: Option<Decimal>,
    pub max_spread_bps: Option<Decimal>,
    pub stale_ob_secs: Option<i64>,
}

/// The value in force: the override where there is one.
pub open spec fn in_force<T>(chosen: Option<T>, configured: T) -> T {
    match chosen {
        Some(v) => v,
        None => configured,
    }
}

/// A configuration with overrides: each replaces its own setting, and nothing else changes.
pub open spec fn overridden(config: ArbitrageConfig, o: Overrides) -> ArbitrageConfig {
    ArbitrageConfig {
        min_profit_margin: in_force(o.min_profit_margin, config.min_profit_margin),
        tailend: TailEndConfig {
            min_sustained_secs: in_force(o.min_sustained_secs, config.tailend.min_sustained_secs),
            min_sustained_ticks: in_force(
                o.min_sustained_ticks,
                config.tailend.min_sustained_ticks,
            ),
            max_recent_volatility: in_force(
                o.max_volatility,
                config.tailend.max_recent_volatility,
            ),
            max_spread_bps: in_force(o.max_spread_bps, config.tailend.max_spread_bps),
            stale_ob_secs: in_force(o.stale_ob_secs, config.tailend.stale_ob_secs),
            ..config.tailend
        },
        ..config
    }
}

/// Nothing is overridden by no values.
pub proof fn no_overrides_change_nothing(config: ArbitrageConfig)
    ensures
        overridden(
            config,
            Overrides {
                min_profit_margin: None,
                min_sustained_secs: None,
                min_sustained_ticks: None,
                max_volatility: None,
                max_spread_bps: None,
                stale_ob_secs: None,
            },
        ) == config,
{
}

/// The values of environment variables; one that does not read as its kind of number counts
/// as not set.
pub open spec fn overrides_of(vars: EnvVars) -> Overrides {
    Overrides {
        min_profit_margin: match vars.min_profit_margin {
            Some(s) => decimal_value(s@),
            None => None,
        },
        min_sustained_secs: match vars.min_sustained_secs {
            Some(s) => u64_value(s@),
            None => None,
        },
        min_sustained_ticks: match vars.min_sustained_ticks {
            Some(s) => usize_value(s@),
            None => None,
        },
        max_volatility: match vars.max_volatility {
            Some(s) => decimal_value(s@),
            None => None,
        },
        max_spread_bps: match vars.max_spread_bps {
            Some(s) => decimal_value(s@),
            None => None,
        },
        stale_ob_secs: match vars.stale_ob_secs {
            Some(s) => i64_value(s@),
            None => None,
        },
    }
}

fn read_decimal(s: &Option<String>) -> (r: Option<Decimal>)
    ensures
        r == (match *s {
            Some(t) => decimal_value(t@),
            None => None,
        }),
{
    match s {
        Some(t) => Decimal::parse(t.as_str()),
        None => None,
    }
}

/// The values of environment variables.
pub fn read_overrides(vars: &EnvVars) -> (r: Overrides)
    ensures
        r == overrides_of(*vars),
{
    Overrides {
        min_profit_margin: read_decimal(&vars.min_profit_margin),
        min_sustained_secs: match &vars.min_sustained_secs {
            Some(s) => parse_u64(s.as_str()),
            None => None,
        },
        min_sustained_ticks: match &vars.min_sustained_ticks {
            Some(s) => parse_usize(s.as_str()),
            None => None,
        },
        max_volatility: read_decimal(&vars.max_volatility),
        max_spread_bps: read_decimal(&vars.max_spread_bps),
        stale_ob_secs: match &vars.stale_ob_secs {
            Some(s) => parse_i64(s.as_str()),
            None => None,
        },
    }
}

impl ArbitrageConfig {
    /// The configuration with the overrides of environment variables.
    pub fn with_env_overrides(self, vars: &EnvVars) -> (r: Self)
        ensures
            r == overridden(self, overrides_of(*vars)),
    {
        self.with_overrides(read_overrides(vars))
    }

    /// The configuration with overrides.
    pub fn with_overrides(self, o: Overrides) -> (r: Self)
        ensures
            r == overridden(self, o),
    {
        let mut config = self;
        if let Some(d) = o.min_profit_margin {
            config.min_profit_margin = d;
        }
        if let Some(secs) = o.min_sustained_secs {
            config.tailend.min_sustained_secs = secs;
        }
        if let Some(ticks) = o.min_sustained_ticks {
            config.tailend.min_sustained_ticks = ticks;
        }
        if let Some(d) = o.max_volatility {
            config.tailend.max_recent_volatility = d;
        }
        if let Some(d) = o.max_spread_bps {
            config.tailend.max_spread_bps = d;
        }
        if let Some(secs) = o.stale_ob_secs {
            config.tailend.stale_ob_secs = secs;
        }
        config
    }

    /// Whether at least one trading mode is on.
    pub fn any_mode_enabled(&self) -> (r: bool)
        ensures
            r == (self.tailend.enabled || self.twosided.enabled),
    {
        self.tailend.enabled || self.twosided.enabled
    }
}

/// A sizing is valid where its base and least size and its multiplier are above 0 and its largest
/// size is no smaller than its least; the first of these that fails is the fault.
pub proof fn a_valid_sizing_has_positive_sizes(s: SizingConfig)
    ensures
        ({
            let (base, least, most) = (value(s.base_size), value(s.min_size), value(s.max_size));
            let factor = value(s.kelly_multiplier);
            &&& s.fault() is None <==> base > 0 as real && least > 0 as real && most >= least
                && factor > 0 as real
            &&& base <= 0 as real ==> s.fault() == Some(SizingError::BaseSize { got: s.base_size })
            &&& base > 0 as real && least <= 0 as real ==> s.fault() == Some(
                SizingError::MinSize { got: s.min_size },
            )
            &&& base > 0 as real && least > 0 as real && most < least ==> s.fault() == Some(
                SizingError::MaxBelowMin { max_size: s.max_size, min_size: s.min_size },
            )
        }),
{
    signs_agree(zero());
    comparing_compares_values(s.base_size, zero());
    comparing_compares_values(s.min_size, zero());
    comparing_compares_values(s.max_size, s.min_size);
    comparing_compares_values(s.kelly_multiplier, zero());
}

} // verus!
