//! The chart of skip reasons.
use crate::dashboard::html::{
    make_skip_bar, make_skip_chart, make_skip_header, skip_bar, skip_chart, skip_header,
};
use crate::table::{Table, lookup};
use crate::tailend::entry::SkipReason;
use crate::text::{int_text, owned, u64_to_text};
use vstd::prelude::*;
use vstd::string::*;

verus! {

/// A group of skip reasons.
#[derive(Clone, Copy, Debug, PartialEq, Eq, Structural)]
pub enum SkipGroup {
    PreFilters,
    MarketQuality,
    SignalQuality,
    RateLimiting,
    Composite,
}

/// Heading of a group.
pub open spec fn group_label(g: SkipGroup) -> Seq<char> {
    match g {
        SkipGroup::PreFilters => "Pre-filters"@,
        SkipGroup::MarketQuality => "Market Quality"@,
        SkipGroup::SignalQuality => "Signal Quality"@,
        SkipGroup::RateLimiting => "Rate Limiting"@,
        SkipGroup::Composite => "Composite"@,
    }
}

/// Style of a group.
pub open spec fn group_suffix(g: SkipGroup) -> Seq<char> {
    match g {
        SkipGroup::PreFilters => "prefilter"@,
        SkipGroup::MarketQuality => "market"@,
        SkipGroup::SignalQuality => "signal"@,
        SkipGroup::RateLimiting => "ratelimit"@,
        SkipGroup::Composite => "composite"@,
    }
}

/// Reasons of a group, in the order in which they are shown.
pub open spec fn group_reasons(g: SkipGroup) -> Seq<SkipReason> {
    match g {
        SkipGroup::PreFilters => seq![SkipReason::TimeWindow, SkipReason::CoinNotNearExpiry],
        SkipGroup::MarketQuality => seq![
            SkipReason::NoAsk,
            SkipReason::StaleOb,
            SkipReason::Spread,
        ],
        SkipGroup::SignalQuality => seq![
            SkipReason::RefQuality,
            SkipReason::NoPrediction,
            SkipReason::Threshold,
            SkipReason::Sustained,
            SkipReason::Volatility,
            SkipReason::StrikeProximity,
        ],
        SkipGroup::RateLimiting => seq![
            SkipReason::StaleCooldown,
            SkipReason::RejectionCooldown,
            SkipReason::RecoveryCooldown,
            SkipReason::Reservation,
            SkipReason::AutoDisabled,
        ],
        SkipGroup::Composite => seq![SkipReason::CompositeStale],
    }
}

/// Label of a reason.
pub open spec fn reason_label(r: SkipReason) -> Seq<char> {
    match r {
        SkipReason::TimeWindow => "Time window"@,
        SkipReason::CoinNotNearExpiry => "No expiry soon"@,
        SkipReason::NoAsk => "No liquidity"@,
        SkipReason::StaleOb => "Stale orderbook"@,
        SkipReason::Spread => "Wide spread"@,
        SkipReason::RefQuality => "Low ref quality"@,
        SkipReason::NoPrediction => "No prediction"@,
        SkipReason::Threshold => "Below threshold"@,
        SkipReason::Sustained => "Not sustained"@,
        SkipReason::Volatility => "High volatility"@,
        SkipReason::StrikeProximity => "Near strike"@,
        SkipReason::StaleCooldown => "Stale cooldown"@,
        SkipReason::RejectionCooldown => "Rejection cooldown"@,
        SkipReason::RecoveryCooldown => "Recovery cooldown"@,
        SkipReason::Reservation => "Reserved/maxed"@,
        SkipReason::AutoDisabled => "Auto-disabled"@,
        SkipReason::CompositeStale => "Stale composite"@,
    }
}

/// Tooltip of a reason.
pub open spec fn reason_tooltip(r: SkipReason) -> Seq<char> {
    match r {
        SkipReason::TimeWindow => "Market not in the final 0\u{2013}120s before expiry"@,
        SkipReason::CoinNotNearExpiry => "No market expiring soon for this coin"@,
        SkipReason::NoAsk => "No ask in orderbook for predicted side"@,
        SkipReason::StaleOb => "Orderbook data too old to trust"@,
        SkipReason::Spread => "Bid-ask spread too wide (illiquid)"@,
        SkipReason::RefQuality => "Reference price quality below threshold"@,
        SkipReason::NoPrediction => "Price equals reference \u{2014} no directional signal"@,
        SkipReason::Threshold => "Ask price below dynamic confidence threshold"@,
        SkipReason::Sustained => "Price direction not held long enough"@,
        SkipReason::Volatility => "Recent price too choppy"@,
        SkipReason::StrikeProximity => "Crypto price too close to strike price"@,
        SkipReason::StaleCooldown => "Market on cooldown after stale data"@,
        SkipReason::RejectionCooldown => "Market on cooldown after order rejection"@,
        SkipReason::RecoveryCooldown => "Market on cooldown after recovery exit"@,
        SkipReason::Reservation => "Market reserved, has exposure, or max positions"@,
        SkipReason::AutoDisabled => "Mode disabled by performance tracker"@,
        SkipReason::CompositeStale => "Composite reference price too old"@,
    }
}

/// Label and tooltip of a reason.
pub fn skip_reason_info(r: SkipReason) -> (s: (&'static str, &'static str))
    ensures
        s.0@ == reason_label(r),
        s.1@ == reason_tooltip(r),
{
    match r {
        SkipReason::TimeWindow => (
            "Time window",
            "Market not in the final 0\u{2013}120s before expiry",
        ),
        SkipReason::CoinNotNearExpiry => ("No expiry soon", "No market expiring soon for this coin"),
        SkipReason::NoAsk => ("No liquidity", "No ask in orderbook for predicted side"),
        SkipReason::StaleOb => ("Stale orderbook", "Orderbook data too old to trust"),
        SkipReason::Spread => ("Wide spread", "Bid-ask spread too wide (illiquid)"),
        SkipReason::RefQuality => ("Low ref quality", "Reference price quality below threshold"),
        SkipReason::NoPrediction => (
            "No prediction",
            "Price equals reference \u{2014} no directional signal",
        ),
        SkipReason::Threshold => (
            "Below threshold",
            "Ask price below dynamic confidence threshold",
        ),
        SkipReason::Sustained => ("Not sustained", "Price direction not held long enough"),
        SkipReason::Volatility => ("High volatility", "Recent price too choppy"),
        SkipReason::StrikeProximity => ("Near strike", "Crypto price too close to strike price"),
        SkipReason::StaleCooldown => ("Stale cooldown", "Market on cooldown after stale data"),
        SkipReason::RejectionCooldown => (
            "Rejection cooldown",
            "Market on cooldown after order rejection",
        ),
        SkipReason::RecoveryCooldown => (
            "Recovery cooldown",
            "Market on cooldown after recovery exit",
        ),
        SkipReason::Reservation => (
            "Reserved/maxed",
            "Market reserved, has exposure, or max positions",
        ),
        SkipReason::AutoDisabled => ("Auto-disabled", "Mode disabled by performance tracker"),
        SkipReason::CompositeStale => ("Stale composite", "Composite reference price too old"),
    }
}

impl SkipGroup {
    /// Heading and style of the group.
    pub fn head(self) -> (s: (&'static str, &'static str))
        ensures
            s.0@ == group_label(self),
            s.1@ == group_suffix(self),
    {
        match self {
            SkipGroup::PreFilters => ("Pre-filters", "prefilter"),
            SkipGroup::MarketQuality => ("Market Quality", "market"),
            SkipGroup::SignalQuality => ("Signal Quality", "signal"),
            SkipGroup::RateLimiting => ("Rate Limiting", "ratelimit"),
            SkipGroup::Composite => ("Composite", "composite"),
        }
    }

    /// Reasons of the group.
    pub fn reasons(self) -> (r: Vec<SkipReason>)
        ensures
            r@ == group_reasons(self),
    {
        let mut r: Vec<SkipReason> = Vec::new();
        match self {
            SkipGroup::PreFilters => {
                r.push(SkipReason::TimeWindow);
                r.push(SkipReason::CoinNotNearExpiry);
            },
            SkipGroup::MarketQuality => {
                r.push(SkipReason::NoAsk);
                r.push(SkipReason::StaleOb);
                r.push(SkipReason::Spread);
            },
            SkipGroup::SignalQuality => {
                r.push(SkipReason::RefQuality);
                r.push(SkipReason::NoPrediction);
                r.push(SkipReason::Threshold);
                r.push(SkipReason::Sustained);
                r.push(SkipReason::Volatility);
                r.push(SkipReason::StrikeProximity);
            },
            SkipGroup::RateLimiting => {
                r.push(SkipReason::StaleCooldown);
                r.push(SkipReason::RejectionCooldown);
                r.push(SkipReason::RecoveryCooldown);
                r.push(SkipReason::Reservation);
                r.push(SkipReason::AutoDisabled);
            },
            SkipGroup::Composite => {
                r.push(SkipReason::CompositeStale);
            },
        }
        assert(r@ =~= group_reasons(self));
        r
    }
}

/// How often a reason was counted.
pub open spec fn skip_count(rows: Seq<(Seq<char>, u64)>, r: SkipReason) -> u64 {
    match lookup(rows, r.name_of()) {
        Some(n) => n,
        None => 0,
    }
}

/// The width of a reason's bar, as it was handed in.
pub open spec fn width_text(widths: Seq<(Seq<char>, Seq<char>)>, r: SkipReason) -> Seq<char> {
    match lookup(widths, r.name_of()) {
        Some(w) => w,
        None => Seq::empty(),
    }
}

/// The bars of the reasons that were counted.
pub open spec fn bars_text(
    rows: Seq<(Seq<char>, u64)>,
    widths: Seq<(Seq<char>, Seq<char>)>,
    suffix: Seq<char>,
    reasons: Seq<SkipReason>,
) -> Seq<char>
    decreases reasons.len(),
{
    if reasons.len() == 0 {
        Seq::empty()
    } else {
        let r = reasons.last();
        let sofar = bars_text(rows, widths, suffix, reasons.drop_last());
        if skip_count(rows, r) > 0 {
            sofar + skip_bar(
                reason_tooltip(r),
                reason_label(r),
                suffix,
                width_text(widths, r),
                int_text(skip_count(rows, r) as int),
            )
        } else {
            sofar
        }
    }
}

/// Some reason was counted.
pub open spec fn any_counted(rows: Seq<(Seq<char>, u64)>, reasons: Seq<SkipReason>) -> bool {
    exists|i: int| 0 <= i < reasons.len() && skip_count(rows, #[trigger] reasons[i]) > 0
}

/// A group with its bars; nothing when no reason of it was counted.
pub open spec fn group_text(
    rows: Seq<(Seq<char>, u64)>,
    widths: Seq<(Seq<char>, Seq<char>)>,
    g: SkipGroup,
) -> Seq<char> {
    if any_counted(rows, group_reasons(g)) {
        skip_header(group_label(g)) + bars_text(rows, widths, group_suffix(g), group_reasons(g))
    } else {
        Seq::empty()
    }
}

/// Some counter is not zero.
pub open spec fn any_skip(rows: Seq<(Seq<char>, u64)>) -> bool {
    exists|i: int| 0 <= i < rows.len() && (#[trigger] rows[i]).1 > 0
}

/// The section on skip reasons.
pub open spec fn skips_section(
    rows: Seq<(Seq<char>, u64)>,
    widths: Seq<(Seq<char>, Seq<char>)>,
) -> Seq<char> {
    if !any_skip(rows) {
        "<div class=\"bp-card mb-4\"><h2 class=\"bp-section-title\">Skip Reasons (last 60s)</h2><p class=\"bp-text-muted\">No skips in current period</p></div>"@
    } else {
        skip_chart(
            group_text(rows, widths, SkipGroup::PreFilters) + group_text(
                rows,
                widths,
                SkipGroup::MarketQuality,
            ) + group_text(rows, widths, SkipGroup::SignalQuality) + group_text(
                rows,
                widths,
                SkipGroup::RateLimiting,
            ) + group_text(rows, widths, SkipGroup::Composite),
        )
    }
}

fn count_of(stats: &Table<u64>, r: SkipReason) -> (n: u64)
    ensures
        n == skip_count(stats.rows(), r),
{
    match stats.get(r.name()) {
        Some(n) => *n,
        None => 0,
    }
}

fn width_of(widths: &Table<String>, r: SkipReason) -> (w: String)
    ensures
        w@ == width_text(widths.rows(), r),
{
    match widths.get(r.name()) {
        Some(w) => w.clone(),
        None => String::new(),
    }
}

fn render_group(stats: &Table<u64>, widths: &Table<String>, g: SkipGroup) -> (s: String)
    ensures
        s@ == group_text(stats.rows(), widths.rows(), g),
{
    let reasons: Vec<SkipReason> = g.reasons();
    let (label, suffix) = g.head();
    let mut bars = String::new();
    let mut any: bool = false;
    let mut i: usize = 0;
    assert(bars@ =~= Seq::empty());
    while i < reasons.len()
        invariant
            i <= reasons@.len(),
            suffix@ == group_suffix(g),
            bars@ == bars_text(stats.rows(), widths.rows(), suffix@, reasons@.take(i as int)),
            any == (exists|j: int|
                0 <= j < i && skip_count(stats.rows(), #[trigger] reasons@[j]) > 0),
        decreases reasons@.len() - i,
    {
        assert(reasons@.take(i as int + 1).drop_last() =~= reasons@.take(i as int));
        let r: SkipReason = reasons[i];
        let n: u64 = count_of(stats, r);
        assert(n == skip_count(stats.rows(), reasons@[i as int]));
        if n > 0 {
            let (reason, tooltip) = skip_reason_info(r);
            bars.append(
                make_skip_bar(
                    tooltip,
                    reason,
                    suffix,
                    width_of(widths, r).as_str(),
                    u64_to_text(n).as_str(),
                ).as_str(),
            );
            any = true;
        }
        i += 1;
    }
    assert(reasons@.take(i as int) =~= reasons@);
    if any {
        let mut s = make_skip_header(label);
        s.append(bars.as_str());
        s
    } else {
        let s = String::new();
        assert(s@ =~= Seq::empty());
        s
    }
}

/// Renders the section on skip reasons. The widths of the bars, by reason, are handed in.
pub fn render_skip_stats(stats: &Table<u64>, widths: &Table<String>) -> (s: String)
    ensures
        s@ == skips_section(stats.rows(), widths.rows()),
{
    let mut any: bool = false;
    let mut i: usize = 0;
    while i < stats.len()
        invariant
            i <= stats.rows().len(),
            any == (exists|j: int| 0 <= j < i && (#[trigger] stats.rows()[j]).1 > 0),
        decreases stats.rows().len() - i,
    {
        let n: u64 = *stats.value_at(i);
        assert(n == stats.rows()[i as int].1);
        if n > 0 {
            any = true;
        }
        i += 1;
    }
    if !any {
        return owned(
            "<div class=\"bp-card mb-4\"><h2 class=\"bp-section-title\">Skip Reasons (last 60s)</h2><p class=\"bp-text-muted\">No skips in current period</p></div>",
        );
    }
    let mut bars = render_group(stats, widths, SkipGroup::PreFilters);
    bars.append(render_group(stats, widths, SkipGroup::MarketQuality).as_str());
    bars.append(render_group(stats, widths, SkipGroup::SignalQuality).as_str());
    bars.append(render_group(stats, widths, SkipGroup::RateLimiting).as_str());
    bars.append(render_group(stats, widths, SkipGroup::Composite).as_str());
    make_skip_chart(bars.as_str())
}

} // verus!
