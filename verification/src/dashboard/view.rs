//! The sections of the dashboard, and when it is sent out.
use crate::config::TailEndConfig;
use crate::dashboard::html::{
    config_card, make_config_card, make_market_row, make_market_table, make_performance_table,
    make_position_row, make_position_table, make_reference_row, make_reference_table,
    make_status_html, market_row, market_table, performance_table, position_row, position_table,
    reference_row, reference_table, status_html,
};
use crate::dashboard::skips::{render_skip_stats, skips_section};
use crate::decimal::{
    Decimal, Overflow, at_most, dec, decimal_fixed_text, decimal_text, difference_of,
    fixed_text_of, minus, ok_of, over, product_of, quotient_of, rounded, smaller, times, zero,
};
use crate::domain::market::{MarketWithReference, ReferenceQuality, predict_side, winner_of};
use crate::domain::position::ArbitragePosition;
use crate::domain::telemetry::{ModeStats, StatsView, pnl_sum};
use crate::exchange::{Action, ActionView, Signal, SignalView, acts};
use crate::fee_math::{
    checked_net_profit_margin, checked_taker_fee, escape_html, escaped, fmt_market_price, fmt_usd,
    market_price_of, net_margin_of, taker_fee_of, usd_of,
};
use crate::runtime::CryptoArbRuntime;
use crate::services::observability::{DASHBOARD_INTERVAL_MS, StatusSummary, due, status_reported};
use crate::services::pricing::history_of;
use crate::sorting::{inserted, sorted, sorting_sorts, values_of};
use crate::table::{Table, lookup};
use crate::text::{
    i64_to_text, int_text, lex_less, lex_less_orders, owned, same_text, text_before, u64_to_text,
};
use crate::time::{DateTime, secs_between};
use crate::value::{
    comparing_compares_values, difference_is_exact, differences_add_up, is_amount, is_ratio,
    lemma_within_more, min_of, picking_picks_values, product_is_exact, products_multiply,
    quotients_divide, signs_agree, small_products_are_exact, small_sums_are_exact, value,
    value_of_parts,
};
use vstd::prelude::*;
use vstd::string::*;

verus! {

/// `secs` and price of each threshold, parted by `, `.
pub open spec fn thresholds_text(s: Seq<(u64, Decimal)>) -> Seq<char>
    decreases s.len(),
{
    if s.len() == 0 {
        Seq::empty()
    } else {
        let part = int_text(s.last().0 as int) + "s&rarr;"@ + decimal_text(s.last().1);
        if s.len() == 1 {
            part
        } else {
            thresholds_text(s.drop_last()) + ", "@ + part
        }
    }
}

fn format_thresholds(v: &Vec<(u64, Decimal)>) -> (r: String)
    ensures
        r@ == thresholds_text(v@),
{
    let mut out = String::new();
    let mut i: usize = 0;
    assert(out@ =~= Seq::empty());
    while i < v.len()
        invariant
            i <= v@.len(),
            out@ == thresholds_text(v@.take(i as int)),
        decreases v@.len() - i,
    {
        assert(v@.take(i as int + 1).drop_last() =~= v@.take(i as int));
        let mut part = u64_to_text(v[i].0);
        part.append("s&rarr;");
        part.append(v[i].1.to_string().as_str());
        if i == 0 {
            out = part;
        } else {
            out.append(", ");
            out.append(part.as_str());
        }
        i += 1;
    }
    assert(v@.take(i as int) =~= v@);
    out
}

/// The status section.
pub open spec fn status_section(enabled: bool) -> Seq<char> {
    status_html(
        if enabled {
            "<span style=\"color:var(--color-enabled)\">Enabled</span>"@
        } else {
            "<span class=\"bp-text-muted\">Disabled</span>"@
        },
    )
}

/// Renders the status section.
pub fn render_status(enabled: bool) -> (r: String)
    ensures
        r@ == status_section(enabled),
{
    if enabled {
        make_status_html("<span style=\"color:var(--color-enabled)\">Enabled</span>")
    } else {
        make_status_html("<span class=\"bp-text-muted\">Disabled</span>")
    }
}

/// The configuration section. `None` is an overflow.
pub open spec fn config_section(te: TailEndConfig) -> Option<Seq<char>> {
    match (
        times(Some(te.max_recent_volatility), Some(dec(100, 0))),
        times(Some(te.min_strike_distance_pct), Some(dec(100, 0))),
    ) {
        (Some(volatility), Some(strike)) => Some(
            config_card(
                int_text(te.time_threshold_secs as int),
                thresholds_text(te.dynamic_thresholds@),
                te.min_reference_quality.name_of(),
                decimal_text(te.max_spread_bps),
                int_text(te.stale_ob_secs as int),
                int_text(te.min_sustained_secs as int),
                int_text(te.min_sustained_ticks as int),
                decimal_text(volatility),
                decimal_text(strike),
            ),
        ),
        _ => None,
    }
}

/// A text that may fail to come about.
pub open spec fn text_of(r: Result<String, Overflow>) -> Option<Seq<char>> {
    match r {
        Ok(s) => Some(s@),
        Err(_) => None,
    }
}

/// Renders the configuration section.
pub fn render_config(te: &TailEndConfig) -> (r: Result<String, Overflow>)
    ensures
        text_of(r) == config_section(*te),
{
    let volatility: Decimal = te.max_recent_volatility.times(Decimal::new(100, 0))?;
    let strike: Decimal = te.min_strike_distance_pct.times(Decimal::new(100, 0))?;
    Ok(
        make_config_card(
            u64_to_text(te.time_threshold_secs).as_str(),
            format_thresholds(&te.dynamic_thresholds).as_str(),
            te.min_reference_quality.name(),
            te.max_spread_bps.to_string().as_str(),
            i64_to_text(te.stale_ob_secs).as_str(),
            u64_to_text(te.min_sustained_secs).as_str(),
            u64_to_text(te.min_sustained_ticks as u64).as_str(),
            volatility.to_string().as_str(),
            strike.to_string().as_str(),
        ),
    )
}

/// A market whose coin comes before another's.
pub open spec fn by_coin() -> spec_fn(MarketWithReference, MarketWithReference) -> bool {
    |a: MarketWithReference, b: MarketWithReference| lex_less(a.coin@, b.coin@)
}

/// A market that ends before another.
pub open spec fn by_end() -> spec_fn(MarketWithReference, MarketWithReference) -> bool {
    |a: MarketWithReference, b: MarketWithReference|
        a.market.end_date.nanos_of() < b.market.end_date.nanos_of()
}

/// Markets sorted by coin.
pub open spec fn sorted_by_coin(rows: Seq<(Seq<char>, MarketWithReference)>) -> Seq<
    MarketWithReference,
> {
    sorted(by_coin(), rows)
}

/// Markets sorted by end.
pub open spec fn sorted_by_end(rows: Seq<(Seq<char>, MarketWithReference)>) -> Seq<
    MarketWithReference,
> {
    sorted(by_end(), rows)
}

/// Markets sorted by coin are in the order of their coins, and are the same markets, each as
/// often as before.
pub proof fn sorting_by_coin_sorts(rows: Seq<(Seq<char>, MarketWithReference)>)
    ensures
        sorted_by_coin(rows).to_multiset() == values_of(rows).to_multiset(),
        forall|i: int, j: int|
            0 <= i < j < sorted_by_coin(rows).len() ==> !lex_less(
                (#[trigger] sorted_by_coin(rows)[j]).coin@,
                (#[trigger] sorted_by_coin(rows)[i]).coin@,
            ),
{
    assert forall|a: MarketWithReference, b: MarketWithReference| #[trigger]
        by_coin()(a, b) implies !by_coin()(b, a) by {
        lex_less_orders(a.coin@, b.coin@, a.coin@);
    }
    assert forall|a: MarketWithReference, b: MarketWithReference, c: MarketWithReference|
        !(#[trigger] by_coin()(b, a)) && !(#[trigger] by_coin()(c, b)) implies !by_coin()(c, a) by {
        lex_less_orders(a.coin@, b.coin@, c.coin@);
    }
    sorting_sorts(by_coin(), rows);
}

/// Markets sorted by end are in the order of their ends, and are the same markets, each as
/// often as before.
pub proof fn sorting_by_end_sorts(rows: Seq<(Seq<char>, MarketWithReference)>)
    ensures
        sorted_by_end(rows).to_multiset() == values_of(rows).to_multiset(),
        forall|i: int, j: int|
            0 <= i <= j < sorted_by_end(rows).len() ==> (#[trigger] sorted_by_end(
                rows,
            )[i]).market.end_date.nanos_of() <= (#[trigger] sorted_by_end(
                rows,
            )[j]).market.end_date.nanos_of(),
{
    sorting_sorts(by_end(), rows);
}

fn sort_by_coin(table: &Table<MarketWithReference>) -> (r: Vec<MarketWithReference>)
    ensures
        r@ == sorted_by_coin(table.rows()),
{
    let ghost rows = table.rows();
    let mut r: Vec<MarketWithReference> = Vec::new();
    let mut i: usize = 0;
    assert(r@ =~= Seq::empty());
    while i < table.len()
        invariant
            i <= rows.len(),
            rows == table.rows(),
            r@ == sorted_by_coin(rows.take(i as int)),
        decreases rows.len() - i,
    {
        assert(rows.take(i as int + 1).drop_last() =~= rows.take(i as int));
        let m: MarketWithReference = table.value_at(i).clone();
        let ghost s = r@;
        let mut j: usize = r.len();
        assert(s.take(j as int) =~= s);
        assert(inserted(by_coin(), s, m) + s.skip(j as int) =~= inserted(by_coin(), s, m));
        while j > 0 && text_before(m.coin.as_str(), r[j - 1].coin.as_str())
            invariant
                j <= r@.len(),
                s == r@,
                inserted(by_coin(), s, m) =~= inserted(by_coin(), s.take(j as int), m) + s.skip(j as int),
            decreases j,
        {
            assert(s.take(j as int).drop_last() =~= s.take(j as int - 1));
            j -= 1;
        }
        r.insert(j, m);
        assert(r@ =~= inserted(by_coin(), s, m));
        i += 1;
    }
    assert(rows.take(i as int) =~= rows);
    r
}

fn sort_by_end(table: &Table<MarketWithReference>) -> (r: Vec<MarketWithReference>)
    ensures
        r@ == sorted_by_end(table.rows()),
{
    let ghost rows = table.rows();
    let mut r: Vec<MarketWithReference> = Vec::new();
    let mut i: usize = 0;
    assert(r@ =~= Seq::empty());
    while i < table.len()
        invariant
            i <= rows.len(),
            rows == table.rows(),
            r@ == sorted_by_end(rows.take(i as int)),
        decreases rows.len() - i,
    {
        assert(rows.take(i as int + 1).drop_last() =~= rows.take(i as int));
        let m: MarketWithReference = table.value_at(i).clone();
        let ghost s = r@;
        let mut j: usize = r.len();
        assert(s.take(j as int) =~= s);
        assert(inserted(by_end(), s, m) + s.skip(j as int) =~= inserted(by_end(), s, m));
        while j > 0 && m.market.end_date.before(r[j - 1].market.end_date)
            invariant
                j <= r@.len(),
                s == r@,
                inserted(by_end(), s, m) =~= inserted(by_end(), s.take(j as int), m) + s.skip(j as int),
            decreases j,
        {
            assert(s.take(j as int).drop_last() =~= s.take(j as int - 1));
            j -= 1;
        }
        r.insert(j, m);
        assert(r@ =~= inserted(by_end(), s, m));
        i += 1;
    }
    assert(rows.take(i as int) =~= rows);
    r
}

/// The mark of a reference quality.
pub open spec fn quality_mark(q: ReferenceQuality) -> Seq<char> {
    match q {
        ReferenceQuality::OnChain(_) => "\u{2713}"@,
        ReferenceQuality::Exact => "="@,
        ReferenceQuality::Historical(_) => "\u{2248}"@,
        ReferenceQuality::Current => "~"@,
    }
}

fn mark_of(q: ReferenceQuality) -> (r: &'static str)
    ensures
        r@ == quality_mark(q),
{
    match q {
        ReferenceQuality::OnChain(_) => "\u{2713}",
        ReferenceQuality::Exact => "=",
        ReferenceQuality::Historical(_) => "\u{2248}",
        ReferenceQuality::Current => "~",
    }
}

/// A percentage with its sign and two decimals.
pub open spec fn change_text(d: Decimal) -> Seq<char> {
    (if d.mantissa_of() >= 0 {
        "+"@
    } else {
        ""@
    }) + decimal_fixed_text(d, 2) + "%"@
}

/// A percentage with its sign and two decimals.
pub fn format_change(d: Decimal) -> (r: String)
    ensures
        r@ == change_text(d),
{
    let mut s = if d.mantissa() >= 0 {
        owned("+")
    } else {
        owned("")
    };
    s.append(d.to_short(2).as_str());
    s.append("%");
    s
}

/// The change of a price from the reference, in percent; zero for a zero reference.
pub open spec fn change_of(reference: Decimal, current: Decimal) -> Option<Decimal> {
    if reference.mantissa_of() == 0 {
        Some(zero())
    } else {
        times(over(minus(Some(current), Some(reference)), Some(reference)), Some(dec(100, 0)))
    }
}

/// The change of a price from the reference, in percent.
pub fn change_pct(reference: Decimal, current: Decimal) -> (r: Result<Decimal, Overflow>)
    ensures
        ok_of(r) == change_of(reference, current),
{
    if reference.is_zero() {
        return Ok(Decimal::zero());
    }
    current.minus(reference)?.over(reference)?.times(Decimal::new(100, 0))
}

/// Style of a gain or loss.
pub open spec fn gain_class(d: Decimal) -> Seq<char> {
    if at_most(zero(), d) {
        "bp-profit"@
    } else {
        "bp-loss"@
    }
}

/// Style of a gain or loss.
pub fn class_of(d: Decimal) -> (r: &'static str)
    ensures
        r@ == gain_class(d),
{
    if d.ge(Decimal::zero()) {
        "bp-profit"
    } else {
        "bp-loss"
    }
}

/// The predicted outcome.
pub open spec fn prediction_text(reference: Decimal, current: Decimal) -> Seq<char> {
    match winner_of(reference, current) {
        Some(side) => if side.bets_up() {
            "UP"@
        } else {
            "DOWN"@
        },
        None => "-"@,
    }
}

/// The predicted outcome.
pub fn prediction(reference: Decimal, current: Decimal) -> (r: &'static str)
    ensures
        r@ == prediction_text(reference, current),
{
    match predict_side(reference, current) {
        Some(side) => if side.is_up() {
            "UP"
        } else {
            "DOWN"
        },
        None => "-",
    }
}

/// The row of a reference price, given the current price if there is one. `None` is an
/// overflow.
pub open spec fn reference_line(
    coin: Seq<char>,
    mark: Seq<char>,
    reference: Decimal,
    current: Option<Decimal>,
) -> Option<Seq<char>> {
    match current {
        None => Some(
            reference_row(escaped(coin), mark, usd_of(reference), "-"@, ""@, "-"@, "-"@),
        ),
        Some(price) => match change_of(reference, price) {
            None => None,
            Some(change) => Some(
                reference_row(
                    escaped(coin),
                    mark,
                    usd_of(reference),
                    usd_of(price),
                    gain_class(change),
                    change_text(change),
                    prediction_text(reference, price),
                ),
            ),
        },
    }
}

/// The row of a reference price.
pub fn render_reference_line(coin: &str, mark: &str, reference: Decimal, current: Option<Decimal>) -> (r:
    Result<String, Overflow>)
    ensures
        text_of(r) == reference_line(coin@, mark@, reference, current),
{
    match current {
        None => Ok(
            make_reference_row(
                escape_html(coin).as_str(),
                mark,
                fmt_usd(reference).as_str(),
                "-",
                "",
                "-",
                "-",
            ),
        ),
        Some(price) => {
            let change: Decimal = change_pct(reference, price)?;
            Ok(
                make_reference_row(
                    escape_html(coin).as_str(),
                    mark,
                    fmt_usd(reference).as_str(),
                    fmt_usd(price).as_str(),
                    class_of(change),
                    format_change(change).as_str(),
                    prediction(reference, price),
                ),
            )
        },
    }
}

/// The latest price of a coin.
pub open spec fn latest_price(rt: CryptoArbRuntime, coin: Seq<char>) -> Option<Decimal> {
    let s = history_of(rt.price_history.rows(), coin);
    if s.len() > 0 {
        Some(s.last().price)
    } else {
        None
    }
}

/// A coin comes up among markets.
pub open spec fn coin_seen(s: Seq<MarketWithReference>, coin: Seq<char>) -> bool {
    exists|i: int| 0 <= i < s.len() && (#[trigger] s[i]).coin@ == coin
}

/// The rows of the reference table: the first market of each coin. `None` is an overflow.
pub open spec fn reference_rows(rt: CryptoArbRuntime, s: Seq<MarketWithReference>) -> Option<Seq<char>>
    decreases s.len(),
{
    if s.len() == 0 {
        Some(Seq::empty())
    } else {
        let m = s.last();
        let sofar = reference_rows(rt, s.drop_last());
        if coin_seen(s.drop_last(), m.coin@) {
            sofar
        } else {
            match (
                sofar,
                reference_line(
                    m.coin@,
                    quality_mark(m.reference_quality),
                    m.reference_price,
                    latest_price(rt, m.coin@),
                ),
            ) {
                (Some(t), Some(row)) => Some(t + row),
                _ => None,
            }
        }
    }
}

proof fn lemma_reference_rows_overflow(rt: CryptoArbRuntime, s: Seq<MarketWithReference>, n: int)
    requires
        0 <= n <= s.len(),
        reference_rows(rt, s.take(n)) is None,
    ensures
        reference_rows(rt, s) is None,
    decreases s.len(),
{
    if n < s.len() {
        assert(s.drop_last().take(n) =~= s.take(n));
        lemma_reference_rows_overflow(rt, s.drop_last(), n);
    } else {
        assert(s.take(n) =~= s);
    }
}

/// The reference section. `None` is an overflow.
pub open spec fn reference_section(rt: CryptoArbRuntime) -> Option<Seq<char>> {
    if rt.active_markets.rows().len() == 0 {
        Some(
            "<div class=\"bp-card mb-4\"><h2 class=\"bp-section-title\">Reference Prices &amp; Predictions</h2><p class=\"bp-text-muted\">No active markets</p></div>"@,
        )
    } else {
        match reference_rows(rt, sorted_by_coin(rt.active_markets.rows())) {
            Some(rows) => Some(reference_table(rows)),
            None => None,
        }
    }
}

fn has_coin(s: &Vec<MarketWithReference>, n: usize, coin: &str) -> (r: bool)
    requires
        n <= s@.len(),
    ensures
        r == coin_seen(s@.take(n as int), coin@),
{
    let mut i: usize = 0;
    while i < n
        invariant
            i <= n <= s@.len(),
            forall|j: int| 0 <= j < i ==> (#[trigger] s@[j]).coin@ != coin@,
        decreases n - i,
    {
        if same_text(s[i].coin.as_str(), coin) {
            assert(s@.take(n as int)[i as int].coin@ == coin@);
            return true;
        }
        i += 1;
    }
    false
}

/// Renders the reference section.
pub fn render_reference_prices(rt: &CryptoArbRuntime) -> (r: Result<String, Overflow>)
    ensures
        text_of(r) == reference_section(*rt),
{
    if rt.active_markets.len() == 0 {
        return Ok(
            owned(
                "<div class=\"bp-card mb-4\"><h2 class=\"bp-section-title\">Reference Prices &amp; Predictions</h2><p class=\"bp-text-muted\">No active markets</p></div>",
            ),
        );
    }
    let list: Vec<MarketWithReference> = sort_by_coin(&rt.active_markets);
    let mut out = String::new();
    let mut failed: bool = false;
    let mut i: usize = 0;
    assert(out@ =~= Seq::empty());
    while i < list.len() && !failed
        invariant
            i <= list@.len(),
            failed ==> reference_rows(*rt, list@) is None,
            !failed ==> reference_rows(*rt, list@.take(i as int)) == Some(out@),
        decreases list@.len() - i,
    {
        assert(list@.take(i as int + 1).drop_last() =~= list@.take(i as int));
        let m = &list[i];
        if !has_coin(&list, i, m.coin.as_str()) {
            match render_reference_line(
                m.coin.as_str(),
                mark_of(m.reference_quality),
                m.reference_price,
                rt.get_latest_price(m.coin.as_str()),
            ) {
                Ok(row) => {
                    out.append(row.as_str());
                },
                Err(_) => {
                    failed = true;
                    proof {
                        lemma_reference_rows_overflow(*rt, list@, i as int + 1);
                    }
                },
            }
        }
        i += 1;
    }
    if failed {
        return Err(Overflow);
    }
    assert(list@.take(i as int) =~= list@);
    Ok(make_reference_table(out.as_str()))
}

/// A time remaining: seconds up to a minute, else minutes and seconds.
pub open spec fn time_text(remaining: int) -> Seq<char> {
    if remaining > 60 {
        int_text(remaining / 60) + "m "@ + int_text(remaining % 60) + "s"@
    } else {
        int_text(remaining) + "s"@
    }
}

/// A time remaining.
pub fn format_time(remaining: i64) -> (r: String)
    requires
        remaining >= 0,
    ensures
        r@ == time_text(remaining as int),
{
    if remaining > 60 {
        let n: u64 = remaining as u64;
        let mut s = u64_to_text(n / 60);
        s.append("m ");
        s.append(u64_to_text(n % 60).as_str());
        s.append("s");
        s
    } else {
        let mut s = i64_to_text(remaining);
        s.append("s");
        s
    }
}

/// A market price, or a dash.
pub open spec fn ask_text(ask: Option<Decimal>) -> Seq<char> {
    match ask {
        Some(p) => market_price_of(p),
        None => "-"@,
    }
}

/// A market price, or a dash.
pub fn format_ask(ask: Option<Decimal>) -> (r: String)
    ensures
        r@ == ask_text(ask),
{
    match ask {
        Some(p) => fmt_market_price(p),
        None => owned("-"),
    }
}

/// The lower of two asks, if there is one.
pub open spec fn lower_ask(up: Option<Decimal>, down: Option<Decimal>) -> Option<Decimal> {
    match (up, down) {
        (Some(u), Some(d)) => Some(smaller(u, d)),
        (Some(p), None) => Some(p),
        (None, Some(p)) => Some(p),
        (None, None) => None,
    }
}

/// The texts of the fee and the net margin at the lower ask, or dashes. `None` is an
/// overflow.
pub open spec fn margin_texts(up: Option<Decimal>, down: Option<Decimal>, rate: Decimal) -> Option<
    (Seq<char>, Seq<char>),
> {
    match lower_ask(up, down) {
        None => Some(("-"@, "-"@)),
        Some(p) => match (taker_fee_of(p, rate), net_margin_of(p, rate, false)) {
            (Some(fee), Some(net)) => match (
                fixed_text_of(rounded(fee, 3), 3),
                fixed_text_of(rounded(net, 3), 3),
            ) {
                (Some(f), Some(n)) => Some((f, n)),
                _ => None,
            },
            _ => None,
        },
    }
}

/// The texts of the fee and the net margin at the lower ask.
pub fn format_margins(up: Option<Decimal>, down: Option<Decimal>, rate: Decimal) -> (r: Result<
    (String, String),
    Overflow,
>)
    ensures
        match margin_texts(up, down, rate) {
            Some(t) => r is Ok && r->Ok_0.0@ == t.0 && r->Ok_0.1@ == t.1,
            None => r is Err,
        },
{
    let price: Decimal = match (up, down) {
        (Some(u), Some(d)) => u.min(d),
        (Some(p), None) => p,
        (None, Some(p)) => p,
        (None, None) => {
            return Ok((owned("-"), owned("-")));
        },
    };
    let fee: Decimal = checked_taker_fee(price, rate)?;
    let net: Decimal = checked_net_profit_margin(price, rate, false)?;
    Ok((fee.round_dp(3).to_places(3)?, net.round_dp(3).to_places(3)?))
}

/// The row of a market. `None` is an overflow.
pub open spec fn market_line(
    coin: Seq<char>,
    up: Option<Decimal>,
    down: Option<Decimal>,
    rate: Decimal,
    remaining: int,
) -> Option<Seq<char>> {
    match margin_texts(up, down, rate) {
        None => None,
        Some((fee, net)) => Some(
            market_row(
                escaped(coin),
                ask_text(up),
                ask_text(down),
                fee,
                net,
                time_text(
                    if remaining > 0 {
                        remaining
                    } else {
                        0
                    },
                ),
            ),
        ),
    }
}

/// The row of a market.
pub fn render_market_line(
    coin: &str,
    up: Option<Decimal>,
    down: Option<Decimal>,
    rate: Decimal,
    remaining: i64,
) -> (r: Result<String, Overflow>)
    ensures
        text_of(r) == market_line(coin@, up, down, rate, remaining as int),
{
    let (fee, net): (String, String) = format_margins(up, down, rate)?;
    let left: i64 = if remaining > 0 {
        remaining
    } else {
        0
    };
    Ok(
        make_market_row(
            escape_html(coin).as_str(),
            format_ask(up).as_str(),
            format_ask(down).as_str(),
            fee.as_str(),
            net.as_str(),
            format_time(left).as_str(),
        ),
    )
}

/// The rows of the market table. `None` is an overflow.
pub open spec fn market_rows(
    s: Seq<MarketWithReference>,
    asks: Seq<(Seq<char>, Decimal)>,
    rate: Decimal,
    now: DateTime,
) -> Option<Seq<char>>
    decreases s.len(),
{
    if s.len() == 0 {
        Some(Seq::empty())
    } else {
        let m = s.last();
        match (
            market_rows(s.drop_last(), asks, rate, now),
            market_line(
                m.coin@,
                lookup(asks, m.market.token_ids.outcome_a@),
                lookup(asks, m.market.token_ids.outcome_b@),
                rate,
                secs_between(m.market.end_date, now),
            ),
        ) {
            (Some(t), Some(row)) => Some(t + row),
            _ => None,
        }
    }
}

proof fn lemma_market_rows_overflow(
    s: Seq<MarketWithReference>,
    asks: Seq<(Seq<char>, Decimal)>,
    rate: Decimal,
    now: DateTime,
    n: int,
)
    requires
        0 <= n <= s.len(),
        market_rows(s.take(n), asks, rate, now) is None,
    ensures
        market_rows(s, asks, rate, now) is None,
    decreases s.len(),
{
    if n < s.len() {
        assert(s.drop_last().take(n) =~= s.take(n));
        lemma_market_rows_overflow(s.drop_last(), asks, rate, now, n);
    } else {
        assert(s.take(n) =~= s);
    }
}

/// The market section. `None` is an overflow.
pub open spec fn market_section(rt: CryptoArbRuntime, now: DateTime) -> Option<Seq<char>> {
    let rows = rt.active_markets.rows();
    if rows.len() == 0 {
        Some(
            "<div class=\"bp-card mb-4\"><h2 class=\"bp-section-title\">Active Markets (0)</h2><p class=\"bp-text-muted\">No active markets</p></div>"@,
        )
    } else {
        match market_rows(
            sorted_by_end(rows),
            rt.cached_asks.rows(),
            rt.config.fee.taker_fee_rate,
            now,
        ) {
            Some(t) => Some(market_table(int_text(rows.len() as int), t)),
            None => None,
        }
    }
}

/// A value of a table, copied.
pub fn copied(table: &Table<Decimal>, key: &str) -> (r: Option<Decimal>)
    ensures
        r == lookup(table.rows(), key@),
{
    match table.get(key) {
        Some(d) => Some(*d),
        None => None,
    }
}

/// Renders the market section.
pub fn render_markets(rt: &CryptoArbRuntime, now: DateTime) -> (r: Result<String, Overflow>)
    ensures
        text_of(r) == market_section(*rt, now),
{
    if rt.active_markets.len() == 0 {
        return Ok(
            owned(
                "<div class=\"bp-card mb-4\"><h2 class=\"bp-section-title\">Active Markets (0)</h2><p class=\"bp-text-muted\">No active markets</p></div>",
            ),
        );
    }
    let list: Vec<MarketWithReference> = sort_by_end(&rt.active_markets);
    let rate: Decimal = rt.config.fee.taker_fee_rate;
    let mut out = String::new();
    let mut failed: bool = false;
    let mut i: usize = 0;
    assert(out@ =~= Seq::empty());
    while i < list.len() && !failed
        invariant
            i <= list@.len(),
            failed ==> market_rows(list@, rt.cached_asks.rows(), rate, now) is None,
            !failed ==> market_rows(list@.take(i as int), rt.cached_asks.rows(), rate, now) == Some(
                out@,
            ),
        decreases list@.len() - i,
    {
        assert(list@.take(i as int + 1).drop_last() =~= list@.take(i as int));
        let m = &list[i];
        match render_market_line(
            m.coin.as_str(),
            copied(&rt.cached_asks, m.market.token_ids.outcome_a.as_str()),
            copied(&rt.cached_asks, m.market.token_ids.outcome_b.as_str()),
            rate,
            m.market.seconds_remaining_at(now),
        ) {
            Ok(row) => {
                out.append(row.as_str());
            },
            Err(_) => {
                failed = true;
                proof {
                    lemma_market_rows_overflow(
                        list@,
                        rt.cached_asks.rows(),
                        rate,
                        now,
                        i as int + 1,
                    );
                }
            },
        }
        i += 1;
    }
    if failed {
        return Err(Overflow);
    }
    assert(list@.take(i as int) =~= list@);
    Ok(make_market_table(u64_to_text(rt.active_markets.len() as u64).as_str(), out.as_str()))
}

/// The texts of the current price and the open result of a position, with its style, or
/// dashes. `None` is an overflow.
pub open spec fn open_result_texts(
    current: Option<Decimal>,
    entry: Decimal,
    size: Decimal,
    fee_per_share: Decimal,
) -> Option<(Seq<char>, Seq<char>, Seq<char>)> {
    match current {
        None => Some(("-"@, "-"@, ""@)),
        Some(price) => match minus(
            times(minus(Some(price), Some(entry)), Some(size)),
            times(Some(fee_per_share), Some(size)),
        ) {
            None => None,
            Some(pnl) => Some(
                (decimal_text(price), "$"@ + decimal_fixed_text(pnl, 2), gain_class(pnl)),
            ),
        },
    }
}

/// The texts of the current price and the open result of a position, with its style.
pub fn format_open_result(
    current: Option<Decimal>,
    entry: Decimal,
    size: Decimal,
    fee_per_share: Decimal,
) -> (r: Result<(String, String, &'static str), Overflow>)
    ensures
        match open_result_texts(current, entry, size, fee_per_share) {
            Some(t) => r is Ok && r->Ok_0.0@ == t.0 && r->Ok_0.1@ == t.1 && r->Ok_0.2@ == t.2,
            None => r is Err,
        },
{
    match current {
        None => Ok((owned("-"), owned("-"), "")),
        Some(price) => {
            let gain: Decimal = price.minus(entry)?.times(size)?;
            let pnl: Decimal = gain.minus(fee_per_share.times(size)?)?;
            let mut text = owned("$");
            text.append(pnl.to_short(2).as_str());
            Ok((price.to_string(), text, class_of(pnl)))
        },
    }
}

/// The text of a Kelly fraction. `None` is an overflow.
pub open spec fn kelly_text(fraction: Option<Decimal>) -> Option<Seq<char>> {
    match fraction {
        None => Some("fixed"@),
        Some(k) => match times(Some(k), Some(dec(100, 0))) {
            Some(pct) => Some(decimal_fixed_text(pct, 1) + "%"@),
            None => None,
        },
    }
}

/// The text of a Kelly fraction.
pub fn format_kelly(fraction: Option<Decimal>) -> (r: Result<String, Overflow>)
    ensures
        text_of(r) == kelly_text(fraction),
{
    match fraction {
        None => Ok(owned("fixed")),
        Some(k) => {
            let mut s = k.times(Decimal::new(100, 0))?.to_short(1);
            s.append("%");
            Ok(s)
        },
    }
}

/// The row of a position. `None` is an overflow.
pub open spec fn position_line(pos: ArbitragePosition, current: Option<Decimal>) -> Option<Seq<char>> {
    match (
        open_result_texts(current, pos.entry_price, pos.size, pos.entry_fee_per_share),
        kelly_text(pos.kelly_fraction),
    ) {
        (Some((price, pnl, class)), Some(kelly)) => Some(
            position_row(
                escaped(pos.coin@),
                pos.side.name_of(),
                decimal_text(pos.entry_price),
                price,
                class,
                pnl,
                decimal_text(pos.size),
                kelly,
            ),
        ),
        _ => None,
    }
}

/// The rows of the position table. `None` is an overflow.
pub open spec fn position_rows(s: Seq<ArbitragePosition>, asks: Seq<(Seq<char>, Decimal)>) -> Option<
    Seq<char>,
>
    decreases s.len(),
{
    if s.len() == 0 {
        Some(Seq::empty())
    } else {
        match (
            position_rows(s.drop_last(), asks),
            position_line(s.last(), lookup(asks, s.last().token_id@)),
        ) {
            (Some(t), Some(row)) => Some(t + row),
            _ => None,
        }
    }
}

proof fn lemma_position_rows_overflow(
    s: Seq<ArbitragePosition>,
    asks: Seq<(Seq<char>, Decimal)>,
    n: int,
)
    requires
        0 <= n <= s.len(),
        position_rows(s.take(n), asks) is None,
    ensures
        position_rows(s, asks) is None,
    decreases s.len(),
{
    if n < s.len() {
        assert(s.drop_last().take(n) =~= s.take(n));
        lemma_position_rows_overflow(s.drop_last(), asks, n);
    } else {
        assert(s.take(n) =~= s);
    }
}

/// The position section. `None` is an overflow.
pub open spec fn position_section(rt: CryptoArbRuntime) -> Option<Seq<char>> {
    if rt.positions@.len() == 0 {
        Some(
            "<div class=\"bp-card mb-4\"><h2 class=\"bp-section-title\">Open Positions (0)</h2><p class=\"bp-text-muted\">No open positions</p></div>"@,
        )
    } else {
        match position_rows(rt.positions@, rt.cached_asks.rows()) {
            Some(t) => Some(position_table(int_text(rt.positions@.len() as int), t)),
            None => None,
        }
    }
}

fn render_position_line(pos: &ArbitragePosition, current: Option<Decimal>) -> (r: Result<
    String,
    Overflow,
>)
    ensures
        text_of(r) == position_line(*pos, current),
{
    let (price, pnl, class): (String, String, &str) = format_open_result(
        current,
        pos.entry_price,
        pos.size,
        pos.entry_fee_per_share,
    )?;
    let kelly: String = format_kelly(pos.kelly_fraction)?;
    Ok(
        make_position_row(
            escape_html(pos.coin.as_str()).as_str(),
            pos.side.name(),
            pos.entry_price.to_string().as_str(),
            price.as_str(),
            class,
            pnl.as_str(),
            pos.size.to_string().as_str(),
            kelly.as_str(),
        ),
    )
}

/// Renders the position section.
pub fn render_positions(rt: &CryptoArbRuntime) -> (r: Result<String, Overflow>)
    ensures
        text_of(r) == position_section(*rt),
{
    if rt.positions.len() == 0 {
        return Ok(
            owned(
                "<div class=\"bp-card mb-4\"><h2 class=\"bp-section-title\">Open Positions (0)</h2><p class=\"bp-text-muted\">No open positions</p></div>",
            ),
        );
    }
    let ghost s = rt.positions@;
    let mut out = String::new();
    let mut failed: bool = false;
    let mut i: usize = 0;
    assert(out@ =~= Seq::empty());
    while i < rt.positions.len() && !failed
        invariant
            i <= s.len(),
            s == rt.positions@,
            failed ==> position_rows(s, rt.cached_asks.rows()) is None,
            !failed ==> position_rows(s.take(i as int), rt.cached_asks.rows()) == Some(out@),
        decreases s.len() - i,
    {
        assert(s.take(i as int + 1).drop_last() =~= s.take(i as int));
        let pos = &rt.positions[i];
        match render_position_line(pos, copied(&rt.cached_asks, pos.token_id.as_str())) {
            Ok(row) => {
                out.append(row.as_str());
            },
            Err(_) => {
                failed = true;
                proof {
                    lemma_position_rows_overflow(s, rt.cached_asks.rows(), i as int + 1);
                }
            },
        }
        i += 1;
    }
    if failed {
        return Err(Overflow);
    }
    assert(s.take(i as int) =~= s);
    Ok(make_position_table(u64_to_text(rt.positions.len() as u64).as_str(), out.as_str()))
}

/// The mean of the recent results; zero without one.
pub open spec fn average_of(recent: Seq<Decimal>) -> Option<Decimal> {
    if recent.len() == 0 {
        Some(zero())
    } else {
        over(pnl_sum(recent), Some(dec(recent.len() as int, 0)))
    }
}

/// The performance section. `None` is an overflow.
pub open spec fn performance_section(s: StatsView) -> Option<Seq<char>> {
    if s.won + s.lost > u64::MAX {
        None
    } else if s.won + s.lost == 0 {
        Some(
            "<div class=\"bp-card mb-4\"><h2 class=\"bp-section-title\">Performance Stats</h2><p class=\"bp-text-muted\">No trades recorded yet</p></div>"@,
        )
    } else {
        match (times(s.win_rate(), Some(dec(100, 0))), average_of(s.recent)) {
            (Some(rate), Some(average)) => match fixed_text_of(average, 4) {
                Some(mean) => Some(
                    performance_table(
                        int_text(s.won + s.lost),
                        int_text(s.won),
                        int_text(s.lost),
                        decimal_fixed_text(rate, 1),
                        gain_class(s.total),
                        decimal_fixed_text(s.total, 2),
                        mean,
                    ),
                ),
                None => None,
            },
            _ => None,
        }
    }
}

/// Renders the performance section.
pub fn render_performance(stats: &ModeStats) -> (r: Result<String, Overflow>)
    ensures
        text_of(r) == performance_section(stats@),
{
    let (_, won, lost, total): (u64, u64, u64, Decimal) = stats.counts();
    let trades: u64 = match won.checked_add(lost) {
        Some(n) => n,
        None => {
            return Err(Overflow);
        },
    };
    if trades == 0 {
        return Ok(
            owned(
                "<div class=\"bp-card mb-4\"><h2 class=\"bp-section-title\">Performance Stats</h2><p class=\"bp-text-muted\">No trades recorded yet</p></div>",
            ),
        );
    }
    let rate: Decimal = stats.win_rate()?.times(Decimal::new(100, 0))?;
    let average: Decimal = stats.avg_pnl()?;
    Ok(
        make_performance_table(
            u64_to_text(trades).as_str(),
            u64_to_text(won).as_str(),
            u64_to_text(lost).as_str(),
            rate.to_short(1).as_str(),
            class_of(total),
            total.to_short(2).as_str(),
            average.to_places(4)?.as_str(),
        ),
    )
}

/// The dashboard. `None` is an overflow.
pub open spec fn dashboard_html(
    rt: CryptoArbRuntime,
    now: DateTime,
    widths: Seq<(Seq<char>, Seq<char>)>,
) -> Option<Seq<char>> {
    match (
        config_section(rt.config.tailend),
        reference_section(rt),
        market_section(rt, now),
        position_section(rt),
        performance_section(rt.stats@),
    ) {
        (Some(config), Some(references), Some(markets), Some(positions), Some(performance)) => Some(
            status_section(rt.config.enabled) + config + references + markets + positions
                + performance + skips_section(rt.tailend_skip_stats.rows(), widths),
        ),
        _ => None,
    }
}

/// The dashboard of a state.
pub struct CryptoArbDashboard<'a> {
    pub base: &'a CryptoArbRuntime,
}

impl<'a> CryptoArbDashboard<'a> {
    /// The dashboard of a state.
    pub fn new(base: &'a CryptoArbRuntime) -> (r: Self)
        ensures
            r.base == base,
    {
        CryptoArbDashboard { base }
    }

    /// Name of the dashboard's view.
    pub fn view_name(&self) -> (r: &'static str)
        ensures
            r@ == "crypto-arb"@,
    {
        "crypto-arb"
    }

    /// Renders the dashboard. `widths` holds, by skip reason, the width of its bar in
    /// percent of the longest one, with one decimal.
    pub fn render_view(&self, now: DateTime, widths: &Table<String>) -> (r: Result<String, Overflow>)
        ensures
            text_of(r) == dashboard_html(*self.base, now, widths.rows()),
    {
        self.render_view_impl(now, widths)
    }

    /// Renders the sections of the dashboard, one after the other.
    pub fn render_view_impl(&self, now: DateTime, widths: &Table<String>) -> (r: Result<
        String,
        Overflow,
    >)
        ensures
            text_of(r) == dashboard_html(*self.base, now, widths.rows()),
    {
        let rt: &CryptoArbRuntime = self.base;
        let mut html = render_status(rt.config.enabled);
        html.append(render_config(&rt.config.tailend)?.as_str());
        html.append(render_reference_prices(rt)?.as_str());
        html.append(render_markets(rt, now)?.as_str());
        html.append(render_positions(rt)?.as_str());
        html.append(render_performance(&rt.stats)?.as_str());
        html.append(render_skip_stats(&rt.tailend_skip_stats, widths).as_str());
        Ok(html)
    }
}

/// The update of the dashboard, when it is due; nothing when it cannot be rendered.
pub open spec fn dashboard_update(
    rt: CryptoArbRuntime,
    now_ms: u64,
    now: DateTime,
    widths: Seq<(Seq<char>, Seq<char>)>,
) -> Seq<ActionView> {
    match dashboard_html(rt, now, widths) {
        Some(html) => if due(rt.last_dashboard_emit, now_ms, DASHBOARD_INTERVAL_MS) {
            seq![
                ActionView::EmitSignal(
                    SignalView::DashboardUpdate {
                        view_name: "crypto-arb"@,
                        rendered_html: html,
                    },
                ),
            ]
        } else {
            Seq::empty()
        },
        None => Seq::empty(),
    }
}

/// The state once the dashboard was sent out, if it was due.
pub open spec fn dashboard_claimed(rt: CryptoArbRuntime, now_ms: u64) -> CryptoArbRuntime {
    CryptoArbRuntime {
        last_dashboard_emit: if due(rt.last_dashboard_emit, now_ms, DASHBOARD_INTERVAL_MS) {
            Some(now_ms)
        } else {
            rt.last_dashboard_emit
        },
        ..rt
    }
}

/// Ends an event: sends the dashboard out when it is due, then gives the status report when
/// that is due.
pub fn close_event(
    rt: &mut CryptoArbRuntime,
    now_ms: u64,
    now: DateTime,
    widths: &Table<String>,
) -> (r: (Vec<Action>, Option<StatusSummary>))
    ensures
        acts(r.0@) == dashboard_update(*old(rt), now_ms, now, widths.rows()),
        status_reported(dashboard_claimed(*old(rt), now_ms), *final(rt), now_ms, now, r.1),
{
    let actions: Vec<Action> = try_emit_dashboard_updates(rt, now_ms, now, widths);
    let summary: Option<StatusSummary> = rt.maybe_log_status_summary(now_ms, now);
    (actions, summary)
}

/// Sends the dashboard out when it is due.
pub fn try_emit_dashboard_updates(
    rt: &mut CryptoArbRuntime,
    now_ms: u64,
    now: DateTime,
    widths: &Table<String>,
) -> (r: Vec<Action>)
    ensures
        acts(r@) == dashboard_update(*old(rt), now_ms, now, widths.rows()),
        *final(rt) == dashboard_claimed(*old(rt), now_ms),
{
    let mut actions: Vec<Action> = Vec::new();
    let ghost want = dashboard_update(*old(rt), now_ms, now, widths.rows());
    if rt.try_claim_dashboard_emit(now_ms) {
        proof {
            lemma_dashboard_env(*old(rt), *rt, now, widths.rows());
        }
        let provider = CryptoArbDashboard::new(rt);
        match provider.render_view(now, widths) {
            Ok(html) => {
                let view_name: String = owned(provider.view_name());
                actions.push(
                    Action::EmitSignal(Signal::DashboardUpdate { view_name, rendered_html: html }),
                );
            },
            Err(_) => {},
        }
    }
    assert(acts(actions@) =~= want);
    actions
}

/// The dashboard does not show when it was last updated.
proof fn lemma_dashboard_env(
    a: CryptoArbRuntime,
    b: CryptoArbRuntime,
    now: DateTime,
    widths: Seq<(Seq<char>, Seq<char>)>,
)
    requires
        b == (CryptoArbRuntime { last_dashboard_emit: b.last_dashboard_emit, ..a }),
    ensures
        dashboard_html(a, now, widths) == dashboard_html(b, now, widths),
{
    lemma_reference_rows_env(a, b, sorted_by_coin(a.active_markets.rows()));
}

proof fn lemma_reference_rows_env(
    a: CryptoArbRuntime,
    b: CryptoArbRuntime,
    s: Seq<MarketWithReference>,
)
    requires
        b == (CryptoArbRuntime { last_dashboard_emit: b.last_dashboard_emit, ..a }),
    ensures
        reference_rows(a, s) == reference_rows(b, s),
    decreases s.len(),
{
    if s.len() > 0 {
        lemma_reference_rows_env(a, b, s.drop_last());
    }
}

/// The change of a price is the difference from the reference in percent of the reference, up to
/// the 28th digit of the share.
pub proof fn a_change_is_in_percent_of_the_reference(reference: Decimal, current: Decimal)
    requires
        value(reference) > 0 as real,
        difference_is_exact(current, reference),
        change_of(reference, current) is Some,
        product_is_exact(
            quotient_of(difference_of(current, reference)->0, reference)->0,
            dec(100, 0),
        ),
    ensures
        exists|share: real| #[trigger]
            is_ratio(value(current) - value(reference), value(reference), share) && value(
                change_of(reference, current)->0,
            ) == share * (100 as real),
{
    signs_agree(reference);
    differences_add_up(current, reference);
    let off = difference_of(current, reference)->0;
    quotients_divide(off, reference);
    let q = quotient_of(off, reference)->0;
    value_of_parts(100, 0);
    products_multiply(q, dec(100, 0));
    assert(is_ratio(value(current) - value(reference), value(reference), value(q)));
}

/// What is shown of an open position is the current price and what its shares have gained above the
/// entry price, less the fee on each.
pub proof fn an_open_result_is_the_gain_less_the_fee(
    price: Decimal,
    entry: Decimal,
    size: Decimal,
    fee: Decimal,
)
    requires
        is_amount(price),
        is_amount(entry),
        is_amount(size),
        is_amount(fee),
    ensures
        ({
            let shown = open_result_texts(Some(price), entry, size, fee);
            &&& shown is Some && (shown->0).0 == decimal_text(price)
            &&& exists|pnl: Decimal|
                value(pnl) == (value(price) - value(entry)) * value(size) - value(fee) * value(size)
                    && (shown->0).1 == "$"@ + #[trigger] decimal_fixed_text(pnl, 2)
                    && (shown->0).2 == (if value(pnl) >= 0 as real {
                    "bp-profit"@
                } else {
                    "bp-loss"@
                })
        }),
{
    small_sums_are_exact(price, entry, 6, 6);
    let rise = difference_of(price, entry)->0;
    small_products_are_exact(rise, size, 7, 6, 6, 6);
    small_products_are_exact(fee, size, 6, 6, 6, 6);
    let (gain, paid) = (product_of(rise, size)->0, product_of(fee, size)->0);
    lemma_within_more(paid, 12, 12, 13, 12);
    small_sums_are_exact(gain, paid, 13, 12);
    let pnl = difference_of(gain, paid)->0;
    signs_agree(pnl);
    comparing_compares_values(zero(), pnl);
    assert((open_result_texts(Some(price), entry, size, fee)->0).1 == "$"@ + decimal_fixed_text(
        pnl,
        2,
    ));
}

/// The margin of a market is shown at the lower of its asks.
pub proof fn the_lower_ask_is_the_smaller(up: Option<Decimal>, down: Option<Decimal>)
    ensures
        up is Some && down is Some ==> lower_ask(up, down) is Some && value(lower_ask(up, down)->0)
            == min_of(value(up->0), value(down->0)),
        up is Some && down is None ==> lower_ask(up, down) == up,
        up is None ==> lower_ask(up, down) == down,
{
    if up is Some && down is Some {
        picking_picks_values(up->0, down->0);
    }
}

/// The prediction is up for a price above the reference, down for one below, and none at it.
pub proof fn a_prediction_is_the_side_of_the_price(reference: Decimal, current: Decimal)
    ensures
        value(current) > value(reference) ==> prediction_text(reference, current) == "UP"@,
        value(current) < value(reference) ==> prediction_text(reference, current) == "DOWN"@,
        value(current) == value(reference) ==> prediction_text(reference, current) == "-"@,
{
    comparing_compares_values(reference, current);
    comparing_compares_values(current, reference);
}

/// More than a minute is shown in minutes and the seconds beyond them.
pub proof fn a_time_is_shown_in_minutes_and_seconds(minutes: int, seconds: int)
    requires
        minutes >= 1,
        0 <= seconds < 60,
    ensures
        minutes * 60 + seconds > 60 ==> time_text(minutes * 60 + seconds) == int_text(minutes)
            + "m "@ + int_text(seconds) + "s"@,
        time_text(60) == int_text(60) + "s"@,
        time_text(seconds) == int_text(seconds) + "s"@,
{
    assert((minutes * 60 + seconds) / 60 == minutes && (minutes * 60 + seconds) % 60 == seconds);
}

/// The mean of results is their sum over their number, up to the 28th digit.
pub proof fn the_average_is_the_sum_over_the_number(recent: Seq<Decimal>)
    requires
        0 < recent.len() <= u64::MAX,
        average_of(recent) is Some,
    ensures
        pnl_sum(recent) is Some,
        is_ratio(
            value(pnl_sum(recent)->0),
            recent.len() as real,
            value(average_of(recent)->0),
        ),
{
    value_of_parts(recent.len() as int, 0);
    quotients_divide(pnl_sum(recent)->0, dec(recent.len() as int, 0));
}

} // verus!
