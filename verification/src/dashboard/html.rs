//! Pieces of the dashboard's HTML.
use crate::text::owned;
use vstd::prelude::*;
use vstd::string::*;

verus! {

/// The status card.
pub open spec fn status_html(status: Seq<char>) -> Seq<char> {
    "<div class=\"bp-card mb-4\"><p class=\"bp-text-secondary\" style=\"font-size:0.95rem\">Status: "@ + status + "</p></div>"@
}

/// Writes [`status_html`].
pub fn make_status_html(status: &str) -> (r: String)
    ensures
        r@ == status_html(status@),
{
    let mut s = owned("<div class=\"bp-card mb-4\"><p class=\"bp-text-secondary\" style=\"font-size:0.95rem\">Status: ");
    s.append(status);
    s.append("</p></div>");
    s
}

/// The configuration card.
pub open spec fn config_card(window: Seq<char>, thresholds: Seq<char>, quality: Seq<char>, spread: Seq<char>, stale: Seq<char>, secs: Seq<char>, ticks: Seq<char>, volatility: Seq<char>, strike: Seq<char>) -> Seq<char> {
    "<details class=\"bp-card mb-4\"><summary class=\"bp-section-title\" style=\"cursor:pointer\">Configuration</summary><div class=\"grid grid-cols-2 gap-2\" style=\"font-size:0.95rem\"><div class=\"bp-text-muted\" style=\"grid-column:1/-1;font-weight:600;margin-top:0.25rem\">Entry Timing</div><div class=\"bp-config-label\">Time window:</div><div class=\"bp-config-value\">&lt; "@ + window + "s</div><div class=\"bp-config-label\">Dynamic thresholds:</div><div class=\"bp-config-value\">"@ + thresholds + "</div><div class=\"bp-config-label\">Min ref quality:</div><div class=\"bp-config-value\">"@ + quality + "</div><div class=\"bp-text-muted\" style=\"grid-column:1/-1;font-weight:600;margin-top:0.5rem\">Market Filters</div><div class=\"bp-config-label\">Max spread:</div><div class=\"bp-config-value\">"@ + spread + " bps</div><div class=\"bp-config-label\">Stale OB:</div><div class=\"bp-config-value\">"@ + stale + "s</div><div class=\"bp-config-label\">Sustained:</div><div class=\"bp-config-value\">"@ + secs + "s / "@ + ticks + " ticks</div><div class=\"bp-config-label\">Max volatility:</div><div class=\"bp-config-value\">"@ + volatility + "%</div><div class=\"bp-config-label\">Strike distance:</div><div class=\"bp-config-value\">"@ + strike + "%</div></div></details>"@
}

/// Writes [`config_card`].
pub fn make_config_card(window: &str, thresholds: &str, quality: &str, spread: &str, stale: &str, secs: &str, ticks: &str, volatility: &str, strike: &str) -> (r: String)
    ensures
        r@ == config_card(window@, thresholds@, quality@, spread@, stale@, secs@, ticks@, volatility@, strike@),
{
    let mut s = owned("<details class=\"bp-card mb-4\"><summary class=\"bp-section-title\" style=\"cursor:pointer\">Configuration</summary><div class=\"grid grid-cols-2 gap-2\" style=\"font-size:0.95rem\"><div class=\"bp-text-muted\" style=\"grid-column:1/-1;font-weight:600;margin-top:0.25rem\">Entry Timing</div><div class=\"bp-config-label\">Time window:</div><div class=\"bp-config-value\">&lt; ");
    s.append(window);
    s.append("s</div><div class=\"bp-config-label\">Dynamic thresholds:</div><div class=\"bp-config-value\">");
    s.append(thresholds);
    s.append("</div><div class=\"bp-config-label\">Min ref quality:</div><div class=\"bp-config-value\">");
    s.append(quality);
    s.append("</div><div class=\"bp-text-muted\" style=\"grid-column:1/-1;font-weight:600;margin-top:0.5rem\">Market Filters</div><div class=\"bp-config-label\">Max spread:</div><div class=\"bp-config-value\">");
    s.append(spread);
    s.append(" bps</div><div class=\"bp-config-label\">Stale OB:</div><div class=\"bp-config-value\">");
    s.append(stale);
    s.append("s</div><div class=\"bp-config-label\">Sustained:</div><div class=\"bp-config-value\">");
    s.append(secs);
    s.append("s / ");
    s.append(ticks);
    s.append(" ticks</div><div class=\"bp-config-label\">Max volatility:</div><div class=\"bp-config-value\">");
    s.append(volatility);
    s.append("%</div><div class=\"bp-config-label\">Strike distance:</div><div class=\"bp-config-value\">");
    s.append(strike);
    s.append("%</div></div></details>");
    s
}

/// A row of the reference table.
pub open spec fn reference_row(coin: Seq<char>, label: Seq<char>, reference: Seq<char>, current: Seq<char>, class: Seq<char>, change: Seq<char>, prediction: Seq<char>) -> Seq<char> {
    "<tr><td class=\"py-1\">"@ + coin + "</td><td class=\"text-right py-1\">"@ + label + reference + "</td><td class=\"text-right py-1\">"@ + current + "</td><td class=\"text-right py-1 "@ + class + "\">"@ + change + "</td><td class=\"text-right py-1\" style=\"font-weight:700\">"@ + prediction + "</td></tr>"@
}

/// Writes [`reference_row`].
pub fn make_reference_row(coin: &str, label: &str, reference: &str, current: &str, class: &str, change: &str, prediction: &str) -> (r: String)
    ensures
        r@ == reference_row(coin@, label@, reference@, current@, class@, change@, prediction@),
{
    let mut s = owned("<tr><td class=\"py-1\">");
    s.append(coin);
    s.append("</td><td class=\"text-right py-1\">");
    s.append(label);
    s.append(reference);
    s.append("</td><td class=\"text-right py-1\">");
    s.append(current);
    s.append("</td><td class=\"text-right py-1 ");
    s.append(class);
    s.append("\">");
    s.append(change);
    s.append("</td><td class=\"text-right py-1\" style=\"font-weight:700\">");
    s.append(prediction);
    s.append("</td></tr>");
    s
}

/// The reference table.
pub open spec fn reference_table(rows: Seq<char>) -> Seq<char> {
    "<div class=\"bp-card mb-4\"><h2 class=\"bp-section-title\">Reference Prices &amp; Predictions</h2><table class=\"bp-table\"><thead><tr><th class=\"text-left\">Coin</th><th class=\"text-right\">Ref Price</th><th class=\"text-right\">Current</th><th class=\"text-right\">Change</th><th class=\"text-right\">Pred</th></tr></thead><tbody>"@ + rows + "</tbody></table></div>"@
}

/// Writes [`reference_table`].
pub fn make_reference_table(rows: &str) -> (r: String)
    ensures
        r@ == reference_table(rows@),
{
    let mut s = owned("<div class=\"bp-card mb-4\"><h2 class=\"bp-section-title\">Reference Prices &amp; Predictions</h2><table class=\"bp-table\"><thead><tr><th class=\"text-left\">Coin</th><th class=\"text-right\">Ref Price</th><th class=\"text-right\">Current</th><th class=\"text-right\">Change</th><th class=\"text-right\">Pred</th></tr></thead><tbody>");
    s.append(rows);
    s.append("</tbody></table></div>");
    s
}

/// A row of the market table.
pub open spec fn market_row(coin: Seq<char>, up: Seq<char>, down: Seq<char>, fee: Seq<char>, net: Seq<char>, time: Seq<char>) -> Seq<char> {
    "<tr><td>"@ + coin + " Up/Down</td><td class=\"text-right\">"@ + up + "</td><td class=\"text-right\">"@ + down + "</td><td class=\"text-right\">"@ + fee + "</td><td class=\"text-right\">"@ + net + "</td><td class=\"text-right\">"@ + time + "</td></tr>"@
}

/// Writes [`market_row`].
pub fn make_market_row(coin: &str, up: &str, down: &str, fee: &str, net: &str, time: &str) -> (r: String)
    ensures
        r@ == market_row(coin@, up@, down@, fee@, net@, time@),
{
    let mut s = owned("<tr><td>");
    s.append(coin);
    s.append(" Up/Down</td><td class=\"text-right\">");
    s.append(up);
    s.append("</td><td class=\"text-right\">");
    s.append(down);
    s.append("</td><td class=\"text-right\">");
    s.append(fee);
    s.append("</td><td class=\"text-right\">");
    s.append(net);
    s.append("</td><td class=\"text-right\">");
    s.append(time);
    s.append("</td></tr>");
    s
}

/// The market table.
pub open spec fn market_table(count: Seq<char>, rows: Seq<char>) -> Seq<char> {
    "<div class=\"bp-card mb-4\"><h2 class=\"bp-section-title\">Active Markets ("@ + count + ")</h2><table class=\"bp-table\"><thead><tr><th class=\"text-left\">Market</th><th class=\"text-right\">UP</th><th class=\"text-right\">DOWN</th><th class=\"text-right\">Fee</th><th class=\"text-right\">Net</th><th class=\"text-right\">Time Left</th></tr></thead><tbody>"@ + rows + "</tbody></table></div>"@
}

/// Writes [`market_table`].
pub fn make_market_table(count: &str, rows: &str) -> (r: String)
    ensures
        r@ == market_table(count@, rows@),
{
    let mut s = owned("<div class=\"bp-card mb-4\"><h2 class=\"bp-section-title\">Active Markets (");
    s.append(count);
    s.append(")</h2><table class=\"bp-table\"><thead><tr><th class=\"text-left\">Market</th><th class=\"text-right\">UP</th><th class=\"text-right\">DOWN</th><th class=\"text-right\">Fee</th><th class=\"text-right\">Net</th><th class=\"text-right\">Time Left</th></tr></thead><tbody>");
    s.append(rows);
    s.append("</tbody></table></div>");
    s
}

/// A row of the position table.
pub open spec fn position_row(coin: Seq<char>, side: Seq<char>, entry: Seq<char>, current: Seq<char>, class: Seq<char>, pnl: Seq<char>, size: Seq<char>, kelly: Seq<char>) -> Seq<char> {
    "<tr><td>"@ + coin + "</td><td>"@ + side + "</td><td class=\"text-right\">"@ + entry + "</td><td class=\"text-right\">"@ + current + "</td><td class=\"text-right\"><span class=\""@ + class + "\">"@ + pnl + "</span></td><td class=\"text-right\">"@ + size + "</td><td class=\"text-right\">"@ + kelly + "</td></tr>"@
}

/// Writes [`position_row`].
pub fn make_position_row(coin: &str, side: &str, entry: &str, current: &str, class: &str, pnl: &str, size: &str, kelly: &str) -> (r: String)
    ensures
        r@ == position_row(coin@, side@, entry@, current@, class@, pnl@, size@, kelly@),
{
    let mut s = owned("<tr><td>");
    s.append(coin);
    s.append("</td><td>");
    s.append(side);
    s.append("</td><td class=\"text-right\">");
    s.append(entry);
    s.append("</td><td class=\"text-right\">");
    s.append(current);
    s.append("</td><td class=\"text-right\"><span class=\"");
    s.append(class);
    s.append("\">");
    s.append(pnl);
    s.append("</span></td><td class=\"text-right\">");
    s.append(size);
    s.append("</td><td class=\"text-right\">");
    s.append(kelly);
    s.append("</td></tr>");
    s
}

/// The position table.
pub open spec fn position_table(count: Seq<char>, rows: Seq<char>) -> Seq<char> {
    "<div class=\"bp-card mb-4\"><h2 class=\"bp-section-title\">Open Positions ("@ + count + ")</h2><table class=\"bp-table\"><thead><tr><th class=\"text-left\">Market</th><th class=\"text-left\">Side</th><th class=\"text-right\">Entry</th><th class=\"text-right\">Current</th><th class=\"text-right\">PnL</th><th class=\"text-right\">Size</th><th class=\"text-right\">Kelly</th></tr></thead><tbody>"@ + rows + "</tbody></table></div>"@
}

/// Writes [`position_table`].
pub fn make_position_table(count: &str, rows: &str) -> (r: String)
    ensures
        r@ == position_table(count@, rows@),
{
    let mut s = owned("<div class=\"bp-card mb-4\"><h2 class=\"bp-section-title\">Open Positions (");
    s.append(count);
    s.append(")</h2><table class=\"bp-table\"><thead><tr><th class=\"text-left\">Market</th><th class=\"text-left\">Side</th><th class=\"text-right\">Entry</th><th class=\"text-right\">Current</th><th class=\"text-right\">PnL</th><th class=\"text-right\">Size</th><th class=\"text-right\">Kelly</th></tr></thead><tbody>");
    s.append(rows);
    s.append("</tbody></table></div>");
    s
}

/// The performance table.
pub open spec fn performance_table(trades: Seq<char>, won: Seq<char>, lost: Seq<char>, rate: Seq<char>, class: Seq<char>, total: Seq<char>, average: Seq<char>) -> Seq<char> {
    "<div class=\"bp-card mb-4\"><h2 class=\"bp-section-title\">Performance Stats</h2><table class=\"bp-table\"><thead><tr><th class=\"text-right\">Trades</th><th class=\"text-right\">Won</th><th class=\"text-right\">Lost</th><th class=\"text-right\">Win Rate</th><th class=\"text-right\">Total P&amp;L</th><th class=\"text-right\">Avg P&amp;L</th></tr></thead><tbody><tr><td class=\"text-right\">"@ + trades + "</td><td class=\"text-right\">"@ + won + "</td><td class=\"text-right\">"@ + lost + "</td><td class=\"text-right\">"@ + rate + "%</td><td class=\"text-right "@ + class + "\">$"@ + total + "</td><td class=\"text-right\">$"@ + average + "</td></tr></tbody></table></div>"@
}

/// Writes [`performance_table`].
pub fn make_performance_table(trades: &str, won: &str, lost: &str, rate: &str, class: &str, total: &str, average: &str) -> (r: String)
    ensures
        r@ == performance_table(trades@, won@, lost@, rate@, class@, total@, average@),
{
    let mut s = owned("<div class=\"bp-card mb-4\"><h2 class=\"bp-section-title\">Performance Stats</h2><table class=\"bp-table\"><thead><tr><th class=\"text-right\">Trades</th><th class=\"text-right\">Won</th><th class=\"text-right\">Lost</th><th class=\"text-right\">Win Rate</th><th class=\"text-right\">Total P&amp;L</th><th class=\"text-right\">Avg P&amp;L</th></tr></thead><tbody><tr><td class=\"text-right\">");
    s.append(trades);
    s.append("</td><td class=\"text-right\">");
    s.append(won);
    s.append("</td><td class=\"text-right\">");
    s.append(lost);
    s.append("</td><td class=\"text-right\">");
    s.append(rate);
    s.append("%</td><td class=\"text-right ");
    s.append(class);
    s.append("\">$");
    s.append(total);
    s.append("</td><td class=\"text-right\">$");
    s.append(average);
    s.append("</td></tr></tbody></table></div>");
    s
}

/// The header of a group of skip reasons.
pub open spec fn skip_header(label: Seq<char>) -> Seq<char> {
    "<div class=\"bp-skip-group-header\">"@ + label + "</div>"@
}

/// Writes [`skip_header`].
pub fn make_skip_header(label: &str) -> (r: String)
    ensures
        r@ == skip_header(label@),
{
    let mut s = owned("<div class=\"bp-skip-group-header\">");
    s.append(label);
    s.append("</div>");
    s
}

/// A bar of the skip chart.
pub open spec fn skip_bar(tooltip: Seq<char>, label: Seq<char>, suffix: Seq<char>, width: Seq<char>, count: Seq<char>) -> Seq<char> {
    "<div class=\"bp-skip-row\"><span class=\"bp-skip-label\" title=\""@ + tooltip + "\">"@ + label + "</span><div class=\"bp-skip-bar-track\"><div class=\"bp-skip-bar-fill bp-skip-bar-fill--"@ + suffix + "\" style=\"width:"@ + width + "%\"></div></div><span class=\"bp-skip-count\">"@ + count + "</span></div>"@
}

/// Writes [`skip_bar`].
pub fn make_skip_bar(tooltip: &str, label: &str, suffix: &str, width: &str, count: &str) -> (r: String)
    ensures
        r@ == skip_bar(tooltip@, label@, suffix@, width@, count@),
{
    let mut s = owned("<div class=\"bp-skip-row\"><span class=\"bp-skip-label\" title=\"");
    s.append(tooltip);
    s.append("\">");
    s.append(label);
    s.append("</span><div class=\"bp-skip-bar-track\"><div class=\"bp-skip-bar-fill bp-skip-bar-fill--");
    s.append(suffix);
    s.append("\" style=\"width:");
    s.append(width);
    s.append("%\"></div></div><span class=\"bp-skip-count\">");
    s.append(count);
    s.append("</span></div>");
    s
}

/// The skip chart.
pub open spec fn skip_chart(bars: Seq<char>) -> Seq<char> {
    "<div class=\"bp-card mb-4\"><h2 class=\"bp-section-title\">Skip Reasons (last 60s)</h2><div class=\"bp-skip-chart\">"@ + bars + "</div></div>"@
}

/// Writes [`skip_chart`].
pub fn make_skip_chart(bars: &str) -> (r: String)
    ensures
        r@ == skip_chart(bars@),
{
    let mut s = owned("<div class=\"bp-card mb-4\"><h2 class=\"bp-section-title\">Skip Reasons (last 60s)</h2><div class=\"bp-skip-chart\">");
    s.append(bars);
    s.append("</div></div>");
    s
}

} // verus!
