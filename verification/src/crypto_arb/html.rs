//! Pieces of the strategy's HTML view.
use crate::text::owned;
use vstd::prelude::*;
use vstd::string::*;

verus! {

/// A row of the reference table.
pub open spec fn plain_reference_row(coin: Seq<char>, label: Seq<char>, reference: Seq<char>, current: Seq<char>, class: Seq<char>, change: Seq<char>, prediction: Seq<char>) -> Seq<char> {
    "<tr class=\"border-b border-gray-800\"><td class=\"py-1\">"@ + coin + "</td><td class=\"text-right py-1\">"@ + label + reference + "</td><td class=\"text-right py-1\">"@ + current + "</td><td class=\"text-right py-1 "@ + class + "\">"@ + change + "</td><td class=\"text-right py-1 font-bold\">"@ + prediction + "</td></tr>"@
}

/// Writes [`plain_reference_row`].
pub fn make_plain_reference_row(coin: &str, label: &str, reference: &str, current: &str, class: &str, change: &str, prediction: &str) -> (r: String)
    ensures
        r@ == plain_reference_row(coin@, label@, reference@, current@, class@, change@, prediction@),
{
    let mut s = owned("<tr class=\"border-b border-gray-800\"><td class=\"py-1\">");
    s.append(coin);
    s.append("</td><td class=\"text-right py-1\">");
    s.append(label);
    s.append(reference);
    s.append("</td><td class=\"text-right py-1\">");
    s.append(current);
    s.append("</td><td class=\"text-right py-1 ");
    s.append(class);
    s.append("\">");
    s.append(change);
    s.append("</td><td class=\"text-right py-1 font-bold\">");
    s.append(prediction);
    s.append("</td></tr>");
    s
}

/// The reference table.
pub open spec fn plain_reference_table(rows: Seq<char>) -> Seq<char> {
    "<div class=\"bg-gray-900 rounded-lg p-4 mb-4\"><h2 class=\"text-lg font-bold mb-3\">Reference Prices &amp; Predictions</h2><table class=\"w-full text-sm\"><thead><tr class=\"text-gray-400 border-b border-gray-800\"><th class=\"text-left py-1\">Coin</th><th class=\"text-right py-1\">Ref Price</th><th class=\"text-right py-1\">Current</th><th class=\"text-right py-1\">Change</th><th class=\"text-right py-1\">Prediction</th></tr></thead><tbody>"@ + rows + "</tbody></table></div>"@
}

/// Writes [`plain_reference_table`].
pub fn make_plain_reference_table(rows: &str) -> (r: String)
    ensures
        r@ == plain_reference_table(rows@),
{
    let mut s = owned("<div class=\"bg-gray-900 rounded-lg p-4 mb-4\"><h2 class=\"text-lg font-bold mb-3\">Reference Prices &amp; Predictions</h2><table class=\"w-full text-sm\"><thead><tr class=\"text-gray-400 border-b border-gray-800\"><th class=\"text-left py-1\">Coin</th><th class=\"text-right py-1\">Ref Price</th><th class=\"text-right py-1\">Current</th><th class=\"text-right py-1\">Change</th><th class=\"text-right py-1\">Prediction</th></tr></thead><tbody>");
    s.append(rows);
    s.append("</tbody></table></div>");
    s
}

/// A row of the market table.
pub open spec fn plain_market_row(coin: Seq<char>, up: Seq<char>, down: Seq<char>, fee: Seq<char>, net: Seq<char>, time: Seq<char>) -> Seq<char> {
    "<tr class=\"border-b border-gray-800\"><td class=\"py-1\">"@ + coin + " Up/Down</td><td class=\"text-right py-1\">"@ + up + "</td><td class=\"text-right py-1\">"@ + down + "</td><td class=\"text-right py-1\">"@ + fee + "</td><td class=\"text-right py-1\">"@ + net + "</td><td class=\"text-right py-1\">"@ + time + "</td></tr>"@
}

/// Writes [`plain_market_row`].
pub fn make_plain_market_row(coin: &str, up: &str, down: &str, fee: &str, net: &str, time: &str) -> (r: String)
    ensures
        r@ == plain_market_row(coin@, up@, down@, fee@, net@, time@),
{
    let mut s = owned("<tr class=\"border-b border-gray-800\"><td class=\"py-1\">");
    s.append(coin);
    s.append(" Up/Down</td><td class=\"text-right py-1\">");
    s.append(up);
    s.append("</td><td class=\"text-right py-1\">");
    s.append(down);
    s.append("</td><td class=\"text-right py-1\">");
    s.append(fee);
    s.append("</td><td class=\"text-right py-1\">");
    s.append(net);
    s.append("</td><td class=\"text-right py-1\">");
    s.append(time);
    s.append("</td></tr>");
    s
}

/// The market table.
pub open spec fn plain_market_table(count: Seq<char>, rows: Seq<char>) -> Seq<char> {
    "<div class=\"bg-gray-900 rounded-lg p-4 mb-4\"><h2 class=\"text-lg font-bold mb-3\">Active Markets ("@ + count + ")</h2><table class=\"w-full text-sm\"><thead><tr class=\"text-gray-400 border-b border-gray-800\"><th class=\"text-left py-1\">Market</th><th class=\"text-right py-1\">UP</th><th class=\"text-right py-1\">DOWN</th><th class=\"text-right py-1\">Fee</th><th class=\"text-right py-1\">Net</th><th class=\"text-right py-1\">Time Left</th></tr></thead><tbody>"@ + rows + "</tbody></table></div>"@
}

/// Writes [`plain_market_table`].
pub fn make_plain_market_table(count: &str, rows: &str) -> (r: String)
    ensures
        r@ == plain_market_table(count@, rows@),
{
    let mut s = owned("<div class=\"bg-gray-900 rounded-lg p-4 mb-4\"><h2 class=\"text-lg font-bold mb-3\">Active Markets (");
    s.append(count);
    s.append(")</h2><table class=\"w-full text-sm\"><thead><tr class=\"text-gray-400 border-b border-gray-800\"><th class=\"text-left py-1\">Market</th><th class=\"text-right py-1\">UP</th><th class=\"text-right py-1\">DOWN</th><th class=\"text-right py-1\">Fee</th><th class=\"text-right py-1\">Net</th><th class=\"text-right py-1\">Time Left</th></tr></thead><tbody>");
    s.append(rows);
    s.append("</tbody></table></div>");
    s
}

/// A row of the position table.
pub open spec fn plain_position_row(coin: Seq<char>, side: Seq<char>, entry: Seq<char>, current: Seq<char>, class: Seq<char>, pnl: Seq<char>, size: Seq<char>) -> Seq<char> {
    "<tr class=\"border-b border-gray-800\"><td class=\"py-1\">"@ + coin + "</td><td class=\"py-1\">"@ + side + "</td><td class=\"text-right py-1\">"@ + entry + "</td><td class=\"text-right py-1\">"@ + current + "</td><td class=\"text-right py-1\"><span class=\""@ + class + "\">"@ + pnl + "</span></td><td class=\"text-right py-1\">"@ + size + "</td></tr>"@
}

/// Writes [`plain_position_row`].
pub fn make_plain_position_row(coin: &str, side: &str, entry: &str, current: &str, class: &str, pnl: &str, size: &str) -> (r: String)
    ensures
        r@ == plain_position_row(coin@, side@, entry@, current@, class@, pnl@, size@),
{
    let mut s = owned("<tr class=\"border-b border-gray-800\"><td class=\"py-1\">");
    s.append(coin);
    s.append("</td><td class=\"py-1\">");
    s.append(side);
    s.append("</td><td class=\"text-right py-1\">");
    s.append(entry);
    s.append("</td><td class=\"text-right py-1\">");
    s.append(current);
    s.append("</td><td class=\"text-right py-1\"><span class=\"");
    s.append(class);
    s.append("\">");
    s.append(pnl);
    s.append("</span></td><td class=\"text-right py-1\">");
    s.append(size);
    s.append("</td></tr>");
    s
}

/// The position table.
pub open spec fn plain_position_table(count: Seq<char>, rows: Seq<char>) -> Seq<char> {
    "<div class=\"bg-gray-900 rounded-lg p-4 mb-4\"><h2 class=\"text-lg font-bold mb-3\">Open Positions ("@ + count + ")</h2><table class=\"w-full text-sm\"><thead><tr class=\"text-gray-400 border-b border-gray-800\"><th class=\"text-left py-1\">Market</th><th class=\"text-left py-1\">Side</th><th class=\"text-right py-1\">Entry</th><th class=\"text-right py-1\">Current</th><th class=\"text-right py-1\">PnL</th><th class=\"text-right py-1\">Size</th></tr></thead><tbody>"@ + rows + "</tbody></table></div>"@
}

/// Writes [`plain_position_table`].
pub fn make_plain_position_table(count: &str, rows: &str) -> (r: String)
    ensures
        r@ == plain_position_table(count@, rows@),
{
    let mut s = owned("<div class=\"bg-gray-900 rounded-lg p-4 mb-4\"><h2 class=\"text-lg font-bold mb-3\">Open Positions (");
    s.append(count);
    s.append(")</h2><table class=\"w-full text-sm\"><thead><tr class=\"text-gray-400 border-b border-gray-800\"><th class=\"text-left py-1\">Market</th><th class=\"text-left py-1\">Side</th><th class=\"text-right py-1\">Entry</th><th class=\"text-right py-1\">Current</th><th class=\"text-right py-1\">PnL</th><th class=\"text-right py-1\">Size</th></tr></thead><tbody>");
    s.append(rows);
    s.append("</tbody></table></div>");
    s
}

} // verus!
