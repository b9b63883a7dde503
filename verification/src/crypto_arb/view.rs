//! The view of the combined strategy.
use crate::crypto_arb::html::{
    make_plain_market_row, make_plain_market_table, make_plain_position_row,
    make_plain_position_table, make_plain_reference_row, make_plain_reference_table,
    plain_market_row, plain_market_table, plain_position_row, plain_position_table,
    plain_reference_row, plain_reference_table,
};
use crate::crypto_arb::rules::latest_in;
use crate::crypto_arb::strategy::CryptoArbitrageStrategy;
use crate::crypto_arb::types::{ArbitragePosition, MarketWithReference};
use crate::dashboard::view::{
    ask_text, change_of, change_pct, change_text, copied, format_ask, format_change,
    format_margins, format_time, margin_texts, prediction, prediction_text, text_of, time_text,
};
use crate::decimal::{
    Decimal, Overflow, at_most, decimal_fixed_text, decimal_text, difference_of, minus, product_of,
    times, zero,
};
use crate::fee_math::{escape_html, escaped, fmt_usd, usd_of};
use crate::runtime::PriceEntry;
use crate::sorting::{inserted, sorted, sorting_sorts, values_of};
use crate::table::{Table, lookup};
use crate::text::{int_text, lex_less, lex_less_orders, owned, same_text, text_before, u64_to_text};
use crate::time::{DateTime, secs_between};
use crate::value::{
    comparing_compares_values, is_amount, signs_agree, small_products_are_exact,
    small_sums_are_exact, value,
};
use vstd::prelude::*;
use vstd::string::*;

verus! {

/// A market whose coin comes before another's.
pub open spec fn by_coin() -> spec_fn(MarketWithReference, MarketWithReference) -> bool {
    |a: MarketWithReference, b: MarketWithReference| lex_less(a.coin@, b.coin@)
}

/// A market that ends before another.
pub open spec fn by_end() -> spec_fn(MarketWithReference, MarketWithReference) -> bool {
    |a: MarketWithReference, b: MarketWithReference|
        a.market.end_date.nanos_of() < b.market.end_date.nanos_of()
}

/// Markets ordered by coin.
pub open spec fn ordered_by_coin(rows: Seq<(Seq<char>, MarketWithReference)>) -> Seq<
    MarketWithReference,
> {
    sorted(by_coin(), rows)
}

/// Markets ordered by end.
pub open spec fn ordered_by_end(rows: Seq<(Seq<char>, MarketWithReference)>) -> Seq<
    MarketWithReference,
> {
    sorted(by_end(), rows)
}

/// Markets ordered by coin are in the order of their coins, and are the same markets, each as
/// often as before.
pub proof fn ordering_by_coin_sorts(rows: Seq<(Seq<char>, MarketWithReference)>)
    ensures
        ordered_by_coin(rows).to_multiset() == values_of(rows).to_multiset(),
        forall|i: int, j: int|
            0 <= i < j < ordered_by_coin(rows).len() ==> !lex_less(
                (#[trigger] ordered_by_coin(rows)[j]).coin@,
                (#[trigger] ordered_by_coin(rows)[i]).coin@,
            ),
{
    assert forall|a: MarketWithReference, b: MarketWithReference| #[trigger]
        by_coin()(a, b) implies !by_coin()(b, a) by {
        lex_less_orders(a.coin@, b.coin@, a.coin@);
    }
    assert forall|a: MarketWithReference, b: MarketWithReference, c: MarketWithReference|
        !(#[trigger] by_coin()(b, a)) && !(#[trigger] by_coin()(c, b)) implies !by_coin()(c, a) by {
        lex_less_orders(a.coin@, b.coin@, c.coin@);
    }
    sorting_sorts(by_coin(), rows);
}

/// Markets ordered by end are in the order of their ends, and are the same markets, each as
/// often as before.
pub proof fn ordering_by_end_sorts(rows: Seq<(Seq<char>, MarketWithReference)>)
    ensures
        ordered_by_end(rows).to_multiset() == values_of(rows).to_multiset(),
        forall|i: int, j: int|
            0 <= i <= j < ordered_by_end(rows).len() ==> (#[trigger] ordered_by_end(
                rows,
            )[i]).market.end_date.nanos_of() <= (#[trigger] ordered_by_end(
                rows,
            )[j]).market.end_date.nanos_of(),
{
    sorting_sorts(by_end(), rows);
}

/// Markets ordered by coin.
fn order_by_coin(table: &Table<MarketWithReference>) -> (r: Vec<MarketWithReference>)
    ensures
        r@ == ordered_by_coin(table.rows()),
{
    let ghost rows = table.rows();
    let mut r: Vec<MarketWithReference> = Vec::new();
    let mut i: usize = 0;
    assert(r@ =~= Seq::empty());
    while i < table.len()
        invariant
            i <= rows.len(),
            rows == table.rows(),
            r@ == ordered_by_coin(rows.take(i as int)),
        decreases rows.len() - i,
    {
        assert(rows.take(i as int + 1).drop_last() =~= rows.take(i as int));
        let m: MarketWithReference = table.value_at(i).clone();
        let ghost s = r@;
        let mut j: usize = r.len();
        assert(s.take(j as int) =~= s);
        assert(inserted(by_coin(), s, m) + s.skip(j as int) =~= inserted(by_coin(), s, m));
        while j > 0 && text_before(m.coin.as_str(), r[j - 1].coin.as_str())
            invariant
                j <= r@.len(),
                s == r@,
                inserted(by_coin(), s, m) =~= inserted(by_coin(), s.take(j as int), m) + s.skip(j as int),
            decreases j,
        {
            assert(s.take(j as int).drop_last() =~= s.take(j as int - 1));
            j -= 1;
        }
        r.insert(j, m);
        assert(r@ =~= inserted(by_coin(), s, m));
        i += 1;
    }
    assert(rows.take(i as int) =~= rows);
    r
}

/// Markets ordered by end.
fn order_by_end(table: &Table<MarketWithReference>) -> (r: Vec<MarketWithReference>)
    ensures
        r@ == ordered_by_end(table.rows()),
{
    let ghost rows = table.rows();
    let mut r: Vec<MarketWithReference> = Vec::new();
    let mut i: usize = 0;
    assert(r@ =~= Seq::empty());
    while i < table.len()
        invariant
            i <= rows.len(),
            rows == table.rows(),
            r@ == ordered_by_end(rows.take(i as int)),
        decreases rows.len() - i,
    {
        assert(rows.take(i as int + 1).drop_last() =~= rows.take(i as int));
        let m: MarketWithReference = table.value_at(i).clone();
        let ghost s = r@;
        let mut j: usize = r.len();
        assert(s.take(j as int) =~= s);
        assert(inserted(by_end(), s, m) + s.skip(j as int) =~= inserted(by_end(), s, m));
        while j > 0 && m.market.end_date.before(r[j - 1].market.end_date)
            invariant
                j <= r@.len(),
                s == r@,
                inserted(by_end(), s, m) =~= inserted(by_end(), s.take(j as int), m) + s.skip(j as int),
            decreases j,
        {
            assert(s.take(j as int).drop_last() =~= s.take(j as int - 1));
            j -= 1;
        }
        r.insert(j, m);
        assert(r@ =~= inserted(by_end(), s, m));
        i += 1;
    }
    assert(rows.take(i as int) =~= rows);
    r
}

/// Style of a gain or loss.
pub open spec fn sign_class(d: Decimal) -> Seq<char> {
    if at_most(zero(), d) {
        "pnl-positive"@
    } else {
        "pnl-negative"@
    }
}

fn sign_class_of(d: Decimal) -> (r: &'static str)
    ensures
        r@ == sign_class(d),
{
    if d.ge(Decimal::zero()) {
        "pnl-positive"
    } else {
        "pnl-negative"
    }
}

/// The row of a reference price, given the current price if there is one. `None` is an
/// overflow.
pub open spec fn coin_line(
    coin: Seq<char>,
    mark: Seq<char>,
    reference: Decimal,
    current: Option<Decimal>,
) -> Option<Seq<char>> {
    match current {
        None => Some(
            plain_reference_row(escaped(coin), mark, usd_of(reference), "-"@, ""@, "-"@, "-"@),
        ),
        Some(price) => match change_of(reference, price) {
            None => None,
            Some(change) => Some(
                plain_reference_row(
                    escaped(coin),
                    mark,
                    usd_of(reference),
                    usd_of(price),
                    sign_class(change),
                    change_text(change),
                    prediction_text(reference, price),
                ),
            ),
        },
    }
}

/// The row of a reference price.
pub fn render_coin_line(coin: &str, mark: &str, reference: Decimal, current: Option<Decimal>) -> (r:
    Result<String, Overflow>)
    ensures
        text_of(r) == coin_line(coin@, mark@, reference, current),
{
    match current {
        None => Ok(
            make_plain_reference_row(
                escape_html(coin).as_str(),
                mark,
                fmt_usd(reference).as_str(),
                "-",
                "",
                "-",
                "-",
            ),
        ),
        Some(price) => {
            let change: Decimal = change_pct(reference, price)?;
            Ok(
                make_plain_reference_row(
                    escape_html(coin).as_str(),
                    mark,
                    fmt_usd(reference).as_str(),
                    fmt_usd(price).as_str(),
                    sign_class_of(change),
                    format_change(change).as_str(),
                    prediction(reference, price),
                ),
            )
        },
    }
}

/// A coin comes up among markets.
pub open spec fn coin_listed(s: Seq<MarketWithReference>, coin: Seq<char>) -> bool {
    exists|i: int| 0 <= i < s.len() && (#[trigger] s[i]).coin@ == coin
}

/// The rows of the reference table: the first market of each coin. `None` is an overflow.
pub open spec fn coin_rows(history: Seq<(Seq<char>, Seq<PriceEntry>)>, s: Seq<MarketWithReference>) -> Option<Seq<char>>
    decreases s.len(),
{
    if s.len() == 0 {
        Some(Seq::empty())
    } else {
        let m = s.last();
        let sofar = coin_rows(history, s.drop_last());
        if coin_listed(s.drop_last(), m.coin@) {
            sofar
        } else {
            match (
                sofar,
                coin_line(
                    m.coin@,
                    m.reference_quality.mark_of(),
                    m.reference_price,
                    latest_in(history, m.coin@),
                ),
            ) {
                (Some(t), Some(row)) => Some(t + row),
                _ => None,
            }
        }
    }
}

proof fn lemma_coin_rows_overflow(history: Seq<(Seq<char>, Seq<PriceEntry>)>, s: Seq<MarketWithReference>, n: int)
    requires
        0 <= n <= s.len(),
        coin_rows(history, s.take(n)) is None,
    ensures
        coin_rows(history, s) is None,
    decreases s.len(),
{
    if n < s.len() {
        assert(s.drop_last().take(n) =~= s.take(n));
        lemma_coin_rows_overflow(history, s.drop_last(), n);
    } else {
        assert(s.take(n) =~= s);
    }
}

/// The reference section. `None` is an overflow.
pub open spec fn coin_section(strategy: CryptoArbitrageStrategy) -> Option<Seq<char>> {
    if strategy.active_markets.rows().len() == 0 {
        Some(
            "<div class=\"bg-gray-900 rounded-lg p-4 mb-4\"><h2 class=\"text-lg font-bold mb-3\">Reference Prices &amp; Predictions</h2><p class=\"text-gray-500\">No active markets</p></div>"@,
        )
    } else {
        match coin_rows(strategy.price_history.rows(), ordered_by_coin(strategy.active_markets.rows())) {
            Some(rows) => Some(plain_reference_table(rows)),
            None => None,
        }
    }
}

fn has_coin(s: &Vec<MarketWithReference>, n: usize, coin: &str) -> (r: bool)
    requires
        n <= s@.len(),
    ensures
        r == coin_listed(s@.take(n as int), coin@),
{
    let mut i: usize = 0;
    while i < n
        invariant
            i <= n <= s@.len(),
            forall|j: int| 0 <= j < i ==> (#[trigger] s@[j]).coin@ != coin@,
        decreases n - i,
    {
        if same_text(s[i].coin.as_str(), coin) {
            assert(s@.take(n as int)[i as int].coin@ == coin@);
            return true;
        }
        i += 1;
    }
    false
}

/// Renders the reference section.
pub fn render_coins(strategy: &CryptoArbitrageStrategy) -> (r: Result<String, Overflow>)
    ensures
        text_of(r) == coin_section(*strategy),
{
    if strategy.active_markets.len() == 0 {
        return Ok(
            owned(
                "<div class=\"bg-gray-900 rounded-lg p-4 mb-4\"><h2 class=\"text-lg font-bold mb-3\">Reference Prices &amp; Predictions</h2><p class=\"text-gray-500\">No active markets</p></div>",
            ),
        );
    }
    let list: Vec<MarketWithReference> = order_by_coin(&strategy.active_markets);
    let mut out = String::new();
    let mut failed: bool = false;
    let mut i: usize = 0;
    assert(out@ =~= Seq::empty());
    while i < list.len() && !failed
        invariant
            i <= list@.len(),
            failed ==> coin_rows(strategy.price_history.rows(), list@) is None,
            !failed ==> coin_rows(strategy.price_history.rows(), list@.take(i as int)) == Some(out@),
        decreases list@.len() - i,
    {
        assert(list@.take(i as int + 1).drop_last() =~= list@.take(i as int));
        let m = &list[i];
        if !has_coin(&list, i, m.coin.as_str()) {
            match render_coin_line(
                m.coin.as_str(),
                m.reference_quality.mark(),
                m.reference_price,
                strategy.get_latest_price(m.coin.as_str()),
            ) {
                Ok(row) => {
                    out.append(row.as_str());
                },
                Err(_) => {
                    failed = true;
                    proof {
                        lemma_coin_rows_overflow(strategy.price_history.rows(), list@, i as int + 1);
                    }
                },
            }
        }
        i += 1;
    }
    if failed {
        return Err(Overflow);
    }
    assert(list@.take(i as int) =~= list@);
    Ok(make_plain_reference_table(out.as_str()))
}

/// The row of a market. `None` is an overflow.
pub open spec fn plain_market_line(
    coin: Seq<char>,
    up: Option<Decimal>,
    down: Option<Decimal>,
    rate: Decimal,
    remaining: int,
) -> Option<Seq<char>> {
    match margin_texts(up, down, rate) {
        None => None,
        Some((fee, net)) => Some(
            plain_market_row(
                escaped(coin),
                ask_text(up),
                ask_text(down),
                fee,
                net,
                time_text(
                    if remaining > 0 {
                        remaining
                    } else {
                        0
                    },
                ),
            ),
        ),
    }
}

/// The row of a market.
pub fn render_active_line(
    coin: &str,
    up: Option<Decimal>,
    down: Option<Decimal>,
    rate: Decimal,
    remaining: i64,
) -> (r: Result<String, Overflow>)
    ensures
        text_of(r) == plain_market_line(coin@, up, down, rate, remaining as int),
{
    let (fee, net): (String, String) = format_margins(up, down, rate)?;
    let left: i64 = if remaining > 0 {
        remaining
    } else {
        0
    };
    Ok(
        make_plain_market_row(
            escape_html(coin).as_str(),
            format_ask(up).as_str(),
            format_ask(down).as_str(),
            fee.as_str(),
            net.as_str(),
            format_time(left).as_str(),
        ),
    )
}

/// The rows of the market table. `None` is an overflow.
pub open spec fn plain_market_rows(
    s: Seq<MarketWithReference>,
    asks: Seq<(Seq<char>, Decimal)>,
    rate: Decimal,
    now: DateTime,
) -> Option<Seq<char>>
    decreases s.len(),
{
    if s.len() == 0 {
        Some(Seq::empty())
    } else {
        let m = s.last();
        match (
            plain_market_rows(s.drop_last(), asks, rate, now),
            plain_market_line(
                m.coin@,
                lookup(asks, m.market.token_ids.outcome_a@),
                lookup(asks, m.market.token_ids.outcome_b@),
                rate,
                secs_between(m.market.end_date, now),
            ),
        ) {
            (Some(t), Some(row)) => Some(t + row),
            _ => None,
        }
    }
}

proof fn lemma_plain_market_rows_overflow(
    s: Seq<MarketWithReference>,
    asks: Seq<(Seq<char>, Decimal)>,
    rate: Decimal,
    now: DateTime,
    n: int,
)
    requires
        0 <= n <= s.len(),
        plain_market_rows(s.take(n), asks, rate, now) is None,
    ensures
        plain_market_rows(s, asks, rate, now) is None,
    decreases s.len(),
{
    if n < s.len() {
        assert(s.drop_last().take(n) =~= s.take(n));
        lemma_plain_market_rows_overflow(s.drop_last(), asks, rate, now, n);
    } else {
        assert(s.take(n) =~= s);
    }
}

/// The market section. `None` is an overflow.
pub open spec fn plain_market_section(strategy: CryptoArbitrageStrategy, now: DateTime) -> Option<Seq<char>> {
    let rows = strategy.active_markets.rows();
    if rows.len() == 0 {
        Some(
            "<div class=\"bg-gray-900 rounded-lg p-4 mb-4\"><h2 class=\"text-lg font-bold mb-3\">Active Markets (0)</h2><p class=\"text-gray-500\">No active markets</p></div>"@,
        )
    } else {
        match plain_market_rows(
            ordered_by_end(rows),
            strategy.cached_asks.rows(),
            strategy.config.fee.taker_fee_rate,
            now,
        ) {
            Some(t) => Some(plain_market_table(int_text(rows.len() as int), t)),
            None => None,
        }
    }
}

/// Renders the market section.
pub fn render_active(strategy: &CryptoArbitrageStrategy, now: DateTime) -> (r: Result<String, Overflow>)
    ensures
        text_of(r) == plain_market_section(*strategy, now),
{
    if strategy.active_markets.len() == 0 {
        return Ok(
            owned(
                "<div class=\"bg-gray-900 rounded-lg p-4 mb-4\"><h2 class=\"text-lg font-bold mb-3\">Active Markets (0)</h2><p class=\"text-gray-500\">No active markets</p></div>",
            ),
        );
    }
    let list: Vec<MarketWithReference> = order_by_end(&strategy.active_markets);
    let rate: Decimal = strategy.config.fee.taker_fee_rate;
    let mut out = String::new();
    let mut failed: bool = false;
    let mut i: usize = 0;
    assert(out@ =~= Seq::empty());
    while i < list.len() && !failed
        invariant
            i <= list@.len(),
            failed ==> plain_market_rows(list@, strategy.cached_asks.rows(), rate, now) is None,
            !failed ==> plain_market_rows(list@.take(i as int), strategy.cached_asks.rows(), rate, now) == Some(
                out@,
            ),
        decreases list@.len() - i,
    {
        assert(list@.take(i as int + 1).drop_last() =~= list@.take(i as int));
        let m = &list[i];
        match render_active_line(
            m.coin.as_str(),
            copied(&strategy.cached_asks, m.market.token_ids.outcome_a.as_str()),
            copied(&strategy.cached_asks, m.market.token_ids.outcome_b.as_str()),
            rate,
            m.market.seconds_remaining_at(now),
        ) {
            Ok(row) => {
                out.append(row.as_str());
            },
            Err(_) => {
                failed = true;
                proof {
                    lemma_plain_market_rows_overflow(
                        list@,
                        strategy.cached_asks.rows(),
                        rate,
                        now,
                        i as int + 1,
                    );
                }
            },
        }
        i += 1;
    }
    if failed {
        return Err(Overflow);
    }
    assert(list@.take(i as int) =~= list@);
    Ok(make_plain_market_table(u64_to_text(strategy.active_markets.len() as u64).as_str(), out.as_str()))
}

/// The texts of the current price and the open result of a position, with its style, or
/// dashes. `None` is an overflow.
pub open spec fn result_texts(current: Option<Decimal>, entry: Decimal, size: Decimal) -> Option<
    (Seq<char>, Seq<char>, Seq<char>),
> {
    match current {
        None => Some(("-"@, "-"@, ""@)),
        Some(price) => match times(minus(Some(price), Some(entry)), Some(size)) {
            None => None,
            Some(pnl) => Some(
                (decimal_text(price), "$"@ + decimal_fixed_text(pnl, 2), sign_class(pnl)),
            ),
        },
    }
}

fn format_result(current: Option<Decimal>, entry: Decimal, size: Decimal) -> (r: Result<
    (String, String, &'static str),
    Overflow,
>)
    ensures
        match result_texts(current, entry, size) {
            Some(t) => r is Ok && r->Ok_0.0@ == t.0 && r->Ok_0.1@ == t.1 && r->Ok_0.2@ == t.2,
            None => r is Err,
        },
{
    match current {
        None => Ok((owned("-"), owned("-"), "")),
        Some(price) => {
            let pnl: Decimal = price.minus(entry)?.times(size)?;
            let mut text = owned("$");
            text.append(pnl.to_short(2).as_str());
            Ok((price.to_string(), text, sign_class_of(pnl)))
        },
    }
}

/// The row of a position. `None` is an overflow.
pub open spec fn held_line(pos: ArbitragePosition, current: Option<Decimal>) -> Option<Seq<char>> {
    match result_texts(current, pos.entry_price, pos.size) {
        Some((price, pnl, class)) => Some(
            plain_position_row(
                escaped(pos.coin@),
                pos.side.name_of(),
                decimal_text(pos.entry_price),
                price,
                class,
                pnl,
                decimal_text(pos.size),
            ),
        ),
        None => None,
    }
}

/// The rows of the position table. `None` is an overflow.
pub open spec fn held_rows(s: Seq<ArbitragePosition>, asks: Seq<(Seq<char>, Decimal)>) -> Option<
    Seq<char>,
>
    decreases s.len(),
{
    if s.len() == 0 {
        Some(Seq::empty())
    } else {
        match (
            held_rows(s.drop_last(), asks),
            held_line(s.last(), lookup(asks, s.last().token_id@)),
        ) {
            (Some(t), Some(row)) => Some(t + row),
            _ => None,
        }
    }
}

proof fn lemma_held_rows_overflow(
    s: Seq<ArbitragePosition>,
    asks: Seq<(Seq<char>, Decimal)>,
    n: int,
)
    requires
        0 <= n <= s.len(),
        held_rows(s.take(n), asks) is None,
    ensures
        held_rows(s, asks) is None,
    decreases s.len(),
{
    if n < s.len() {
        assert(s.drop_last().take(n) =~= s.take(n));
        lemma_held_rows_overflow(s.drop_last(), asks, n);
    } else {
        assert(s.take(n) =~= s);
    }
}

/// The position section. `None` is an overflow.
pub open spec fn held_section(strategy: CryptoArbitrageStrategy) -> Option<Seq<char>> {
    if strategy.positions@.len() == 0 {
        Some(
            "<div class=\"bg-gray-900 rounded-lg p-4 mb-4\"><h2 class=\"text-lg font-bold mb-3\">Open Positions (0)</h2><p class=\"text-gray-500\">No open positions</p></div>"@,
        )
    } else {
        match held_rows(strategy.positions@, strategy.cached_asks.rows()) {
            Some(t) => Some(plain_position_table(int_text(strategy.positions@.len() as int), t)),
            None => None,
        }
    }
}

fn render_held_line(pos: &ArbitragePosition, current: Option<Decimal>) -> (r: Result<
    String,
    Overflow,
>)
    ensures
        text_of(r) == held_line(*pos, current),
{
    let (price, pnl, class): (String, String, &str) = format_result(
        current,
        pos.entry_price,
        pos.size,
    )?;
    Ok(
        make_plain_position_row(
            escape_html(pos.coin.as_str()).as_str(),
            pos.side.name(),
            pos.entry_price.to_string().as_str(),
            price.as_str(),
            class,
            pnl.as_str(),
            pos.size.to_string().as_str(),
        ),
    )
}

/// Renders the position section.
pub fn render_held(strategy: &CryptoArbitrageStrategy) -> (r: Result<String, Overflow>)
    ensures
        text_of(r) == held_section(*strategy),
{
    if strategy.positions.len() == 0 {
        return Ok(
            owned(
                "<div class=\"bg-gray-900 rounded-lg p-4 mb-4\"><h2 class=\"text-lg font-bold mb-3\">Open Positions (0)</h2><p class=\"text-gray-500\">No open positions</p></div>",
            ),
        );
    }
    let ghost s = strategy.positions@;
    let mut out = String::new();
    let mut failed: bool = false;
    let mut i: usize = 0;
    assert(out@ =~= Seq::empty());
    while i < strategy.positions.len() && !failed
        invariant
            i <= s.len(),
            s == strategy.positions@,
            failed ==> held_rows(s, strategy.cached_asks.rows()) is None,
            !failed ==> held_rows(s.take(i as int), strategy.cached_asks.rows()) == Some(out@),
        decreases s.len() - i,
    {
        assert(s.take(i as int + 1).drop_last() =~= s.take(i as int));
        let pos = &strategy.positions[i];
        match render_held_line(pos, copied(&strategy.cached_asks, pos.token_id.as_str())) {
            Ok(row) => {
                out.append(row.as_str());
            },
            Err(_) => {
                failed = true;
                proof {
                    lemma_held_rows_overflow(s, strategy.cached_asks.rows(), i as int + 1);
                }
            },
        }
        i += 1;
    }
    if failed {
        return Err(Overflow);
    }
    assert(s.take(i as int) =~= s);
    Ok(make_plain_position_table(u64_to_text(strategy.positions.len() as u64).as_str(), out.as_str()))
}

/// The strategy's view. `None` is an overflow.
pub open spec fn strategy_html(strategy: CryptoArbitrageStrategy, now: DateTime) -> Option<Seq<char>> {
    match (coin_section(strategy), plain_market_section(strategy, now), held_section(strategy)) {
        (Some(coins), Some(markets), Some(held)) => Some(coins + markets + held),
        _ => None,
    }
}

/// The view does not show when it was last sent out.
pub proof fn lemma_view_env(a: CryptoArbitrageStrategy, b: CryptoArbitrageStrategy, now: DateTime)
    requires
        b == (CryptoArbitrageStrategy { last_dashboard_emit: b.last_dashboard_emit, ..a }),
    ensures
        strategy_html(a, now) == strategy_html(b, now),
{
}

impl CryptoArbitrageStrategy {
    /// Name of the view.
    pub fn view_name(&self) -> (r: &'static str)
        ensures
            r@ == "crypto-arb"@,
    {
        "crypto-arb"
    }

    /// Renders the view: reference prices and predictions, active markets, open positions.
    pub fn render_view(&self, now: DateTime) -> (r: Result<String, Overflow>)
        ensures
            text_of(r) == strategy_html(*self, now),
    {
        let mut html = render_coins(self)?;
        html.append(render_active(self, now)?.as_str());
        html.append(render_held(self)?.as_str());
        Ok(html)
    }
}

/// What is shown of an open position is the current price and what its shares have gained above the
/// entry price.
pub proof fn a_held_result_is_the_gain(price: Decimal, entry: Decimal, size: Decimal)
    requires
        is_amount(price),
        is_amount(entry),
        is_amount(size),
    ensures
        ({
            let shown = result_texts(Some(price), entry, size);
            &&& shown is Some && (shown->0).0 == decimal_text(price)
            &&& exists|pnl: Decimal|
                value(pnl) == (value(price) - value(entry)) * value(size) && (shown->0).1 == "$"@
                    + #[trigger] decimal_fixed_text(pnl, 2) && (shown->0).2 == (if value(pnl)
                    >= 0 as real {
                    "pnl-positive"@
                } else {
                    "pnl-negative"@
                })
        }),
{
    small_sums_are_exact(price, entry, 6, 6);
    let rise = difference_of(price, entry)->0;
    small_products_are_exact(rise, size, 7, 6, 6, 6);
    let pnl = product_of(rise, size)->0;
    signs_agree(pnl);
    comparing_compares_values(zero(), pnl);
    assert((result_texts(Some(price), entry, size)->0).1 == "$"@ + decimal_fixed_text(pnl, 2));
}

} // verus!
