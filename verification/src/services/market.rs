//! Markets: discovery, activation, promotion and expiry; and the prices that drive them.
use crate::decimal::{
    Decimal, Overflow, at_most, difference_of, less, minus, negated, ok_of, one, plus, product_of,
    times,
};
use crate::domain::lifecycle::{LifecycleView, PositionLifecycleState};
use crate::domain::market::{BoundarySnapshot, MarketWithReference};
use crate::domain::position::{ArbitragePosition, ExitOrderMeta, ExitView, OpenLimitOrder};
use crate::domain::telemetry::{ModeStats, StatsView};
use crate::exchange::{
    Action, ChainQuote, ChainlinkPrice, MarketId, MarketInfo, OutcomeSide, TokenIds,
};
use crate::fee_math::{parse_slug_timestamp, slug_timestamp};
use crate::runtime::{CryptoArbRuntime, PriceEntry, list_has, lists};
use crate::services::order::is_cancel;
use crate::services::position::{holds_market, holds_token, without_token};
use crate::services::pricing::{
    boundary_key, reference_of, settlement_of, window_floor, window_floor_of,
};
use crate::table::{
    Table, distinct_keys, dropped, filtering_keeps_what_fits, has_key, kept, lemma_kept_step,
    lemma_lookup_dropped, lemma_lookup_stored, lookup, stored,
};
use crate::text::{
    chars_of, contains_text, occurs, opt_text, owned, same_text, to_upper, upper_text,
};
use crate::time::DateTime;
use crate::value::{
    comparing_compares_values, is_amount, lemma_within_basics, lemma_within_more, signs_agree,
    small_products_are_exact, small_sums_are_exact, value,
};
use vstd::prelude::*;
use vstd::string::*;

verus! {

/// The answer for a window start, the first one if there are several.
pub open spec fn quote_for(quotes: Seq<ChainQuote>, window_ts: i64) -> Option<ChainlinkPrice>
    decreases quotes.len(),
{
    if quotes.len() == 0 {
        None
    } else if quotes[0].window_ts == window_ts {
        Some(quotes[0].price)
    } else {
        quote_for(quotes.skip(1), window_ts)
    }
}

/// The answer for a window start.
pub fn find_quote(quotes: &Vec<ChainQuote>, window_ts: i64) -> (r: Option<ChainlinkPrice>)
    ensures
        r == quote_for(quotes@, window_ts),
{
    let mut i: usize = 0;
    assert(quotes@.skip(0) =~= quotes@);
    while i < quotes.len()
        invariant
            i <= quotes@.len(),
            quote_for(quotes@, window_ts) == quote_for(quotes@.skip(i as int), window_ts),
        decreases quotes@.len() - i,
    {
        assert(quotes@.skip(i as int)[0] == quotes@[i as int]);
        assert(quotes@.skip(i as int).skip(1) =~= quotes@.skip(i as int + 1));
        if quotes[i].window_ts == window_ts {
            return Some(quotes[i].price);
        }
        i += 1;
    }
    None
}

/// The start of a market's window: its start date, else the timestamp of its slug, else the
/// boundary before now.
pub open spec fn window_of(m: MarketInfo, now: DateTime) -> i64 {
    match m.start_date {
        Some(d) => d.secs_of() as i64,
        None => match slug_timestamp(m.slug@) {
            Some(ts) => ts,
            None => window_floor_of(now.secs_of()) as i64,
        },
    }
}

/// The start of a market's window.
pub fn window_start(m: &MarketInfo, now: DateTime) -> (r: i64)
    ensures
        r == window_of(*m, now),
{
    match m.start_date {
        Some(d) => d.timestamp(),
        None => match parse_slug_timestamp(m.slug.as_str()) {
            Some(ts) => ts,
            None => window_floor(now.timestamp()),
        },
    }
}

/// The nearest end of the markets of each coin.
pub open spec fn nearest_ends(rows: Seq<(Seq<char>, MarketWithReference)>) -> Seq<
    (Seq<char>, DateTime),
>
    decreases rows.len(),
{
    if rows.len() == 0 {
        Seq::empty()
    } else {
        let sofar = nearest_ends(rows.drop_last());
        let m = rows.last().1;
        match lookup(sofar, m.coin@) {
            None => stored(sofar, m.coin@, m.market.end_date),
            Some(end) => if m.market.end_date.nanos_of() < end.nanos_of() {
                stored(sofar, m.coin@, m.market.end_date)
            } else {
                sofar
            },
        }
    }
}

/// A coin has a nearest end exactly when it has a market; no market of the coin ends
/// before it, and one ends then.
pub proof fn nearest_end_is_the_nearest(rows: Seq<(Seq<char>, MarketWithReference)>, coin: Seq<char>)
    ensures
        lookup(nearest_ends(rows), coin) is Some <==> exists|i: int|
            0 <= i < rows.len() && (#[trigger] rows[i]).1.coin@ == coin,
        forall|i: int|
            0 <= i < rows.len() && (#[trigger] rows[i]).1.coin@ == coin ==> lookup(
                nearest_ends(rows),
                coin,
            )->0.nanos_of() <= rows[i].1.market.end_date.nanos_of(),
        lookup(nearest_ends(rows), coin) is Some ==> exists|i: int|
            0 <= i < rows.len() && (#[trigger] rows[i]).1.coin@ == coin
                && rows[i].1.market.end_date == lookup(nearest_ends(rows), coin)->0,
    decreases rows.len(),
{
    if rows.len() > 0 {
        let h = rows.drop_last();
        let sofar = nearest_ends(h);
        let m = rows.last().1;
        nearest_end_is_the_nearest(h, coin);
        lemma_lookup_stored(sofar, m.coin@, m.market.end_date, coin);
        assert(forall|i: int| 0 <= i < h.len() ==> rows[i] == h[i]);
        assert(rows[rows.len() - 1] == rows.last());
        if exists|i: int| 0 <= i < h.len() && (#[trigger] h[i]).1.coin@ == coin {
            let i = choose|i: int| 0 <= i < h.len() && (#[trigger] h[i]).1.coin@ == coin;
            assert(rows[i].1.coin@ == coin);
        }
        if lookup(sofar, coin) is Some {
            let i = choose|i: int|
                0 <= i < h.len() && (#[trigger] h[i]).1.coin@ == coin && h[i].1.market.end_date
                    == lookup(sofar, coin)->0;
            assert(rows[i].1.coin@ == coin && rows[i].1.market.end_date == lookup(
                sofar,
                coin,
            )->0);
        }
    }
}

/// An ASCII letter or digit.
pub open spec fn alphanumeric(c: char) -> bool {
    ('0' <= c && c <= '9') || ('a' <= c && c <= 'z') || ('A' <= c && c <= 'Z')
}

/// Neither neighbour of the `n` characters at `i` is a letter or digit.
pub open spec fn stands_alone(t: Seq<char>, n: int, i: int) -> bool {
    (i == 0 || !alphanumeric(t[i - 1])) && (i + n >= t.len() || !alphanumeric(t[i + n]))
}

/// Among the occurrences of `w` at or after `from`, taken left to right without overlap, one
/// stands alone.
pub open spec fn whole_word(t: Seq<char>, w: Seq<char>, from: int) -> bool
    decreases t.len() + 1 - from,
{
    if from < 0 || from + w.len() > t.len() {
        false
    } else if t.subrange(from, from + w.len()) == w {
        stands_alone(t, w.len() as int, from) || whole_word(
            t,
            w,
            if w.len() == 0 {
                from + 1
            } else {
                from + w.len()
            },
        )
    } else {
        whole_word(t, w, from + 1)
    }
}

fn is_alphanumeric(c: char) -> (r: bool)
    ensures
        r == alphanumeric(c),
{
    ('0' <= c && c <= '9') || ('a' <= c && c <= 'z') || ('A' <= c && c <= 'Z')
}

fn stands_at(t: &Vec<char>, w: &Vec<char>, from: usize) -> (r: bool)
    requires
        from + w@.len() <= t@.len(),
    ensures
        r == (t@.subrange(from as int, from + w@.len()) == w@),
{
    let n: usize = t.len();
    let mut i: usize = 0;
    while i < w.len()
        invariant
            i <= w@.len(),
            n == t@.len(),
            from + w@.len() <= n,
            forall|j: int| 0 <= j < i ==> #[trigger] w@[j] == t@[from + j],
        decreases w@.len() - i,
    {
        if t[from + i] != w[i] {
            assert(t@.subrange(from as int, from + w@.len())[i as int] != w@[i as int]);
            return false;
        }
        i += 1;
    }
    assert(t@.subrange(from as int, from + w@.len()) =~= w@);
    true
}

/// Whether a word stands alone in a text.
pub fn has_whole_word(text: &str, word: &str) -> (r: bool)
    ensures
        r == whole_word(text@, word@, 0),
{
    let t: Vec<char> = chars_of(text);
    let w: Vec<char> = chars_of(word);
    let n: usize = w.len();
    let mut from: usize = 0;
    let mut found: bool = false;
    let mut ended: bool = false;
    while !found && !ended && n <= t.len() - from
        invariant
            t@ == text@,
            w@ == word@,
            n == w@.len(),
            from <= t@.len(),
            found ==> whole_word(text@, word@, 0),
            ended ==> !whole_word(text@, word@, 0),
            !found && !ended ==> whole_word(text@, word@, 0) == whole_word(t@, w@, from as int),
        decreases
            t@.len() + 1 - from,
            (if found || ended {
                0int
            } else {
                1int
            }),
    {
        let step: usize = if stands_at(&t, &w, from) {
            if (from == 0 || !is_alphanumeric(t[from - 1])) && (n >= t.len() - from
                || !is_alphanumeric(t[from + n])) {
                found = true;
            }
            if n == 0 {
                1
            } else {
                n
            }
        } else {
            1
        };
        if !found {
            if step <= t.len() - from {
                from += step;
            } else {
                assert(!whole_word(t@, w@, from + step));
                ended = true;
            }
        }
    }
    found
}

/// The first coin whose symbol stands alone in a text.
pub open spec fn first_ticker(upper: Seq<char>, coins: Seq<String>) -> Option<Seq<char>>
    decreases coins.len(),
{
    if coins.len() == 0 {
        None
    } else if whole_word(upper, coins[0]@, 0) {
        Some(coins[0]@)
    } else {
        first_ticker(upper, coins.skip(1))
    }
}

/// The coin that an upper-case question is about: by name, else by symbol.
pub open spec fn coin_named(upper: Seq<char>, coins: Seq<String>) -> Option<Seq<char>> {
    if occurs(upper, "BITCOIN"@) {
        Some("BTC"@)
    } else if occurs(upper, "ETHEREUM"@) {
        Some("ETH"@)
    } else if occurs(upper, "SOLANA"@) {
        Some("SOL"@)
    } else if occurs(upper, "RIPPLE"@) {
        Some("XRP"@)
    } else {
        first_ticker(upper, coins)
    }
}

/// The first coin whose symbol stands alone in a text.
pub fn find_ticker(upper: &str, coins: &Vec<String>) -> (r: Option<String>)
    ensures
        opt_text(r) == first_ticker(upper@, coins@),
{
    let mut i: usize = 0;
    assert(coins@.skip(0) =~= coins@);
    while i < coins.len()
        invariant
            i <= coins@.len(),
            first_ticker(upper@, coins@) == first_ticker(upper@, coins@.skip(i as int)),
        decreases coins@.len() - i,
    {
        assert(coins@.skip(i as int)[0] == coins@[i as int]);
        assert(coins@.skip(i as int).skip(1) =~= coins@.skip(i as int + 1));
        if has_whole_word(upper, coins[i].as_str()) {
            return Some(coins[i].clone());
        }
        i += 1;
    }
    None
}

/// The coin that an upper-case question is about.
pub fn coin_from_upper(upper: &str, coins: &Vec<String>) -> (r: Option<String>)
    ensures
        opt_text(r) == coin_named(upper@, coins@),
{
    if contains_text(upper, "BITCOIN") {
        Some(owned("BTC"))
    } else if contains_text(upper, "ETHEREUM") {
        Some(owned("ETH"))
    } else if contains_text(upper, "SOLANA") {
        Some(owned("SOL"))
    } else if contains_text(upper, "RIPPLE") {
        Some(owned("XRP"))
    } else {
        find_ticker(upper, coins)
    }
}

/// The positions in a market.
pub open spec fn in_market(s: Seq<ArbitragePosition>, market: Seq<char>) -> Seq<ArbitragePosition>
    decreases s.len(),
{
    if s.len() == 0 {
        s
    } else if s.last().market_id@ == market {
        in_market(s.drop_last(), market).push(s.last())
    } else {
        in_market(s.drop_last(), market)
    }
}

/// The positions outside a market.
pub open spec fn outside_market(s: Seq<ArbitragePosition>, market: Seq<char>) -> Seq<
    ArbitragePosition,
>
    decreases s.len(),
{
    if s.len() == 0 {
        s
    } else if s.last().market_id@ == market {
        outside_market(s.drop_last(), market)
    } else {
        outside_market(s.drop_last(), market).push(s.last())
    }
}

/// Nothing of a market is left once its positions are taken out.
pub proof fn no_position_outlives_its_market(s: Seq<ArbitragePosition>, market: Seq<char>)
    ensures
        !holds_market(outside_market(s, market), market),
        outside_market(s, market).len() + in_market(s, market).len() == s.len(),
    decreases s.len(),
{
    if s.len() > 0 {
        no_position_outlives_its_market(s.drop_last(), market);
        let t = outside_market(s.drop_last(), market);
        if holds_market(outside_market(s, market), market) {
            let i = choose|i: int|
                0 <= i < outside_market(s, market).len() && (#[trigger] outside_market(
                    s,
                    market,
                )[i]).market_id@ == market;
            if i < t.len() {
                assert(t[i].market_id@ == market);
            }
        }
    }
}

/// Takes the positions in a market out.
pub fn take_positions(s: &mut Vec<ArbitragePosition>, market: &str) -> (r: Vec<ArbitragePosition>)
    ensures
        final(s)@ == outside_market(old(s)@, market@),
        r@ == in_market(old(s)@, market@),
{
    let ghost all = s@;
    let ghost done: int = 0;
    let mut r: Vec<ArbitragePosition> = Vec::new();
    let mut i: usize = 0;
    while i < s.len()
        invariant
            0 <= done <= all.len(),
            i <= done,
            s@ =~= outside_market(all.take(done), market@) + all.skip(done),
            i == outside_market(all.take(done), market@).len(),
            r@ =~= in_market(all.take(done), market@),
        decreases all.len() - done,
    {
        assert(all.take(done + 1).drop_last() =~= all.take(done));
        assert(all.take(done + 1).last() == all[done]);
        assert(all.skip(done)[0] == all[done]);
        if same_text(s[i].market_id.as_str(), market) {
            let p = s.remove(i);
            r.push(p);
        } else {
            i += 1;
        }
        proof {
            done = done + 1;
        }
    }
    assert(all.take(all.len() as int) =~= all);
    r
}

/// An exit order is for one of a market's tokens.
pub open spec fn exits_market(meta: ExitView, ids: TokenIds) -> bool {
    meta.token == ids.outcome_a@ || meta.token == ids.outcome_b@
}

/// Requests to cancel the orders of some rows, in order.
pub open spec fn cancels<T>(actions: Seq<Action>, rows: Seq<(Seq<char>, T)>) -> bool {
    actions.len() == rows.len() && forall|j: int|
        0 <= j < rows.len() ==> is_cancel(#[trigger] actions[j], rows[j].0)
}

/// Takes the exit orders of a market's tokens out, and asks for their cancel.
pub fn take_exit_orders(table: &mut Table<ExitOrderMeta>, ids: &TokenIds) -> (r: Vec<Action>)
    ensures
        final(table).rows() == kept(
            old(table).rows(),
            |id: Seq<char>, meta: ExitView| !exits_market(meta, *ids),
        ),
        cancels(
            r@,
            kept(
                old(table).rows(),
                |id: Seq<char>, meta: ExitView| exits_market(meta, *ids),
            ),
        ),
{
    let ghost rows = table.rows();
    let ghost stay = |id: Seq<char>, meta: ExitView| !exits_market(meta, *ids);
    let ghost go = |id: Seq<char>, meta: ExitView| exits_market(meta, *ids);
    let ghost done: int = 0;
    let mut r: Vec<Action> = Vec::new();
    let mut i: usize = 0;
    assert(kept(rows.take(0), stay) =~= Seq::empty());
    assert(kept(rows.take(0), go) =~= Seq::empty());
    while i < table.len()
        invariant
            0 <= done <= rows.len(),
            i <= done,
            stay == (|id: Seq<char>, meta: ExitView| !exits_market(meta, *ids)),
            go == (|id: Seq<char>, meta: ExitView| exits_market(meta, *ids)),
            table.rows() =~= kept(rows.take(done), stay) + rows.skip(done),
            i == kept(rows.take(done), stay).len(),
            cancels(r@, kept(rows.take(done), go)),
        decreases rows.len() - done,
    {
        proof {
            lemma_kept_step(rows, stay, done);
            lemma_kept_step(rows, go, done);
            assert(rows.skip(done)[0] == rows[done]);
        }
        let token: &str = table.value_at(i).token_id.as_str();
        if same_text(token, ids.outcome_a.as_str()) || same_text(token, ids.outcome_b.as_str()) {
            r.push(Action::CancelOrder(table.key_at(i).clone()));
            let _ = table.remove_at(i);
        } else {
            i += 1;
        }
        proof {
            done = done + 1;
        }
    }
    assert(rows.take(rows.len() as int) =~= rows);
    r
}

/// Takes the limit orders of a market out, and asks for their cancel.
pub fn take_limit_orders(table: &mut Table<OpenLimitOrder>, market: &str) -> (r: Vec<Action>)
    ensures
        final(table).rows() == kept(
            old(table).rows(),
            |id: Seq<char>, lo: OpenLimitOrder| lo.market_id@ != market@,
        ),
        cancels(
            r@,
            kept(
                old(table).rows(),
                |id: Seq<char>, lo: OpenLimitOrder| lo.market_id@ == market@,
            ),
        ),
{
    let ghost rows = table.rows();
    let ghost stay = |id: Seq<char>, lo: OpenLimitOrder| lo.market_id@ != market@;
    let ghost go = |id: Seq<char>, lo: OpenLimitOrder| lo.market_id@ == market@;
    let ghost done: int = 0;
    let mut r: Vec<Action> = Vec::new();
    let mut i: usize = 0;
    assert(kept(rows.take(0), stay) =~= Seq::empty());
    assert(kept(rows.take(0), go) =~= Seq::empty());
    while i < table.len()
        invariant
            0 <= done <= rows.len(),
            i <= done,
            stay == (|id: Seq<char>, lo: OpenLimitOrder| lo.market_id@ != market@),
            go == (|id: Seq<char>, lo: OpenLimitOrder| lo.market_id@ == market@),
            table.rows() =~= kept(rows.take(done), stay) + rows.skip(done),
            i == kept(rows.take(done), stay).len(),
            cancels(r@, kept(rows.take(done), go)),
        decreases rows.len() - done,
    {
        proof {
            lemma_kept_step(rows, stay, done);
            lemma_kept_step(rows, go, done);
            assert(rows.skip(done)[0] == rows[done]);
        }
        if same_text(table.value_at(i).market_id.as_str(), market) {
            r.push(Action::CancelOrder(table.key_at(i).clone()));
            let _ = table.remove_at(i);
        } else {
            i += 1;
        }
        proof {
            done = done + 1;
        }
    }
    assert(rows.take(rows.len() as int) =~= rows);
    r
}

/// A position wins at a settlement price.
pub open spec fn wins(pos: ArbitragePosition, settle: Option<Decimal>) -> bool {
    match settle {
        Some(price) => if pos.side.bets_up() {
            less(pos.reference_price, price)
        } else {
            at_most(price, pos.reference_price)
        },
        None => false,
    }
}

/// Whether a position wins at a settlement price.
pub fn is_winner(pos: &ArbitragePosition, settle: Option<Decimal>) -> (r: bool)
    ensures
        r == wins(*pos, settle),
{
    match settle {
        Some(price) => if pos.side.is_up() {
            price.gt(pos.reference_price)
        } else {
            price.le(pos.reference_price)
        },
        None => false,
    }
}

/// At any settlement price exactly one of two bets on the same reference wins: the one on a rise
/// where the price is above the reference, the one on a fall where it is not. Without a price
/// none wins.
pub proof fn one_of_two_sides_wins(up: ArbitragePosition, down: ArbitragePosition, price: Decimal)
    requires
        up.side == OutcomeSide::Up || up.side == OutcomeSide::Yes,
        down.side == OutcomeSide::Down || down.side == OutcomeSide::No,
        up.reference_price == down.reference_price,
    ensures
        wins(up, Some(price)) <==> value(price) > value(up.reference_price),
        wins(down, Some(price)) <==> value(price) <= value(down.reference_price),
        wins(up, Some(price)) != wins(down, Some(price)),
        !wins(up, None) && !wins(down, None),
{
    comparing_compares_values(up.reference_price, price);
    comparing_compares_values(price, down.reference_price);
}

/// The result of a position before hedges: `(1 - entry) * size` when it wins,
/// `-(entry * size)` when it does not, less the entry fee.
pub open spec fn outcome_of(pos: ArbitragePosition, won: bool) -> Option<Decimal> {
    let fee = times(Some(pos.entry_fee_per_share), Some(pos.size));
    if won {
        minus(times(minus(Some(one()), Some(pos.entry_price)), Some(pos.size)), fee)
    } else {
        match times(Some(pos.entry_price), Some(pos.size)) {
            Some(cost) => minus(Some(negated(cost)), fee),
            None => None,
        }
    }
}

/// The result of a position before hedges.
pub fn settle_outcome(pos: &ArbitragePosition, won: bool) -> (r: Result<Decimal, Overflow>)
    ensures
        ok_of(r) == outcome_of(*pos, won),
{
    if won {
        let gain: Decimal = Decimal::one().minus(pos.entry_price)?.times(pos.size)?;
        gain.minus(pos.entry_fee_per_share.times(pos.size)?)
    } else {
        let cost: Decimal = pos.entry_price.times(pos.size)?;
        cost.neg().minus(pos.entry_fee_per_share.times(pos.size)?)
    }
}

/// A token's lifecycle is hedged.
pub open spec fn is_hedged(rows: Seq<(Seq<char>, LifecycleView)>, token: Seq<char>) -> bool {
    match lookup(rows, token) {
        Some(lc) => lc.state is Hedged,
        None => false,
    }
}

/// The lifecycles once those of some positions are dropped, one after the other.
pub open spec fn without_lifecycles(
    rows: Seq<(Seq<char>, LifecycleView)>,
    gone: Seq<ArbitragePosition>,
) -> Seq<(Seq<char>, LifecycleView)>
    decreases gone.len(),
{
    if gone.len() == 0 {
        rows
    } else {
        dropped(without_lifecycles(rows, gone.drop_last()), gone.last().token_id@)
    }
}

/// The exit orders once those of some positions are dropped.
pub open spec fn without_exits(
    rows: Seq<(Seq<char>, ExitView)>,
    gone: Seq<ArbitragePosition>,
) -> Seq<(Seq<char>, ExitView)>
    decreases gone.len(),
{
    if gone.len() == 0 {
        rows
    } else {
        without_token(without_exits(rows, gone.drop_last()), gone.last().token_id@)
    }
}

/// The result of an expired position, with its hedges; a hedged one counts as won.
pub open spec fn expiry_pnl(
    pos: ArbitragePosition,
    hedged: bool,
    settle: Option<Decimal>,
) -> Option<Decimal> {
    plus(outcome_of(pos, hedged || wins(pos, settle)), Some(pos.recovery_cost))
}

/// A position that wins, or is hedged, gains what its shares pay above their price; one that
/// loses loses their price. Either pays the entry fee on every share, and hedges are added.
pub proof fn settlement_pays_one_or_nothing(
    pos: ArbitragePosition,
    hedged: bool,
    price: Decimal,
)
    requires
        is_amount(pos.entry_price),
        is_amount(pos.size),
        is_amount(pos.entry_fee_per_share),
        is_amount(pos.recovery_cost),
    ensures
        ({
            let pnl = expiry_pnl(pos, hedged, Some(price));
            let up = pos.side == OutcomeSide::Up || pos.side == OutcomeSide::Yes;
            let right = if up {
                value(price) > value(pos.reference_price)
            } else {
                value(price) <= value(pos.reference_price)
            };
            let size = value(pos.size);
            let costs = value(pos.entry_fee_per_share) * size - value(pos.recovery_cost);
            let entry = value(pos.entry_price);
            &&& pnl is Some
            &&& hedged || right ==> value(pnl->0) == (1 as real - entry) * size - costs
            &&& !hedged && !right ==> value(pnl->0) == -(entry * size) - costs
        }),
{
    let (e, n, f, c) = (pos.entry_price, pos.size, pos.entry_fee_per_share, pos.recovery_cost);
    comparing_compares_values(pos.reference_price, price);
    comparing_compares_values(price, pos.reference_price);
    lemma_within_basics(e, 6, 6);
    lemma_within_more(one(), 0, 0, 6, 6);
    signs_agree(one());
    small_sums_are_exact(one(), e, 6, 6);
    let rest = difference_of(one(), e)->0;
    small_products_are_exact(rest, n, 7, 6, 6, 6);
    small_products_are_exact(e, n, 6, 6, 6, 6);
    small_products_are_exact(f, n, 6, 6, 6, 6);
    let gain = product_of(rest, n)->0;
    let cost = product_of(e, n)->0;
    let fee = product_of(f, n)->0;
    lemma_within_basics(cost, 12, 12);
    lemma_within_more(fee, 12, 12, 13, 12);
    lemma_within_more(negated(cost), 12, 12, 13, 12);
    small_sums_are_exact(gain, fee, 13, 12);
    small_sums_are_exact(negated(cost), fee, 13, 12);
    lemma_within_more(c, 6, 6, 14, 12);
    small_sums_are_exact(difference_of(gain, fee)->0, c, 14, 12);
    small_sums_are_exact(difference_of(negated(cost), fee)->0, c, 14, 12);
}

/// The results of expired positions. A lifecycle counts for the first position of its token.
pub open spec fn expiry_pnls(
    gone: Seq<ArbitragePosition>,
    lives: Seq<(Seq<char>, LifecycleView)>,
    settle: Option<Decimal>,
) -> Option<Seq<Decimal>>
    decreases gone.len(),
{
    if gone.len() == 0 {
        Some(Seq::empty())
    } else {
        let sofar = expiry_pnls(gone.drop_last(), lives, settle);
        let hedged = is_hedged(lives, gone.last().token_id@) && !holds_token(
            gone.drop_last(),
            gone.last().token_id@,
        );
        match (sofar, expiry_pnl(gone.last(), hedged, settle)) {
            (Some(s), Some(p)) => Some(s.push(p)),
            _ => None,
        }
    }
}

proof fn lemma_expiry_overflows(
    gone: Seq<ArbitragePosition>,
    lives: Seq<(Seq<char>, LifecycleView)>,
    settle: Option<Decimal>,
    n: int,
)
    requires
        0 <= n <= gone.len(),
        expiry_pnls(gone.take(n), lives, settle) is None,
    ensures
        expiry_pnls(gone, lives, settle) is None,
    decreases gone.len(),
{
    if n < gone.len() {
        assert(gone.drop_last().take(n) =~= gone.take(n));
        lemma_expiry_overflows(gone.drop_last(), lives, settle, n);
    } else {
        assert(gone.take(n) =~= gone);
    }
}

/// The market as it becomes active: with the most accurate reference price known.
pub open spec fn activated(
    m: MarketInfo,
    coin: String,
    current: Decimal,
    now: DateTime,
    boundaries: Seq<(Seq<char>, BoundarySnapshot)>,
    history: Seq<(Seq<char>, Seq<PriceEntry>)>,
    quotes: Seq<ChainQuote>,
) -> MarketWithReference {
    let w = window_of(m, now);
    let found = reference_of(
        lookup(boundaries, boundary_key(coin@, w as int)),
        quote_for(quotes, w),
        lookup(history, coin@),
        w,
        current,
    );
    MarketWithReference {
        market: m,
        reference_price: found.0,
        reference_quality: found.1,
        discovery_time: now,
        coin,
        window_ts: w,
    }
}

/// The active markets once some more are activated, one after the other.
pub open spec fn with_activated(
    rows: Seq<(Seq<char>, MarketWithReference)>,
    list: Seq<MarketInfo>,
    coin: String,
    current: Decimal,
    now: DateTime,
    boundaries: Seq<(Seq<char>, BoundarySnapshot)>,
    history: Seq<(Seq<char>, Seq<PriceEntry>)>,
    quotes: Seq<ChainQuote>,
) -> Seq<(Seq<char>, MarketWithReference)>
    decreases list.len(),
{
    if list.len() == 0 {
        rows
    } else {
        stored(
            with_activated(
                rows,
                list.drop_last(),
                coin,
                current,
                now,
                boundaries,
                history,
                quotes,
            ),
            list.last().id@,
            activated(list.last(), coin, current, now, boundaries, history, quotes),
        )
    }
}

/// The markets of a coin that wait for a price.
pub open spec fn waiting(rows: Seq<(Seq<char>, Seq<MarketInfo>)>, coin: Seq<char>) -> Seq<MarketInfo> {
    match lookup(rows, coin) {
        Some(s) => s,
        None => Seq::empty(),
    }
}

/// A market with an id waits.
pub open spec fn waits(list: Seq<MarketInfo>, id: Seq<char>) -> bool {
    exists|i: int| 0 <= i < list.len() && (#[trigger] list[i]).id@ == id
}

fn is_waiting(list: &Vec<MarketInfo>, id: &str) -> (r: bool)
    ensures
        r == waits(list@, id@),
{
    let mut i: usize = 0;
    while i < list.len()
        invariant
            i <= list@.len(),
            forall|j: int| 0 <= j < i ==> (#[trigger] list@[j]).id@ != id@,
        decreases list@.len() - i,
    {
        if same_text(list[i].id.as_str(), id) {
            return true;
        }
        i += 1;
    }
    false
}

/// A discovered market was noted. One that is active, or waits already, changes nothing.
pub open spec fn discovery_noted(
    pre: CryptoArbRuntime,
    post: CryptoArbRuntime,
    market: MarketInfo,
    external_price: Option<Decimal>,
    now: DateTime,
    quotes: Seq<ChainQuote>,
    r: Seq<Action>,
) -> bool {
    &&& ({
        let named = coin_named(upper_text(market.question@), pre.coins@);
        let fresh = named is Some && lists(pre.coins@, named->0) && !has_key(
            pre.active_markets.rows(),
            market.id@,
        );
        let known = fresh && waits(waiting(pre.pending_discovery.rows(), named->0), market.id@);
        &&& !fresh ==> r.len() == 0 && post == pre
        &&& known && external_price is None ==> r.len() == 0 && post == pre
        &&& fresh && !known && external_price is None ==> r.len() == 0
            && post.pending_discovery.rows() == stored(
            pre.pending_discovery.rows(),
            named->0,
            waiting(pre.pending_discovery.rows(), named->0).push(market),
        ) && post == (CryptoArbRuntime {
            pending_discovery: post.pending_discovery,
            ..pre
        })
        &&& fresh && external_price is Some ==> exists|coin: String|
            #![trigger pre.activation(market, coin, external_price->0, now, quotes)]
            coin@ == named->0 && post.active_markets.rows() == stored(
                pre.active_markets.rows(),
                market.id@,
                pre.activation(market, coin, external_price->0, now, quotes),
            )
        &&& fresh && external_price is Some ==> r == seq![
            Action::SubscribeMarket(market),
        ] && post.coin_nearest_expiry.rows() == nearest_ends(
            post.active_markets.rows(),
        ) && post == (CryptoArbRuntime {
            active_markets: post.active_markets,
            coin_nearest_expiry: post.coin_nearest_expiry,
            ..pre
        })
    })
}

/// The books on a market were closed.
pub open spec fn market_closed(
    pre: CryptoArbRuntime,
    post: CryptoArbRuntime,
    market_id: MarketId,
    chain: Option<ChainlinkPrice>,
    r: Result<Vec<Action>, Overflow>,
) -> bool {
    &&& match lookup(pre.active_markets.rows(), market_id@) {
        None => r is Ok && r->Ok_0@.len() == 0 && post == pre,
        Some(m) => {
            let ids = m.market.token_ids;
            let gone = in_market(pre.positions@, market_id@);
            let stats = match pre.expiry_results(m, market_id@, chain) {
                Some(pnls) => pre.stats@.recorded_all(pnls),
                None => None,
            };
            let exits = kept(
                pre.exit_orders_by_id.rows(),
                |id: Seq<char>, meta: ExitView| exits_market(meta, ids),
            );
            let entries = kept(
                pre.open_limit_orders.rows(),
                |id: Seq<char>, lo: OpenLimitOrder| lo.market_id@ == market_id@,
            );
            &&& stats is None ==> r is Err && post == pre
            &&& stats is Some ==> {
                &&& r is Ok
                &&& r->Ok_0@.len() == exits.len() + entries.len() + 1
                &&& cancels(r->Ok_0@.take(exits.len() as int), exits)
                &&& cancels(
                    r->Ok_0@.subrange(
                        exits.len() as int,
                        (exits.len() + entries.len()) as int,
                    ),
                    entries,
                )
                &&& r->Ok_0@.last() == Action::UnsubscribeMarket(market_id)
                &&& post.active_markets.rows() == dropped(
                    pre.active_markets.rows(),
                    market_id@,
                )
                &&& post.cached_asks.rows() == dropped(
                    dropped(pre.cached_asks.rows(), ids.outcome_a@),
                    ids.outcome_b@,
                )
                &&& post.market_reservations.rows() == dropped(
                    pre.market_reservations.rows(),
                    market_id@,
                )
                &&& post.open_limit_orders.rows() == kept(
                    pre.open_limit_orders.rows(),
                    |id: Seq<char>, lo: OpenLimitOrder| lo.market_id@ != market_id@,
                )
                &&& post.positions@ == outside_market(
                    pre.positions@,
                    market_id@,
                )
                &&& post.stats@ == stats->0
                &&& post.position_lifecycle.rows() == without_lifecycles(
                    pre.position_lifecycle.rows(),
                    gone,
                )
                &&& post.exit_orders_by_id.rows() == without_exits(
                    kept(
                        pre.exit_orders_by_id.rows(),
                        |id: Seq<char>, meta: ExitView| !exits_market(meta, ids),
                    ),
                    gone,
                )
                &&& post.coin_nearest_expiry.rows() == nearest_ends(
                    post.active_markets.rows(),
                )
            }
        },
    }
    &&& post == (CryptoArbRuntime {
        active_markets: post.active_markets,
        cached_asks: post.cached_asks,
        market_reservations: post.market_reservations,
        open_limit_orders: post.open_limit_orders,
        positions: post.positions,
        stats: post.stats,
        position_lifecycle: post.position_lifecycle,
        exit_orders_by_id: post.exit_orders_by_id,
        coin_nearest_expiry: post.coin_nearest_expiry,
        ..pre
    })
}

impl CryptoArbRuntime {
    /// Rebuilds the nearest end of the markets of each coin.
    pub fn rebuild_nearest_expiry(&mut self)
        ensures
            final(self).coin_nearest_expiry.rows() == nearest_ends(old(self).active_markets.rows()),
            *final(self) == (CryptoArbRuntime {
                coin_nearest_expiry: final(self).coin_nearest_expiry,
                ..*old(self)
            }),
    {
        let ghost rows = self.active_markets.rows();
        let mut nearest: Table<DateTime> = Table::new();
        let mut i: usize = 0;
        while i < self.active_markets.len()
            invariant
                i <= rows.len(),
                rows == self.active_markets.rows(),
                *self == *old(self),
                nearest.rows() == nearest_ends(rows.take(i as int)),
            decreases rows.len() - i,
        {
            assert(rows.take(i as int + 1).drop_last() =~= rows.take(i as int));
            let m = self.active_markets.value_at(i);
            let sooner: bool = match nearest.get(m.coin.as_str()) {
                None => true,
                Some(end) => m.market.end_date.before(*end),
            };
            if sooner {
                nearest.insert(m.coin.clone(), m.market.end_date);
            }
            i += 1;
        }
        assert(rows.take(i as int) =~= rows);
        self.coin_nearest_expiry = nearest;
    }

    /// Whether a coin is tracked.
    pub fn is_tracked_coin(&self, coin: &str) -> (r: bool)
        ensures
            r == lists(self.coins@, coin@),
    {
        list_has(&self.coins, coin)
    }

    /// The coin that a market's question is about.
    pub fn extract_coin(&self, question: &str) -> (r: Option<String>)
        ensures
            opt_text(r) == coin_named(upper_text(question@), self.coins@),
    {
        coin_from_upper(to_upper(question).as_str(), &self.coins)
    }

    /// The market as it would become active now.
    pub open spec fn activation(
        &self,
        m: MarketInfo,
        coin: String,
        current: Decimal,
        now: DateTime,
        quotes: Seq<ChainQuote>,
    ) -> MarketWithReference {
        activated(
            m,
            coin,
            current,
            now,
            self.boundary_prices.rows(),
            self.price_history.rows(),
            quotes,
        )
    }

    /// Activates a market with the most accurate reference price known.
    pub fn activate_market(
        &mut self,
        market: &MarketInfo,
        coin: &String,
        current_price: Decimal,
        now: DateTime,
        quotes: &Vec<ChainQuote>,
    ) -> (r: Action)
        ensures
            final(self).active_markets.rows() == stored(
                old(self).active_markets.rows(),
                market.id@,
                old(self).activation(*market, *coin, current_price, now, quotes@),
            ),
            final(self).coin_nearest_expiry.rows() == nearest_ends(
                final(self).active_markets.rows(),
            ),
            r == Action::SubscribeMarket(*market),
            *final(self) == (CryptoArbRuntime {
                active_markets: final(self).active_markets,
                coin_nearest_expiry: final(self).coin_nearest_expiry,
                ..*old(self)
            }),
    {
        let window_ts: i64 = window_start(market, now);
        let (reference_price, reference_quality) = self.find_best_reference(
            coin.as_str(),
            window_ts,
            current_price,
            find_quote(quotes, window_ts),
        );
        let m = MarketWithReference {
            market: market.clone(),
            reference_price,
            reference_quality,
            discovery_time: now,
            coin: coin.clone(),
            window_ts,
        };
        self.active_markets.insert(market.id.clone(), m);
        self.rebuild_nearest_expiry();
        Action::SubscribeMarket(market.clone())
    }

    /// Takes note of a market. One about a tracked coin becomes active, if it is not yet and
    /// the coin has a price; without a price it waits, once.
    pub fn on_market_discovered(
        &mut self,
        market: &MarketInfo,
        external_price: Option<Decimal>,
        now: DateTime,
        quotes: &Vec<ChainQuote>,
    ) -> (r: Vec<Action>)
        ensures
            discovery_noted(*old(self), *final(self), *market, external_price, now, quotes@, r@),
    {
        let mut actions: Vec<Action> = Vec::new();
        let coin: String = match self.extract_coin(market.question.as_str()) {
            None => {
                return actions;
            },
            Some(c) => c,
        };
        if !list_has(&self.coins, coin.as_str()) || self.active_markets.contains_key(
            market.id.as_str(),
        ) {
            return actions;
        }
        match external_price {
            None => {
                let i: usize = self.pending_discovery.find(coin.as_str());
                if i < self.pending_discovery.len() {
                    if is_waiting(self.pending_discovery.value_at(i), market.id.as_str()) {
                        return actions;
                    }
                    let ghost before = self.pending_discovery.rows();
                    let mut list: Vec<MarketInfo> = self.pending_discovery.replace_at(
                        i,
                        Vec::new(),
                    );
                    list.push(market.clone());
                    self.pending_discovery.set_at(i, list);
                    assert(self.pending_discovery.rows() =~= before.update(
                        i as int,
                        (before[i as int].0, before[i as int].1.push(*market)),
                    ));
                } else {
                    let mut list: Vec<MarketInfo> = Vec::new();
                    list.push(market.clone());
                    assert(list@ =~= Seq::empty().push(*market));
                    self.pending_discovery.insert(coin, list);
                }
            },
            Some(price) => {
                actions.push(self.activate_market(market, &coin, price, now, quotes));
                assert(actions@ =~= seq![Action::SubscribeMarket(*market)]);
            },
        }
        actions
    }

    /// The window starts of the markets of a coin that wait for a price.
    pub fn pending_windows(&self, symbol: &str, now: DateTime) -> (r: Vec<i64>)
        ensures
            r@ == waiting(self.pending_discovery.rows(), symbol@).map_values(
                |m: MarketInfo| window_of(m, now),
            ),
    {
        let ghost f = |m: MarketInfo| window_of(m, now);
        let mut r: Vec<i64> = Vec::new();
        match self.pending_discovery.get(symbol) {
            None => {
                assert(r@ =~= waiting(self.pending_discovery.rows(), symbol@).map_values(f));
            },
            Some(list) => {
                let mut i: usize = 0;
                while i < list.len()
                    invariant
                        i <= list@.len(),
                        f == (|m: MarketInfo| window_of(m, now)),
                        r@ =~= list@.take(i as int).map_values(f),
                    decreases list@.len() - i,
                {
                    r.push(window_start(&list[i], now));
                    i += 1;
                }
                assert(list@.take(i as int) =~= list@);
            },
        }
        r
    }

    /// Activates the markets of a coin that waited for a price.
    pub fn promote_pending_markets(
        &mut self,
        symbol: &String,
        current_price: Decimal,
        now: DateTime,
        quotes: &Vec<ChainQuote>,
    ) -> (r: Vec<Action>)
        ensures
            ({
                let list = waiting(old(self).pending_discovery.rows(), symbol@);
                &&& final(self).pending_discovery.rows() == dropped(
                    old(self).pending_discovery.rows(),
                    symbol@,
                )
                &&& final(self).active_markets.rows() == with_activated(
                    old(self).active_markets.rows(),
                    list,
                    *symbol,
                    current_price,
                    now,
                    old(self).boundary_prices.rows(),
                    old(self).price_history.rows(),
                    quotes@,
                )
                &&& list.len() > 0 ==> final(self).coin_nearest_expiry.rows() == nearest_ends(
                    final(self).active_markets.rows(),
                )
                &&& list.len() == 0 ==> final(self).coin_nearest_expiry == old(
                    self,
                ).coin_nearest_expiry && final(self).active_markets == old(self).active_markets
                &&& r@ == list.map_values(|m: MarketInfo| Action::SubscribeMarket(m))
            }),
            *final(self) == (CryptoArbRuntime {
                pending_discovery: final(self).pending_discovery,
                active_markets: final(self).active_markets,
                coin_nearest_expiry: final(self).coin_nearest_expiry,
                ..*old(self)
            }),
    {
        let ghost list = waiting(self.pending_discovery.rows(), symbol@);
        let ghost f = |m: MarketInfo| Action::SubscribeMarket(m);
        let mut actions: Vec<Action> = Vec::new();
        match self.pending_discovery.remove(symbol.as_str()) {
            None => {
                assert(actions@ =~= list.map_values(f));
            },
            Some(markets) => {
                assert(markets@ == list);
                let ghost base = *self;
                let mut i: usize = 0;
                while i < markets.len()
                    invariant
                        i <= markets@.len(),
                        f == (|m: MarketInfo| Action::SubscribeMarket(m)),
                        actions@ =~= markets@.take(i as int).map_values(f),
                        self.active_markets.rows() == with_activated(
                            base.active_markets.rows(),
                            markets@.take(i as int),
                            *symbol,
                            current_price,
                            now,
                            base.boundary_prices.rows(),
                            base.price_history.rows(),
                            quotes@,
                        ),
                        i > 0 ==> self.coin_nearest_expiry.rows() == nearest_ends(
                            self.active_markets.rows(),
                        ),
                        i == 0 ==> *self == base,
                        *self == (CryptoArbRuntime {
                            active_markets: self.active_markets,
                            coin_nearest_expiry: self.coin_nearest_expiry,
                            ..base
                        }),
                    decreases markets@.len() - i,
                {
                    assert(markets@.take(i as int + 1).drop_last() =~= markets@.take(i as int));
                    actions.push(
                        self.activate_market(&markets[i], symbol, current_price, now, quotes),
                    );
                    i += 1;
                }
                assert(markets@.take(i as int) =~= markets@);
            },
        }
        actions
    }

    /// The results of a market's positions at expiry. `None` is an overflow.
    pub open spec fn expiry_results(&self, m: MarketWithReference, id: Seq<char>, chain: Option<
        ChainlinkPrice,
    >) -> Option<Seq<Decimal>> {
        expiry_pnls(
            in_market(self.positions@, id),
            self.position_lifecycle.rows(),
            settlement_of(
                lookup(self.price_history.rows(), m.coin@),
                m.market.end_date,
                chain,
            ),
        )
    }

    /// Computes the results of expired positions.
    pub fn compute_expiry_pnls(&self, gone: &Vec<ArbitragePosition>, settle: Option<Decimal>) -> (r:
        Result<Vec<Decimal>, Overflow>)
        ensures
            match expiry_pnls(gone@, self.position_lifecycle.rows(), settle) {
                Some(s) => r is Ok && r->Ok_0@ == s,
                None => r is Err,
            },
    {
        let ghost lives = self.position_lifecycle.rows();
        let mut pnls: Vec<Decimal> = Vec::new();
        let mut i: usize = 0;
        assert(pnls@ =~= Seq::empty());
        while i < gone.len()
            invariant
                i <= gone@.len(),
                lives == self.position_lifecycle.rows(),
                expiry_pnls(gone@.take(i as int), lives, settle) == Some(pnls@),
            decreases gone@.len() - i,
        {
            let ghost h = gone@.take(i as int);
            assert(gone@.take(i as int + 1).drop_last() =~= h);
            let pos = &gone[i];
            let mut seen: bool = false;
            let mut j: usize = 0;
            while j < i
                invariant
                    j <= i,
                    i < gone@.len(),
                    *pos == gone@[i as int],
                    seen == holds_token(gone@.take(j as int), pos.token_id@),
                decreases i - j,
            {
                assert(gone@.take(j as int + 1).last() == gone@[j as int]);
                let hit: bool = same_text(gone[j].token_id.as_str(), pos.token_id.as_str());
                proof {
                    let a = gone@.take(j as int);
                    let b = gone@.take(j as int + 1);
                    if holds_token(a, pos.token_id@) {
                        let k = choose|k: int|
                            0 <= k < a.len() && (#[trigger] a[k]).token_id@ == pos.token_id@;
                        assert(b[k].token_id@ == pos.token_id@);
                    }
                    if hit {
                        assert(b[j as int].token_id@ == pos.token_id@);
                    }
                    if holds_token(b, pos.token_id@) {
                        let k = choose|k: int|
                            0 <= k < b.len() && (#[trigger] b[k]).token_id@ == pos.token_id@;
                        if k < a.len() {
                            assert(a[k].token_id@ == pos.token_id@);
                        }
                    }
                }
                seen = seen || hit;
                j += 1;
            }
            let hedged: bool = if seen {
                false
            } else {
                match self.position_lifecycle.get(pos.token_id.as_str()) {
                    Some(lc) => matches!(lc.state, PositionLifecycleState::Hedged { .. }),
                    None => false,
                }
            };
            let won: bool = hedged || is_winner(pos, settle);
            let base: Result<Decimal, Overflow> = settle_outcome(pos, won);
            let pnl: Result<Decimal, Overflow> = match base {
                Ok(d) => d.plus(pos.recovery_cost),
                Err(_) => Err(Overflow),
            };
            match pnl {
                Ok(d) => {
                    pnls.push(d);
                },
                Err(_) => {
                    proof {
                        lemma_expiry_overflows(gone@, lives, settle, i as int + 1);
                    }
                    return Err(Overflow);
                },
            }
            i += 1;
        }
        assert(gone@.take(i as int) =~= gone@);
        Ok(pnls)
    }

    /// Closes the books on a market: its orders are cancelled, its positions settled and
    /// counted, and it is no longer followed. Once closed it is left alone. An error, with
    /// nothing changed, where the arithmetic leaves its range.
    pub fn on_market_expired(&mut self, market_id: &MarketId, chain: Option<ChainlinkPrice>) -> (r:
        Result<Vec<Action>, Overflow>)
        ensures
            market_closed(*old(self), *final(self), *market_id, chain, r),
    {
        let m: MarketWithReference = match self.active_markets.get(market_id.as_str()) {
            None => {
                return Ok(Vec::new());
            },
            Some(m) => m.clone(),
        };
        let gone: Vec<ArbitragePosition> = positions_in(&self.positions, market_id.as_str());
        let settle: Option<Decimal> = self.get_settlement_price(
            m.coin.as_str(),
            m.market.end_date,
            chain,
        );
        let pnls: Vec<Decimal> = self.compute_expiry_pnls(&gone, settle)?;
        let stats: ModeStats = self.stats.after_all(&pnls)?;
        let _ = self.active_markets.remove(market_id.as_str());
        let _ = self.cached_asks.remove(m.market.token_ids.outcome_a.as_str());
        let _ = self.cached_asks.remove(m.market.token_ids.outcome_b.as_str());
        let _ = self.market_reservations.remove(market_id.as_str());
        let mut actions: Vec<Action> = take_exit_orders(
            &mut self.exit_orders_by_id,
            &m.market.token_ids,
        );
        let mut more: Vec<Action> = take_limit_orders(
            &mut self.open_limit_orders,
            market_id.as_str(),
        );
        let ghost first = actions@;
        let ghost second = more@;
        actions.append(&mut more);
        actions.push(Action::UnsubscribeMarket(market_id.clone()));
        assert(actions@.take(first.len() as int) =~= first);
        assert(actions@.subrange(first.len() as int, (first.len() + second.len()) as int)
            =~= second);
        let _ = take_positions(&mut self.positions, market_id.as_str());
        self.stats = stats;
        let ghost mid = *self;
        let mut i: usize = 0;
        while i < gone.len()
            invariant
                i <= gone@.len(),
                self.position_lifecycle.rows() == without_lifecycles(
                    mid.position_lifecycle.rows(),
                    gone@.take(i as int),
                ),
                self.exit_orders_by_id.rows() == without_exits(
                    mid.exit_orders_by_id.rows(),
                    gone@.take(i as int),
                ),
                *self == (CryptoArbRuntime {
                    position_lifecycle: self.position_lifecycle,
                    exit_orders_by_id: self.exit_orders_by_id,
                    ..mid
                }),
            decreases gone@.len() - i,
        {
            assert(gone@.take(i as int + 1).drop_last() =~= gone@.take(i as int));
            self.remove_lifecycle(gone[i].token_id.as_str());
            i += 1;
        }
        assert(gone@.take(i as int) =~= gone@);
        self.rebuild_nearest_expiry();
        Ok(actions)
    }
}

/// The positions in a market.
pub fn positions_in(s: &Vec<ArbitragePosition>, market: &str) -> (r: Vec<ArbitragePosition>)
    ensures
        r@ == in_market(s@, market@),
{
    let mut r: Vec<ArbitragePosition> = Vec::new();
    let mut i: usize = 0;
    while i < s.len()
        invariant
            i <= s@.len(),
            r@ =~= in_market(s@.take(i as int), market@),
        decreases s@.len() - i,
    {
        assert(s@.take(i as int + 1).drop_last() =~= s@.take(i as int));
        if same_text(s[i].market_id.as_str(), market) {
            r.push(s[i].clone());
        }
        i += 1;
    }
    assert(s@.take(i as int) =~= s@);
    r
}

/// A market that was closed is not closed again: the second time nothing happens.
pub proof fn expiry_is_final(rows: Seq<(Seq<char>, MarketWithReference)>, id: Seq<char>)
    requires
        distinct_keys(rows),
    ensures
        lookup(dropped(rows, id), id) is None,
{
    lemma_lookup_dropped(rows, id, id);
}

/// Discovery is idempotent: a market that is discovered again at once changes nothing and
/// asks for nothing, whether it was activated or waits for a price.
pub proof fn discovery_is_idempotent(
    pre: CryptoArbRuntime,
    mid: CryptoArbRuntime,
    post: CryptoArbRuntime,
    market: MarketInfo,
    external_price: Option<Decimal>,
    now: DateTime,
    quotes: Seq<ChainQuote>,
    next: DateTime,
    next_quotes: Seq<ChainQuote>,
    first: Seq<Action>,
    second: Seq<Action>,
)
    requires
        discovery_noted(pre, mid, market, external_price, now, quotes, first),
        discovery_noted(mid, post, market, external_price, next, next_quotes, second),
    ensures
        post == mid,
        second.len() == 0,
{
    let named = coin_named(upper_text(market.question@), pre.coins@);
    if named is Some {
        let coin = named->0;
        let list = waiting(pre.pending_discovery.rows(), coin);
        lemma_lookup_stored(pre.pending_discovery.rows(), coin, list.push(market), coin);
        assert(list.push(market)[list.len() as int].id@ == market.id@);
        assert forall|m: MarketWithReference| #[trigger]
            has_key(stored(pre.active_markets.rows(), market.id@, m), market.id@) by {
            lemma_lookup_stored(pre.active_markets.rows(), market.id@, m, market.id@);
        }
    }
}

/// Each position of a closed market settles by its own side and hedge, where no two have a token in
/// common.
pub proof fn each_position_of_a_market_settles_on_its_own(
    gone: Seq<ArbitragePosition>,
    lives: Seq<(Seq<char>, LifecycleView)>,
    settle: Option<Decimal>,
    i: int,
)
    requires
        expiry_pnls(gone, lives, settle) is Some,
        0 <= i < gone.len(),
        forall|j: int, k: int|
            0 <= j < k < gone.len() ==> (#[trigger] gone[j]).token_id@ != (
            #[trigger] gone[k]).token_id@,
    ensures
        ({
            let pnls = expiry_pnls(gone, lives, settle)->0;
            let lc = lookup(lives, gone[i].token_id@);
            &&& pnls.len() == gone.len()
            &&& expiry_pnl(gone[i], lc is Some && lc->0.state is Hedged, settle) == Some(pnls[i])
        }),
    decreases gone.len(),
{
    let h = gone.drop_last();
    assert forall|j: int, k: int| 0 <= j < k < h.len() implies (#[trigger] h[j]).token_id@ != (
    #[trigger] h[k]).token_id@ by {
        assert(h[j] == gone[j] && h[k] == gone[k]);
    }
    if holds_token(h, gone.last().token_id@) {
        let j = choose|j: int|
            0 <= j < h.len() && (#[trigger] h[j]).token_id@ == gone.last().token_id@;
        assert(h[j] == gone[j] && gone[gone.len() - 1] == gone.last());
    }
    if h.len() > 0 {
        let k = if i < h.len() {
            i
        } else {
            0
        };
        each_position_of_a_market_settles_on_its_own(h, lives, settle, k);
        assert(h[k] == gone[k]);
    }
}

/// A ticker is found as a word only where it stands with no letter or digit beside it.
pub proof fn a_ticker_stands_alone(t: Seq<char>, w: Seq<char>, from: int)
    requires
        whole_word(t, w, from),
    ensures
        exists|i: int|
            from <= i && i + w.len() <= t.len() && #[trigger] t.subrange(i, i + w.len()) == w && (i
                == 0 || !alphanumeric(t[i - 1])) && (i + w.len() == t.len() || !alphanumeric(
                t[i + w.len()],
            )),
    decreases t.len() + 1 - from,
{
    if t.subrange(from, from + w.len()) == w {
        if !stands_alone(t, w.len() as int, from) {
            a_ticker_stands_alone(
                t,
                w,
                if w.len() == 0 {
                    from + 1
                } else {
                    from + w.len()
                },
            );
        }
    } else {
        a_ticker_stands_alone(t, w, from + 1);
    }
}

/// A market's window starts at its start date, else at the time in its slug, else at the last full
/// quarter of an hour.
pub proof fn a_window_starts_at_the_start_date(m: MarketInfo, now: DateTime)
    requires
        0 <= now.secs_of() <= i64::MAX,
        m.start_date is Some ==> 0 <= m.start_date->0.secs_of() <= i64::MAX,
    ensures
        m.start_date is Some ==> window_of(m, now) == m.start_date->0.secs_of(),
        m.start_date is None && slug_timestamp(m.slug@) is Some ==> window_of(m, now)
            == slug_timestamp(m.slug@)->0,
        m.start_date is None && slug_timestamp(m.slug@) is None ==> window_of(m, now) % 900 == 0
            && window_of(m, now) <= now.secs_of() < window_of(m, now) + 900,
{
}

/// As many results are counted as are recorded.
proof fn lemma_recorded_all_counts(s: StatsView, pnls: Seq<Decimal>)
    requires
        s.recorded_all(pnls) is Some,
    ensures
        s.recorded_all(pnls)->0.entered == s.entered + pnls.len(),
    decreases pnls.len(),
{
    if pnls.len() > 0 {
        lemma_recorded_all_counts(s, pnls.drop_last());
    }
}

/// Each position settles.
proof fn lemma_expiry_pnls_count(
    gone: Seq<ArbitragePosition>,
    lives: Seq<(Seq<char>, LifecycleView)>,
    settle: Option<Decimal>,
)
    requires
        expiry_pnls(gone, lives, settle) is Some,
    ensures
        expiry_pnls(gone, lives, settle)->0.len() == gone.len(),
    decreases gone.len(),
{
    if gone.len() > 0 {
        lemma_expiry_pnls_count(gone.drop_last(), lives, settle);
    }
}

/// The positions outside a market are those whose market is another.
pub proof fn other_positions_stay(s: Seq<ArbitragePosition>, market: Seq<char>, x: ArbitragePosition)
    ensures
        outside_market(s, market).contains(x) <==> s.contains(x) && x.market_id@ != market,
    decreases s.len(),
{
    if s.len() > 0 {
        let h = s.drop_last();
        let k = outside_market(h, market);
        other_positions_stay(h, market, x);
        if s.contains(x) {
            let i = choose|i: int| 0 <= i < s.len() && s[i] == x;
            if i < h.len() {
                assert(h[i] == x);
            }
        }
        if h.contains(x) {
            let i = choose|i: int| 0 <= i < h.len() && h[i] == x;
            assert(s[i] == x);
        }
        assert(s[s.len() - 1] == s.last());
        if s.last().market_id@ != market {
            let n = k.push(s.last());
            if k.contains(x) {
                let i = choose|i: int| 0 <= i < k.len() && k[i] == x;
                assert(n[i] == x);
            }
            if n.contains(x) {
                let i = choose|i: int| 0 <= i < n.len() && n[i] == x;
                if i < k.len() {
                    assert(k[i] == x);
                }
            }
            assert(n[n.len() - 1] == s.last());
        }
    }
}

/// Closing a market leaves nothing of it: it is no longer active, none of its positions is held and
/// each is counted once, its resting entries are cancelled, and it is unsubscribed. What belongs to
/// other markets stays.
pub proof fn closing_a_market_leaves_nothing_of_it(
    pre: CryptoArbRuntime,
    post: CryptoArbRuntime,
    market_id: MarketId,
    chain: Option<ChainlinkPrice>,
    r: Result<Vec<Action>, Overflow>,
    x: ArbitragePosition,
    row: (Seq<char>, OpenLimitOrder),
)
    requires
        market_closed(pre, post, market_id, chain, r),
        r is Ok,
        lookup(pre.active_markets.rows(), market_id@) is Some,
        distinct_keys(pre.active_markets.rows()),
    ensures
        lookup(post.active_markets.rows(), market_id@) is None,
        post.positions@.contains(x) <==> pre.positions@.contains(x) && x.market_id@ != market_id@,
        post.stats@.entered == pre.stats@.entered + (pre.positions@.len() - post.positions@.len()),
        post.open_limit_orders.rows().contains(row) <==> pre.open_limit_orders.rows().contains(row)
            && row.1.market_id@ != market_id@,
        pre.open_limit_orders.rows().contains(row) && row.1.market_id@ == market_id@ ==> exists|
            k: int,
        |
            0 <= k < r->Ok_0@.len() && is_cancel(#[trigger] r->Ok_0@[k], row.0),
        r->Ok_0@.len() > 0 && r->Ok_0@.last() == Action::UnsubscribeMarket(market_id),
{
    let m = lookup(pre.active_markets.rows(), market_id@)->0;
    let rows = pre.open_limit_orders.rows();
    lemma_lookup_dropped(pre.active_markets.rows(), market_id@, market_id@);
    other_positions_stay(pre.positions@, market_id@, x);
    no_position_outlives_its_market(pre.positions@, market_id@);
    let pnls = pre.expiry_results(m, market_id@, chain)->0;
    lemma_recorded_all_counts(pre.stats@, pnls);
    lemma_expiry_pnls_count(
        in_market(pre.positions@, market_id@),
        pre.position_lifecycle.rows(),
        settlement_of(lookup(pre.price_history.rows(), m.coin@), m.market.end_date, chain),
    );
    let ours = |id: Seq<char>, lo: OpenLimitOrder| lo.market_id@ == market_id@;
    let others = |id: Seq<char>, lo: OpenLimitOrder| lo.market_id@ != market_id@;
    filtering_keeps_what_fits(rows, ours, row);
    filtering_keeps_what_fits(rows, others, row);
    let entries = kept(rows, ours);
    let exits = kept(
        pre.exit_orders_by_id.rows(),
        |id: Seq<char>, meta: ExitView| exits_market(meta, m.market.token_ids),
    );
    if entries.contains(row) {
        let j = choose|j: int| 0 <= j < entries.len() && entries[j] == row;
        let part = r->Ok_0@.subrange(exits.len() as int, (exits.len() + entries.len()) as int);
        assert(is_cancel(part[j], entries[j].0));
        assert(part[j] == r->Ok_0@[exits.len() + j]);
    }
}

/// The coin of a question that names one is that coin; else it is the first of the coins whose
/// ticker stands in it as a word.
pub proof fn a_question_names_its_coin(upper: Seq<char>, coins: Seq<String>, i: int)
    requires
        0 <= i < coins.len(),
        whole_word(upper, coins[i]@, 0),
        forall|j: int| 0 <= j < i ==> !whole_word(upper, (#[trigger] coins[j])@, 0),
    ensures
        occurs(upper, "BITCOIN"@) ==> coin_named(upper, coins) == Some("BTC"@),
        !occurs(upper, "BITCOIN"@) && occurs(upper, "ETHEREUM"@) ==> coin_named(upper, coins)
            == Some("ETH"@),
        !occurs(upper, "BITCOIN"@) && !occurs(upper, "ETHEREUM"@) && occurs(upper, "SOLANA"@)
            ==> coin_named(upper, coins) == Some("SOL"@),
        !occurs(upper, "BITCOIN"@) && !occurs(upper, "ETHEREUM"@) && !occurs(upper, "SOLANA"@)
            && occurs(upper, "RIPPLE"@) ==> coin_named(upper, coins) == Some("XRP"@),
        !occurs(upper, "BITCOIN"@) && !occurs(upper, "ETHEREUM"@) && !occurs(upper, "SOLANA"@)
            && !occurs(upper, "RIPPLE"@) ==> coin_named(upper, coins) == Some(coins[i]@),
{
    lemma_first_ticker(upper, coins, i);
}

proof fn lemma_first_ticker(upper: Seq<char>, coins: Seq<String>, i: int)
    requires
        0 <= i < coins.len(),
        whole_word(upper, coins[i]@, 0),
        forall|j: int| 0 <= j < i ==> !whole_word(upper, (#[trigger] coins[j])@, 0),
    ensures
        first_ticker(upper, coins) == Some(coins[i]@),
    decreases coins.len(),
{
    if i > 0 {
        let rest = coins.skip(1);
        assert(!whole_word(upper, coins[0]@, 0));
        assert(rest[i - 1] == coins[i]);
        assert forall|j: int| 0 <= j < i - 1 implies !whole_word(
            upper,
            (#[trigger] rest[j])@,
            0,
        ) by {
            assert(rest[j] == coins[j + 1]);
        }
        lemma_first_ticker(upper, rest, i - 1);
    }
}

} // verus!
