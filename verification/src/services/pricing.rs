//! Prices: history, window boundaries, reference prices, composites and spikes.
use crate::decimal::{
    Decimal, Overflow, abs_int, at_most, dec, difference_of, larger, lemma_dec_parts, less,
    magnitude, minus, ok_of, over, plus, pow10, product_of, quotient_of, same, times, zero,
};
use crate::domain::lifecycle::{LifecycleView, PositionLifecycle};
use crate::domain::market::{
    BoundarySnapshot, CompositePriceResult, CompositePriceSnapshot, MarketWithReference,
    ReferenceQuality, snapshot_of,
};
use crate::domain::position::ArbitragePosition;
use crate::domain::telemetry::SpikeEvent;
use crate::exchange::{ChainlinkPrice, OutcomeSide, SourcedPrice};
use crate::runtime::{
    BOUNDARY_TOLERANCE_SECS, CryptoArbRuntime, PRICE_HISTORY_SIZE, PriceEntry, WINDOW_SECS,
    count_up, counted, signed, to_signed, to_unsigned, unsigned,
};
use crate::table::{
    Table, filtering_keeps_what_fits, kept, lemma_kept_step, lemma_lookup_stored, lookup, mapped,
    stored,
};
use crate::text::{
    after_prefix, begins_with, i64_to_text, i64_value, int_text, owned, parse_i64,
    reading_undoes_writing, same_ignoring_case, same_text, same_text_ignoring_case,
};
use crate::time::{
    DateTime, MAX_SECS, MIN_SECS, NANOS_PER_SEC, instant, millis_between, secs_between, shifted,
    shifting_moves_by_seconds, whole_millis_have_passed, whole_seconds_have_passed, whole_units,
};
use crate::value::{
    abs_of, comparing_compares_values, difference_is_exact, differences_add_up, is_ratio,
    is_within, lemma_quotient_is_decimal, lemma_ratio_bounds, lemma_within_more, max_of,
    negating_negates, picking_picks_values, product_is_exact, products_multiply, quotients_compare,
    quotients_divide, signs_agree, slack, small_products_are_exact, small_sums_are_exact, value,
    value_of_parts,
};
use vstd::prelude::*;
use vstd::string::*;

verus! {

/// Whole seconds of milliseconds, toward zero.
pub fn whole_secs(ms: i64) -> (r: i64)
    ensures
        r == whole_units(ms as int, 1000),
        -i64::MAX / 1000 - 1 <= r <= i64::MAX / 1000,
{
    if ms >= 0 {
        (ms as u64 / 1000) as i64
    } else {
        -((((-(ms + 1)) as u64 + 1) / 1000) as i64)
    }
}

/// `ts` rounded to a window boundary, toward zero.
pub open spec fn window_floor_of(ts: int) -> int {
    whole_units(ts, WINDOW_SECS as int) * WINDOW_SECS
}

/// `ts` rounded to a window boundary, toward zero.
pub fn window_floor(ts: i64) -> (r: i64)
    ensures
        r == window_floor_of(ts as int),
        -(WINDOW_SECS as int) < ts - r < WINDOW_SECS,
{
    if ts >= 0 {
        let q: u64 = ts as u64 / 900;
        (q * 900) as i64
    } else {
        let q: u64 = ((-(ts + 1)) as u64 + 1) / 900;
        -((q * 900) as i64)
    }
}

/// The key of a coin's price at a boundary.
pub open spec fn boundary_key(coin: Seq<char>, ts: int) -> Seq<char> {
    coin + "-"@ + int_text(ts)
}

/// The key of a coin's price at a boundary.
pub fn make_boundary_key(coin: &str, ts: i64) -> (r: String)
    ensures
        r@ == boundary_key(coin@, ts as int),
{
    let mut s = owned(coin);
    s.append("-");
    s.append(i64_to_text(ts).as_str());
    s
}

/// A history with one more price. A price that repeats the latest one renews it; only the
/// latest prices are kept.
pub open spec fn with_price(entries: Seq<PriceEntry>, e: PriceEntry) -> Seq<PriceEntry> {
    if entries.len() > 0 && same(entries.last().price, e.price) {
        entries.drop_last().push(
            PriceEntry {
                price: entries.last().price,
                ..e
            },
        )
    } else if entries.len() + 1 > PRICE_HISTORY_SIZE {
        entries.push(e).skip(1)
    } else {
        entries.push(e)
    }
}

/// A history never outgrows its size.
pub proof fn history_stays_bounded(entries: Seq<PriceEntry>, e: PriceEntry)
    requires
        entries.len() <= PRICE_HISTORY_SIZE,
    ensures
        with_price(entries, e).len() <= PRICE_HISTORY_SIZE,
{
}

/// Adds a price to a history.
pub fn add_price(entries: &mut Vec<PriceEntry>, e: PriceEntry)
    ensures
        final(entries)@ == with_price(old(entries)@, e),
{
    let n: usize = entries.len();
    if n > 0 && entries[n - 1].price.same_as(e.price) {
        let price: Decimal = entries[n - 1].price;
        let renewed = PriceEntry {
            received_at: e.received_at,
            price,
            source: e.source,
            source_ts: e.source_ts,
        };
        let _ = entries.pop();
        entries.push(renewed);
    } else {
        entries.push(e);
        if entries.len() > PRICE_HISTORY_SIZE {
            let ghost all = entries@;
            let _ = entries.remove(0);
            assert(entries@ =~= all.skip(1));
        }
    }
}

/// Whether a boundary price from a feed takes the place of what is there: nothing, or a
/// price that is not from the oracle while this one is.
pub open spec fn takes_boundary(existing: Option<BoundarySnapshot>, source: Seq<char>) -> bool {
    match existing {
        None => true,
        Some(e) => same_ignoring_case(source, "chainlink"@) && !same_ignoring_case(
            e.source@,
            "chainlink"@,
        ),
    }
}

/// A boundary price is of another coin, or not older than `cutoff`.
pub open spec fn boundary_current(key: Seq<char>, prefix: Seq<char>, cutoff: int) -> bool {
    if begins_with(key, prefix) {
        match i64_value(key.skip(prefix.len() as int)) {
            Some(ts) => ts >= cutoff,
            None => true,
        }
    } else {
        true
    }
}

/// The boundary prices once those of a coin that are older than four windows are gone.
pub open spec fn pruned(
    rows: Seq<(Seq<char>, BoundarySnapshot)>,
    coin: Seq<char>,
    now: DateTime,
) -> Seq<(Seq<char>, BoundarySnapshot)> {
    kept(
        rows,
        |key: Seq<char>, b: BoundarySnapshot|
            boundary_current(key, coin + "-"@, now.secs_of() - 4 * WINDOW_SECS),
    )
}

/// Drops the boundary prices of a coin that are older than four windows.
pub fn prune_boundaries(table: &mut Table<BoundarySnapshot>, coin: &str, now: DateTime)
    ensures
        final(table).rows() == pruned(old(table).rows(), coin@, now),
{
    let cutoff: i64 = now.timestamp() - WINDOW_SECS * 4;
    let mut prefix = owned(coin);
    prefix.append("-");
    let ghost rows = table.rows();
    let ghost keep = |key: Seq<char>, b: BoundarySnapshot|
        boundary_current(key, prefix@, cutoff as int);
    let ghost done: int = 0;
    let mut i: usize = 0;
    assert(kept(rows.take(0), keep) =~= Seq::empty());
    while i < table.len()
        invariant
            0 <= done <= rows.len(),
            i <= done,
            keep == (|key: Seq<char>, b: BoundarySnapshot|
                boundary_current(key, prefix@, cutoff as int)),
            table.rows() =~= kept(rows.take(done), keep) + rows.skip(done),
            i == kept(rows.take(done), keep).len(),
        decreases rows.len() - done,
    {
        proof {
            lemma_kept_step(rows, keep, done);
            assert(rows.skip(done)[0] == rows[done]);
        }
        let stays: bool = match after_prefix(table.key_at(i).as_str(), prefix.as_str()) {
            Some(rest) => match parse_i64(rest) {
                Some(ts) => ts >= cutoff,
                None => true,
            },
            None => true,
        };
        if stays {
            i += 1;
        } else {
            let _ = table.remove_at(i);
        }
        proof {
            done = done + 1;
        }
    }
    assert(rows.take(rows.len() as int) =~= rows);
}

/// A candidate for a historical reference: its staleness in seconds, its price, and
/// whether its feed is preferred.
pub struct Candidate {
    pub staleness: u64,
    pub price: Decimal,
    pub preferred: bool,
}

/// Seconds between a price and a window start.
pub open spec fn staleness_of(e: PriceEntry, target: DateTime) -> int {
    abs_int(secs_between(e.received_at, target))
}

/// A feed is preferred: the oracle, and the futures market where `futures` says so.
pub open spec fn is_preferred(source: Seq<char>, futures: bool) -> bool {
    same_ignoring_case(source, "chainlink"@) || (futures && same_ignoring_case(
        source,
        "binance-futures"@,
    ))
}

/// Whether a price is a better reference than the best so far: it is fresher, or it is from
/// a preferred feed and less than 5 s staler than one that is not.
pub open spec fn is_better(best: Option<Candidate>, staleness: int, preferred: bool) -> bool {
    match best {
        None => true,
        Some(b) => if preferred && !b.preferred && staleness < b.staleness + 5 {
            true
        } else if !preferred && b.preferred && b.staleness < staleness + 5 {
            false
        } else {
            staleness < b.staleness
        },
    }
}

/// The best reference among prices, oldest first, within 30 s of a window start.
pub open spec fn best_candidate(entries: Seq<PriceEntry>, target: DateTime, futures: bool) -> Option<
    Candidate,
>
    decreases entries.len(),
{
    if entries.len() == 0 {
        None
    } else {
        let best = best_candidate(entries.drop_last(), target, futures);
        let e = entries.last();
        let s = staleness_of(e, target);
        if s < 30 && is_better(best, s, is_preferred(e.source@, futures)) {
            Some(Candidate { staleness: s as u64, price: e.price, preferred: is_preferred(e.source@, futures) })
        } else {
            best
        }
    }
}

/// The best reference among prices within 30 s of a window start.
pub fn find_candidate(entries: &Vec<PriceEntry>, target: DateTime, futures: bool) -> (r: Option<
    Candidate,
>)
    ensures
        r == best_candidate(entries@, target, futures),
{
    let mut best: Option<Candidate> = None;
    let mut i: usize = 0;
    while i < entries.len()
        invariant
            i <= entries@.len(),
            best == best_candidate(entries@.take(i as int), target, futures),
        decreases entries@.len() - i,
    {
        assert(entries@.take(i as int + 1).drop_last() =~= entries@.take(i as int));
        let e = &entries[i];
        let diff: i64 = e.received_at.secs_since(target);
        let staleness: u64 = if diff < 0 {
            (-diff) as u64
        } else {
            diff as u64
        };
        if staleness < 30 {
            let preferred: bool = same_text_ignoring_case(e.source.as_str(), "chainlink")
                || (futures && same_text_ignoring_case(e.source.as_str(), "binance-futures"));
            let better: bool = match &best {
                None => true,
                Some(b) => if preferred && !b.preferred && (b.staleness >= staleness || staleness
                    - b.staleness < 5) {
                    true
                } else if !preferred && b.preferred && b.staleness < staleness + 5 {
                    false
                } else {
                    staleness < b.staleness
                },
            };
            if better {
                best = Some(Candidate { staleness, price: e.price, preferred });
            }
        }
        i += 1;
    }
    assert(entries@.take(i as int) =~= entries@);
    best
}

/// A boundary price was taken within the tolerance of a window start.
pub open spec fn is_exact(snap: BoundarySnapshot, window_ts: i64) -> bool {
    abs_int(snap.timestamp.secs_of() - window_ts) <= BOUNDARY_TOLERANCE_SECS
}

fn check_exact(snap: &BoundarySnapshot, window_ts: i64) -> (r: bool)
    ensures
        r == is_exact(*snap, window_ts),
{
    let diff: i128 = snap.timestamp.timestamp() as i128 - window_ts as i128;
    -2 <= diff && diff <= 2
}

/// Seconds between a price on the oracle's chain and an instant.
pub open spec fn chain_staleness(p: ChainlinkPrice, ts: i64) -> int {
    abs_int(p.timestamp - unsigned(ts))
}

fn measure_chain_staleness(p: &ChainlinkPrice, ts: i64) -> (r: u64)
    ensures
        r == chain_staleness(*p, ts),
{
    let t: u64 = to_unsigned(ts);
    if p.timestamp >= t {
        p.timestamp - t
    } else {
        t - p.timestamp
    }
}

/// The best recorded price for a window start.
pub open spec fn historical_reference(
    entries: Option<Seq<PriceEntry>>,
    window_ts: i64,
    futures: bool,
) -> Option<Candidate> {
    match entries {
        Some(s) => if MIN_SECS <= window_ts <= MAX_SECS {
            best_candidate(s, instant(window_ts * NANOS_PER_SEC), futures)
        } else {
            None
        },
        None => None,
    }
}

/// The best recorded price for a window start.
pub fn find_historical(entries: Option<&Vec<PriceEntry>>, window_ts: i64, futures: bool) -> (r: Option<
    Candidate,
>)
    ensures
        r == historical_reference(
            match entries {
                Some(v) => Some(v@),
                None => None,
            },
            window_ts,
            futures,
        ),
{
    match entries {
        Some(v) => match DateTime::from_timestamp(window_ts) {
            Some(target) => find_candidate(v, target, futures),
            None => None,
        },
        None => None,
    }
}

/// The most accurate reference price of a window: an exact boundary price, else one from the
/// oracle's chain within 30 s, else the best recorded price within 30 s, else the current
/// price.
pub open spec fn reference_of(
    boundary: Option<BoundarySnapshot>,
    chain: Option<ChainlinkPrice>,
    entries: Option<Seq<PriceEntry>>,
    window_ts: i64,
    current: Decimal,
) -> (Decimal, ReferenceQuality) {
    if boundary is Some && is_exact(boundary->0, window_ts) {
        (boundary->0.price, ReferenceQuality::Exact)
    } else if chain is Some && chain_staleness(chain->0, window_ts) <= 30 {
        (
            chain->0.price,
            ReferenceQuality::OnChain(chain_staleness(chain->0, window_ts) as u64),
        )
    } else {
        match historical_reference(entries, window_ts, true) {
            Some(c) => (c.price, ReferenceQuality::Historical(c.staleness)),
            None => (current, ReferenceQuality::Current),
        }
    }
}

/// A market whose reference is improved where a better one is known: to an exact boundary
/// price, or from the current price to a recorded one.
pub open spec fn upgraded(
    m: MarketWithReference,
    coin: Seq<char>,
    boundaries: Seq<(Seq<char>, BoundarySnapshot)>,
    entries: Option<Seq<PriceEntry>>,
) -> MarketWithReference {
    let boundary = lookup(boundaries, boundary_key(coin, m.window_ts as int));
    if m.coin@ != coin || m.reference_quality == ReferenceQuality::Exact {
        m
    } else if boundary is Some && is_exact(boundary->0, m.window_ts) {
        MarketWithReference {
            reference_quality: ReferenceQuality::Exact,
            reference_price: boundary->0.price,
            ..m
        }
    } else if m.reference_quality != ReferenceQuality::Current {
        m
    } else {
        match historical_reference(entries, m.window_ts, true) {
            Some(c) => MarketWithReference {
                reference_quality: ReferenceQuality::Historical(c.staleness),
                reference_price: c.price,
                ..m
            },
            None => m,
        }
    }
}

/// An upgrade never lowers the quality of a reference, and touches only the reference.
pub proof fn upgrades_never_lower_quality(
    m: MarketWithReference,
    coin: Seq<char>,
    boundaries: Seq<(Seq<char>, BoundarySnapshot)>,
    entries: Option<Seq<PriceEntry>>,
)
    ensures
        ({
            let u = upgraded(m, coin, boundaries, entries);
            &&& u.reference_quality.level().rank_of() >= m.reference_quality.level().rank_of()
            &&& u.reference_quality.level().rank_of() == m.reference_quality.level().rank_of()
                ==> u == m
            &&& u.market == m.market && u.coin == m.coin && u.window_ts == m.window_ts
        }),
{
}

/// The prices at or after an instant.
pub open spec fn since(entries: Seq<PriceEntry>, cutoff: DateTime) -> Seq<PriceEntry>
    decreases entries.len(),
{
    if entries.len() == 0 {
        entries
    } else if entries.last().received_at.nanos_of() >= cutoff.nanos_of() {
        since(entries.drop_last(), cutoff).push(entries.last())
    } else {
        since(entries.drop_last(), cutoff)
    }
}

fn prices_since(entries: &Vec<PriceEntry>, cutoff: DateTime) -> (r: Vec<Decimal>)
    ensures
        r@ == since(entries@, cutoff).map_values(|e: PriceEntry| e.price),
{
    let ghost f = |e: PriceEntry| e.price;
    let mut r: Vec<Decimal> = Vec::new();
    let mut i: usize = 0;
    while i < entries.len()
        invariant
            i <= entries@.len(),
            f == (|e: PriceEntry| e.price),
            r@ =~= since(entries@.take(i as int), cutoff).map_values(f),
        decreases entries@.len() - i,
    {
        assert(entries@.take(i as int + 1).drop_last() =~= entries@.take(i as int));
        if !entries[i].received_at.before(cutoff) {
            r.push(entries[i].price);
        }
        i += 1;
    }
    assert(entries@.take(i as int) =~= entries@);
    r
}

/// A price favours a side of the reference.
pub open spec fn favours(side: OutcomeSide, reference: Decimal, price: Decimal) -> bool {
    if side.bets_up() {
        less(reference, price)
    } else {
        less(price, reference)
    }
}

/// The largest price; the later one of equals.
pub open spec fn highest(s: Seq<Decimal>) -> Decimal
    decreases s.len(),
{
    if s.len() <= 1 {
        s[0]
    } else if at_most(highest(s.drop_last()), s.last()) {
        s.last()
    } else {
        highest(s.drop_last())
    }
}

/// The smallest price; the earlier one of equals.
pub open spec fn lowest(s: Seq<Decimal>) -> Decimal
    decreases s.len(),
{
    if s.len() <= 1 {
        s[0]
    } else if less(s.last(), lowest(s.drop_last())) {
        s.last()
    } else {
        lowest(s.drop_last())
    }
}

fn find_highest(v: &Vec<Decimal>) -> (r: Decimal)
    requires
        v@.len() > 0,
    ensures
        r == highest(v@),
{
    let mut best: Decimal = v[0];
    let mut i: usize = 1;
    assert(v@.take(1)[0] == v@[0]);
    while i < v.len()
        invariant
            1 <= i <= v@.len(),
            best == highest(v@.take(i as int)),
        decreases v@.len() - i,
    {
        assert(v@.take(i as int + 1).drop_last() =~= v@.take(i as int));
        if v[i].ge(best) {
            best = v[i];
        }
        i += 1;
    }
    assert(v@.take(i as int) =~= v@);
    best
}

fn find_lowest(v: &Vec<Decimal>) -> (r: Decimal)
    requires
        v@.len() > 0,
    ensures
        r == lowest(v@),
{
    let mut best: Decimal = v[0];
    let mut i: usize = 1;
    assert(v@.take(1)[0] == v@[0]);
    while i < v.len()
        invariant
            1 <= i <= v@.len(),
            best == lowest(v@.take(i as int)),
        decreases v@.len() - i,
    {
        assert(v@.take(i as int + 1).drop_last() =~= v@.take(i as int));
        if v[i].lt(best) {
            best = v[i];
        }
        i += 1;
    }
    assert(v@.take(i as int) =~= v@);
    best
}

/// `|price - reference| / reference`.
pub open spec fn wick_of(price: Decimal, reference: Decimal) -> Option<Decimal> {
    match minus(Some(price), Some(reference)) {
        None => None,
        Some(d) => over(Some(magnitude(d)), Some(reference)),
    }
}

/// The larger deviation of the extreme prices from the reference. The outer `None` is an
/// overflow.
pub open spec fn volatility_of(prices: Seq<Decimal>, reference: Decimal) -> Option<Option<Decimal>> {
    if prices.len() == 0 {
        Some(None)
    } else {
        match (wick_of(highest(prices), reference), wick_of(lowest(prices), reference)) {
            (Some(up), Some(down)) => Some(Some(larger(up, down))),
            _ => None,
        }
    }
}

/// The latest price at or before an instant.
pub open spec fn price_before(entries: Seq<PriceEntry>, cutoff: DateTime) -> Option<Decimal>
    decreases entries.len(),
{
    if entries.len() == 0 {
        None
    } else if entries.last().received_at.nanos_of() <= cutoff.nanos_of() {
        Some(entries.last().price)
    } else {
        price_before(entries.drop_last(), cutoff)
    }
}

/// The latest price at or before an instant.
pub fn find_price_before(entries: &Vec<PriceEntry>, cutoff: DateTime) -> (r: Option<Decimal>)
    ensures
        r == price_before(entries@, cutoff),
{
    let mut i: usize = entries.len();
    assert(entries@.take(i as int) =~= entries@);
    while i > 0
        invariant
            i <= entries@.len(),
            price_before(entries@, cutoff) == price_before(entries@.take(i as int), cutoff),
        decreases i,
    {
        assert(entries@.take(i as int).drop_last() =~= entries@.take(i as int - 1));
        if !cutoff.before(entries[i - 1].received_at) {
            return Some(entries[i - 1].price);
        }
        i -= 1;
    }
    None
}

/// The relative change of a price from a baseline, where it is a spike. The outer `None` is
/// an overflow.
pub open spec fn spike_of(baseline: Decimal, current: Decimal, threshold: Decimal) -> Option<
    Option<Decimal>,
> {
    if baseline.mantissa_of() == 0 {
        Some(None)
    } else {
        match over(minus(Some(current), Some(baseline)), Some(baseline)) {
            None => None,
            Some(change) => Some(
                if at_most(threshold, magnitude(change)) {
                    Some(change)
                } else {
                    None
                },
            ),
        }
    }
}

/// The price that settles a market from recorded prices: the last of the leading prices that
/// came in by the end of the market, or the latest one.
pub open spec fn settled_from(entries: Seq<PriceEntry>, end: DateTime) -> Option<Decimal> {
    let n = leading_until(entries, end);
    if n > 0 {
        Some(entries[n - 1].price)
    } else if entries.len() > 0 {
        Some(entries.last().price)
    } else {
        None
    }
}

/// How many leading prices came in by an instant.
pub open spec fn leading_until(entries: Seq<PriceEntry>, end: DateTime) -> int
    decreases entries.len(),
{
    if entries.len() == 0 {
        0
    } else if entries[0].received_at.nanos_of() <= end.nanos_of() {
        1 + leading_until(entries.skip(1), end)
    } else {
        0
    }
}

fn find_settled(entries: &Vec<PriceEntry>, end: DateTime) -> (r: Option<Decimal>)
    ensures
        r == settled_from(entries@, end),
{
    let mut i: usize = 0;
    assert(entries@.skip(0) =~= entries@);
    while i < entries.len() && !end.before(entries[i].received_at)
        invariant
            i <= entries@.len(),
            leading_until(entries@, end) == i + leading_until(entries@.skip(i as int), end),
        decreases entries@.len() - i,
    {
        assert(entries@.skip(i as int).skip(1) =~= entries@.skip(i as int + 1));
        assert(entries@.skip(i as int)[0] == entries@[i as int]);
        i += 1;
    }
    proof {
        if i < entries@.len() {
            assert(entries@.skip(i as int)[0] == entries@[i as int]);
        }
    }
    if i > 0 {
        Some(entries[i - 1].price)
    } else if entries.len() > 0 {
        Some(entries[entries.len() - 1].price)
    } else {
        None
    }
}

/// The sum of weighted prices so far.
pub ghost struct Blend {
    pub sum: Decimal,
    pub weight: Decimal,
    pub prices: Seq<Decimal>,
    pub lag: int,
}

/// The sum once a feed is added, where it has a recent price. `None` is an overflow.
pub open spec fn blend_with(
    acc: Option<Blend>,
    sources: Seq<(Seq<char>, SourcedPrice)>,
    name: Seq<char>,
    weight: Decimal,
    now: DateTime,
    max_stale: int,
) -> Option<Blend> {
    match (acc, lookup(sources, name)) {
        (Some(b), Some(sp)) => if secs_between(now, sp.timestamp) > max_stale {
            Some(b)
        } else {
            match (
                plus(Some(b.sum), times(Some(sp.price), Some(weight))),
                plus(Some(b.weight), Some(weight)),
            ) {
                (Some(sum), Some(total)) => Some(
                    Blend {
                        sum,
                        weight: total,
                        prices: b.prices.push(sp.price),
                        lag: if millis_between(now, sp.timestamp) > b.lag {
                            millis_between(now, sp.timestamp)
                        } else {
                            b.lag
                        },
                    },
                ),
                _ => None,
            }
        },
        (b, None) => b,
        (None, _) => None,
    }
}

/// The weighted sum of the recent prices of a coin: futures 0.5, spot 0.3, coinbase 0.2.
pub open spec fn blend_of(
    sources: Seq<(Seq<char>, SourcedPrice)>,
    now: DateTime,
    max_stale: int,
) -> Option<Blend> {
    let none = Some(Blend { sum: zero(), weight: zero(), prices: Seq::empty(), lag: 0 });
    let a = blend_with(none, sources, "binance-futures"@, dec(5, 1), now, max_stale);
    let b = blend_with(a, sources, "binance-spot"@, dec(3, 1), now, max_stale);
    blend_with(b, sources, "coinbase"@, dec(2, 1), now, max_stale)
}

/// The deviation of a price from the composite, in basis points.
pub open spec fn deviation_of(price: Decimal, composite: Decimal) -> Option<Decimal> {
    if composite.mantissa_of() == 0 {
        Some(zero())
    } else {
        match minus(Some(price), Some(composite)) {
            None => None,
            Some(d) => times(
                over(Some(magnitude(d)), Some(composite)),
                Some(dec(10000, 0)),
            ),
        }
    }
}

/// The largest deviation of prices from the composite; zero without a price.
pub open spec fn dispersion_of(prices: Seq<Decimal>, composite: Decimal) -> Option<Decimal>
    decreases prices.len(),
{
    if prices.len() == 0 {
        Some(zero())
    } else {
        match (
            dispersion_of(prices.drop_last(), composite),
            deviation_of(prices.last(), composite),
        ) {
            (Some(most), Some(d)) => Some(
                if prices.len() == 1 || at_most(most, d) {
                    d
                } else {
                    most
                },
            ),
            _ => None,
        }
    }
}

proof fn lemma_dispersion_overflows(prices: Seq<Decimal>, composite: Decimal, n: int)
    requires
        0 <= n <= prices.len(),
        dispersion_of(prices.take(n), composite) is None,
    ensures
        dispersion_of(prices, composite) is None,
    decreases prices.len(),
{
    if n < prices.len() {
        assert(prices.drop_last().take(n) =~= prices.take(n));
        lemma_dispersion_overflows(prices.drop_last(), composite, n);
    } else {
        assert(prices.take(n) =~= prices);
    }
}

/// The price of one feed as a composite, where it is recent.
pub open spec fn single_source(
    sources: Seq<(Seq<char>, SourcedPrice)>,
    name: Seq<char>,
    now: DateTime,
    max_stale: int,
) -> Option<CompositePriceResult> {
    match lookup(sources, name) {
        Some(sp) => if secs_between(now, sp.timestamp) <= max_stale {
            Some(
                CompositePriceResult {
                    price: sp.price,
                    sources_used: 1,
                    max_lag_ms: millis_between(now, sp.timestamp) as i64,
                    dispersion_bps: zero(),
                },
            )
        } else {
            None
        },
        None => None,
    }
}

/// The first recent feed: futures, spot, coinbase, the oracle.
pub open spec fn priority_source(
    sources: Seq<(Seq<char>, SourcedPrice)>,
    now: DateTime,
    max_stale: int,
) -> Option<CompositePriceResult> {
    let a = single_source(sources, "binance-futures"@, now, max_stale);
    let b = single_source(sources, "binance-spot"@, now, max_stale);
    let c = single_source(sources, "coinbase"@, now, max_stale);
    if a is Some {
        a
    } else if b is Some {
        b
    } else if c is Some {
        c
    } else {
        single_source(sources, "chainlink"@, now, max_stale)
    }
}

/// The composite price: the weighted average of enough recent feeds that agree. Without
/// enough of them, the first recent feed if `fallback` is set, else nothing. The outer
/// `None` is an overflow.
pub open spec fn composite_of(
    sources: Seq<(Seq<char>, SourcedPrice)>,
    now: DateTime,
    max_stale: int,
    min_sources: int,
    max_dispersion: Decimal,
    fallback: bool,
) -> Option<Option<CompositePriceResult>> {
    match blend_of(sources, now, max_stale) {
        None => None,
        Some(b) => if b.prices.len() < min_sources || b.weight.mantissa_of() == 0 {
            Some(
                if fallback {
                    priority_source(sources, now, max_stale)
                } else {
                    None
                },
            )
        } else {
            match quotient_of(b.sum, b.weight) {
                None => None,
                Some(price) => match dispersion_of(b.prices, price) {
                    None => None,
                    Some(dispersion) => Some(
                        if less(max_dispersion, dispersion) {
                            None
                        } else {
                            Some(
                                CompositePriceResult {
                                    price,
                                    sources_used: b.prices.len() as usize,
                                    max_lag_ms: b.lag as i64,
                                    dispersion_bps: dispersion,
                                },
                            )
                        },
                    ),
                },
            }
        },
    }
}

struct Blending {
    sum: Decimal,
    weight: Decimal,
    prices: Vec<Decimal>,
    lag: i64,
}

impl Blending {
    spec fn model(&self) -> Blend {
        Blend { sum: self.sum, weight: self.weight, prices: self.prices@, lag: self.lag as int }
    }

    fn take_in(
        &mut self,
        sources: &Table<SourcedPrice>,
        name: &str,
        weight: Decimal,
        now: DateTime,
        max_stale: i64,
    ) -> (r: Result<(), Overflow>)
        ensures
            ({
                let want = blend_with(
                    Some(old(self).model()),
                    sources.rows(),
                    name@,
                    weight,
                    now,
                    max_stale as int,
                );
                &&& r is Ok <==> want is Some
                &&& r is Ok ==> final(self).model() == want->0
            }),
    {
        match sources.get(name) {
            None => Ok(()),
            Some(sp) => {
                if now.secs_since(sp.timestamp) > max_stale {
                    return Ok(());
                }
                let part: Decimal = sp.price.times(weight)?;
                let sum: Decimal = self.sum.plus(part)?;
                let total: Decimal = self.weight.plus(weight)?;
                self.sum = sum;
                self.weight = total;
                self.prices.push(sp.price);
                let lag: i64 = now.millis_since(sp.timestamp);
                if lag > self.lag {
                    self.lag = lag;
                }
                Ok(())
            },
        }
    }
}

fn measure_dispersion(prices: &Vec<Decimal>, composite: Decimal) -> (r: Result<Decimal, Overflow>)
    ensures
        ok_of(r) == dispersion_of(prices@, composite),
{
    let mut most: Decimal = Decimal::zero();
    let mut i: usize = 0;
    while i < prices.len()
        invariant
            i <= prices@.len(),
            dispersion_of(prices@.take(i as int), composite) == Some(most),
        decreases prices@.len() - i,
    {
        assert(prices@.take(i as int + 1).drop_last() =~= prices@.take(i as int));
        let d: Result<Decimal, Overflow> = deviation(prices[i], composite);
        match d {
            Err(_) => {
                proof {
                    lemma_dispersion_overflows(prices@, composite, i as int + 1);
                }
                return Err(Overflow);
            },
            Ok(d) => {
                if i == 0 || d.ge(most) {
                    most = d;
                }
            },
        }
        i += 1;
    }
    assert(prices@.take(i as int) =~= prices@);
    Ok(most)
}

fn deviation(price: Decimal, composite: Decimal) -> (r: Result<Decimal, Overflow>)
    ensures
        ok_of(r) == deviation_of(price, composite),
{
    if composite.is_zero() {
        return Ok(Decimal::zero());
    }
    let diff: Decimal = price.minus(composite)?.abs();
    let ratio: Decimal = diff.over(composite)?;
    ratio.times(Decimal::new(10000, 0))
}

fn find_single(sources: &Table<SourcedPrice>, name: &str, now: DateTime, max_stale: i64) -> (r:
    Option<CompositePriceResult>)
    ensures
        r == single_source(sources.rows(), name@, now, max_stale as int),
{
    match sources.get(name) {
        Some(sp) => if now.secs_since(sp.timestamp) <= max_stale {
            Some(
                CompositePriceResult {
                    price: sp.price,
                    sources_used: 1,
                    max_lag_ms: now.millis_since(sp.timestamp),
                    dispersion_bps: Decimal::zero(),
                },
            )
        } else {
            None
        },
        None => None,
    }
}

/// The composite price of a coin's feeds.
pub fn composite_price(
    sources: &Table<SourcedPrice>,
    now: DateTime,
    max_stale_secs: i64,
    min_sources: usize,
    max_dispersion_bps: Decimal,
    fallback: bool,
) -> (r: Result<Option<CompositePriceResult>, Overflow>)
    ensures
        ok_of(r) == composite_of(
            sources.rows(),
            now,
            max_stale_secs as int,
            min_sources as int,
            max_dispersion_bps,
            fallback,
        ),
{
    let mut acc = Blending {
        sum: Decimal::zero(),
        weight: Decimal::zero(),
        prices: Vec::new(),
        lag: 0,
    };
    assert(acc.prices@ =~= Seq::empty());
    acc.take_in(sources, "binance-futures", Decimal::new(5, 1), now, max_stale_secs)?;
    acc.take_in(sources, "binance-spot", Decimal::new(3, 1), now, max_stale_secs)?;
    acc.take_in(sources, "coinbase", Decimal::new(2, 1), now, max_stale_secs)?;
    if acc.prices.len() < min_sources || acc.weight.is_zero() {
        if !fallback {
            return Ok(None);
        }
        let a = find_single(sources, "binance-futures", now, max_stale_secs);
        if a.is_some() {
            return Ok(a);
        }
        let b = find_single(sources, "binance-spot", now, max_stale_secs);
        if b.is_some() {
            return Ok(b);
        }
        let c = find_single(sources, "coinbase", now, max_stale_secs);
        if c.is_some() {
            return Ok(c);
        }
        return Ok(find_single(sources, "chainlink", now, max_stale_secs));
    }
    let price: Decimal = acc.sum.over(acc.weight)?;
    let dispersion: Decimal = measure_dispersion(&acc.prices, price)?;
    if dispersion.gt(max_dispersion_bps) {
        return Ok(None);
    }
    Ok(
        Some(
            CompositePriceResult {
                price,
                sources_used: acc.prices.len(),
                max_lag_ms: acc.lag,
                dispersion_bps: dispersion,
            },
        ),
    )
}

/// The last `n` elements.
pub open spec fn latest<T>(s: Seq<T>, n: int) -> Seq<T> {
    if s.len() > n {
        s.skip(s.len() - n)
    } else {
        s
    }
}

/// The prices of a coin.
pub open spec fn history_of(
    rows: Seq<(Seq<char>, Seq<PriceEntry>)>,
    coin: Seq<char>,
) -> Seq<PriceEntry> {
    match lookup(rows, coin) {
        Some(s) => s,
        None => Seq::empty(),
    }
}

/// The price that settles a market: from the oracle's chain within 30 s of its end, else
/// from the recorded prices.
pub open spec fn settlement_of(
    entries: Option<Seq<PriceEntry>>,
    end: DateTime,
    chain: Option<ChainlinkPrice>,
) -> Option<Decimal> {
    if chain is Some && chain_staleness(chain->0, end.secs_of() as i64) <= 30 {
        Some(chain->0.price)
    } else {
        match entries {
            Some(s) => settled_from(s, end),
            None => None,
        }
    }
}

/// A composite price that was cached no longer ago than allowed.
pub open spec fn cached_composite(
    rows: Seq<(Seq<char>, (CompositePriceResult, DateTime))>,
    coin: Seq<char>,
    max_age_ms: int,
    now: DateTime,
) -> Option<CompositePriceResult> {
    match lookup(rows, coin) {
        Some((c, at)) => if millis_between(now, at) <= max_age_ms {
            Some(c)
        } else {
            None
        },
        None => None,
    }
}

/// The latest price of a history, when the feed quoted it no longer ago than allowed.
pub open spec fn fresh_price(entries: Seq<PriceEntry>, max_age_ms: int, now: DateTime) -> Option<
    Decimal,
> {
    if entries.len() > 0 && millis_between(now, entries.last().source_ts) <= max_age_ms {
        Some(entries.last().price)
    } else {
        None
    }
}

/// A position of a coin has a token.
pub open spec fn coin_holds(s: Seq<ArbitragePosition>, coin: Seq<char>, token: Seq<char>) -> bool {
    exists|i: int|
        0 <= i < s.len() && (#[trigger] s[i]).coin@ == coin && s[i].token_id@ == token
}

/// The prices in a window were enough and all on one side of the reference. `None` is an
/// overflow.
pub open spec fn sustained(
    entries: Option<Seq<PriceEntry>>,
    reference: Decimal,
    side: OutcomeSide,
    secs: u64,
    min_ticks: int,
    now: DateTime,
) -> Option<bool> {
    match entries {
        None => Some(false),
        Some(s) => match shifted(now, -signed(secs)) {
            None => None,
            Some(cutoff) => {
                let prices = since(s, cutoff).map_values(|e: PriceEntry| e.price);
                Some(
                    prices.len() >= min_ticks && forall|i: int|
                        0 <= i < prices.len() ==> favours(side, reference, #[trigger] prices[i]),
                )
            },
        },
    }
}

/// The recent volatility of a coin. The outer `None` is an overflow.
pub open spec fn recent_volatility(
    entries: Option<Seq<PriceEntry>>,
    reference: Decimal,
    secs: u64,
    now: DateTime,
) -> Option<Option<Decimal>> {
    match entries {
        None => Some(None),
        Some(s) => if reference.mantissa_of() == 0 {
            Some(None)
        } else {
            match shifted(now, -signed(secs)) {
                None => None,
                Some(cutoff) => volatility_of(
                    since(s, cutoff).map_values(|e: PriceEntry| e.price),
                    reference,
                ),
            }
        },
    }
}

/// The spike that a price makes. The outer `None` is an overflow.
pub open spec fn spike_in(
    entries: Option<Seq<PriceEntry>>,
    current: Decimal,
    now: DateTime,
    window_secs: u64,
    threshold: Decimal,
) -> Option<Option<Decimal>> {
    match entries {
        None => Some(None),
        Some(s) => match shifted(now, -signed(window_secs)) {
            None => None,
            Some(cutoff) => match price_before(s, cutoff) {
                None => Some(None),
                Some(baseline) => spike_of(baseline, current, threshold),
            },
        },
    }
}

/// The rows of a table, if there is one.
pub open spec fn opt_rows(t: Option<&Table<SourcedPrice>>) -> Option<Seq<(Seq<char>, SourcedPrice)>> {
    match t {
        Some(t) => Some(t.rows()),
        None => None,
    }
}

/// The composite price for stop-losses was recomputed and passed on to the lifecycles.
pub open spec fn composite_cached(
    pre: CryptoArbRuntime,
    post: CryptoArbRuntime,
    coin: Seq<char>,
    sources: Option<Seq<(Seq<char>, SourcedPrice)>>,
    now: DateTime,
    fallback: bool,
    ok: bool,
) -> bool {
    &&& ({
        let sl = pre.config.stop_loss;
        let composite = match sources {
            None => Some(None),
            Some(t) => composite_of(
                t,
                now,
                whole_units(sl.sl_max_external_age_ms as int, 1000) + 1,
                sl.sl_min_sources as int,
                sl.sl_max_dispersion_bps,
                fallback,
            ),
        };
        match composite {
            None => !ok && post == pre,
            Some(None) => ok && post == pre,
            Some(Some(c)) => {
                &&& ok
                &&& post.sl_composite_cache.rows() == stored(
                    pre.sl_composite_cache.rows(),
                    coin,
                    (c, now),
                )
                &&& post.position_lifecycle.rows() == mapped(
                    pre.position_lifecycle.rows(),
                    |token: Seq<char>, lc: LifecycleView|
                        informed(lc, coin_holds(pre.positions@, coin, token), c, now),
                )
            },
        }
    })
    &&& post == (CryptoArbRuntime {
        sl_composite_cache: post.sl_composite_cache,
        position_lifecycle: post.position_lifecycle,
        ..pre
    })
}

impl CryptoArbRuntime {
    /// The latest price of a coin.
    pub fn get_latest_price(&self, coin: &str) -> (r: Option<Decimal>)
        ensures
            ({
                let s = history_of(self.price_history.rows(), coin@);
                r == (if s.len() > 0 {
                    Some(s.last().price)
                } else {
                    None
                })
            }),
    {
        match self.price_history.get(coin) {
            Some(v) => if v.len() > 0 {
                Some(v[v.len() - 1].price)
            } else {
                None
            },
            None => None,
        }
    }

    /// The price that settles a coin's market at its end, given what the oracle's chain
    /// answered.
    pub fn get_settlement_price(
        &self,
        coin: &str,
        end_date: DateTime,
        chain: Option<ChainlinkPrice>,
    ) -> (r: Option<Decimal>)
        ensures
            r == settlement_of(lookup(self.price_history.rows(), coin@), end_date, chain),
    {
        match chain {
            Some(p) => {
                if measure_chain_staleness(&p, end_date.timestamp()) <= 30 {
                    return Some(p.price);
                }
            },
            None => {},
        }
        match self.price_history.get(coin) {
            Some(v) => find_settled(v, end_date),
            None => None,
        }
    }

    /// Whether, for the last seconds, there were enough prices and all of them favoured a
    /// side.
    pub fn check_sustained_direction(
        &self,
        coin: &str,
        reference_price: Decimal,
        predicted: OutcomeSide,
        min_sustained_secs: u64,
        min_ticks: usize,
        now: DateTime,
    ) -> (r: Result<bool, Overflow>)
        ensures
            ok_of(r) == sustained(
                lookup(self.price_history.rows(), coin@),
                reference_price,
                predicted,
                min_sustained_secs,
                min_ticks as int,
                now,
            ),
    {
        match self.price_history.get(coin) {
            None => Ok(false),
            Some(v) => match now.minus_secs(to_signed(min_sustained_secs)) {
                None => Err(Overflow),
                Some(cutoff) => {
                    let prices: Vec<Decimal> = prices_since(v, cutoff);
                    if prices.len() < min_ticks {
                        return Ok(false);
                    }
                    let mut all: bool = true;
                    let mut i: usize = 0;
                    while i < prices.len()
                        invariant
                            i <= prices@.len(),
                            all == (forall|j: int|
                                0 <= j < i ==> favours(
                                    predicted,
                                    reference_price,
                                    #[trigger] prices@[j],
                                )),
                        decreases prices@.len() - i,
                    {
                        let ok: bool = if predicted.is_up() {
                            prices[i].gt(reference_price)
                        } else {
                            prices[i].lt(reference_price)
                        };
                        assert(ok == favours(predicted, reference_price, prices@[i as int]));
                        all = all && ok;
                        i += 1;
                    }
                    Ok(all)
                },
            },
        }
    }

    /// The largest relative deviation of a coin's price from the reference in the last
    /// seconds.
    pub fn max_recent_volatility(
        &self,
        coin: &str,
        reference_price: Decimal,
        window_secs: u64,
        now: DateTime,
    ) -> (r: Result<Option<Decimal>, Overflow>)
        ensures
            ok_of(r) == recent_volatility(
                lookup(self.price_history.rows(), coin@),
                reference_price,
                window_secs,
                now,
            ),
    {
        if reference_price.is_zero() {
            return Ok(None);
        }
        match self.price_history.get(coin) {
            None => Ok(None),
            Some(v) => match now.minus_secs(to_signed(window_secs)) {
                None => Err(Overflow),
                Some(cutoff) => {
                    let prices: Vec<Decimal> = prices_since(v, cutoff);
                    if prices.len() == 0 {
                        return Ok(None);
                    }
                    let up: Decimal = find_highest(&prices).minus(reference_price)?.abs().over(
                        reference_price,
                    )?;
                    let down: Decimal = find_lowest(&prices).minus(reference_price)?.abs().over(
                        reference_price,
                    )?;
                    Ok(Some(up.max(down)))
                },
            },
        }
    }

    /// A feed was seen no longer ago than allowed.
    pub open spec fn feed_fresh(&self, feed: Seq<char>, max_stale_secs: int, now: DateTime) -> bool {
        match lookup(self.feed_last_seen.rows(), feed) {
            Some(at) => secs_between(now, at) <= max_stale_secs,
            None => false,
        }
    }

    /// Whether every required feed was seen no longer ago than allowed.
    pub fn are_feeds_fresh(&self, required: &Vec<String>, max_stale_secs: i64, now: DateTime) -> (r:
        bool)
        ensures
            r == (forall|i: int|
                0 <= i < required@.len() ==> self.feed_fresh(
                    (#[trigger] required@[i])@,
                    max_stale_secs as int,
                    now,
                )),
    {
        let mut i: usize = 0;
        while i < required.len()
            invariant
                i <= required@.len(),
                forall|j: int|
                    0 <= j < i ==> self.feed_fresh(
                        (#[trigger] required@[j])@,
                        max_stale_secs as int,
                        now,
                    ),
            decreases required@.len() - i,
        {
            let ok: bool = match self.feed_last_seen.get(required[i].as_str()) {
                Some(at) => now.secs_since(*at) <= max_stale_secs,
                None => false,
            };
            if !ok {
                assert(!self.feed_fresh(required@[i as int]@, max_stale_secs as int, now));
                return false;
            }
            i += 1;
        }
        true
    }

    /// Counts a vetoed signal.
    pub fn record_signal_veto(&mut self, reason: &str)
        ensures
            final(self).signal_veto_stats.rows() == counted(
                old(self).signal_veto_stats.rows(),
                reason@,
            ),
            *final(self) == (CryptoArbRuntime {
                signal_veto_stats: final(self).signal_veto_stats,
                ..*old(self)
            }),
    {
        count_up(&mut self.signal_veto_stats, reason);
    }

    /// The composite price of a coin's feeds; none when there are too few.
    pub fn composite_fair_price(
        &self,
        sources: Option<&Table<SourcedPrice>>,
        now: DateTime,
        max_stale_secs: i64,
        min_sources: usize,
        max_dispersion_bps: Decimal,
    ) -> (r: Result<Option<CompositePriceResult>, Overflow>)
        ensures
            ok_of(r) == (match sources {
                None => Some(None),
                Some(t) => composite_of(
                    t.rows(),
                    now,
                    max_stale_secs as int,
                    min_sources as int,
                    max_dispersion_bps,
                    false,
                ),
            }),
    {
        match sources {
            None => Ok(None),
            Some(t) => composite_price(
                t,
                now,
                max_stale_secs,
                min_sources,
                max_dispersion_bps,
                false,
            ),
        }
    }

    /// Recomputes the composite price that stop-losses use, with or without falling back to a
    /// single feed, and passes it on to the lifecycles of the coin's positions.
    pub fn renew_composite(
        &mut self,
        coin: &str,
        sources: Option<&Table<SourcedPrice>>,
        now: DateTime,
        fallback: bool,
    ) -> (r: Result<(), Overflow>)
        ensures
            composite_cached(
                *old(self),
                *final(self),
                coin@,
                opt_rows(sources),
                now,
                fallback,
                r is Ok,
            ),
    {
        let whole: i64 = whole_secs(self.config.stop_loss.sl_max_external_age_ms);
        let composite: Option<CompositePriceResult> = match sources {
            None => None,
            Some(t) => composite_price(
                t,
                now,
                whole + 1,
                self.config.stop_loss.sl_min_sources,
                self.config.stop_loss.sl_max_dispersion_bps,
                fallback,
            )?,
        };
        match composite {
            None => Ok(()),
            Some(c) => {
                self.sl_composite_cache.insert(owned(coin), (c, now));
                inform_lifecycles(&mut self.position_lifecycle, &self.positions, coin, c, now);
                Ok(())
            },
        }
    }

    /// Recomputes the composite price that stop-losses use, and passes it on to the
    /// lifecycles of the coin's positions.
    pub fn update_sl_composite_cache(
        &mut self,
        coin: &str,
        sources: Option<&Table<SourcedPrice>>,
        now: DateTime,
    ) -> (r: Result<(), Overflow>)
        ensures
            composite_cached(
                *old(self),
                *final(self),
                coin@,
                opt_rows(sources),
                now,
                true,
                r is Ok,
            ),
    {
        self.renew_composite(coin, sources, now, true)
    }

    /// The cached composite price of a coin, when it is fresh enough.
    pub fn get_sl_composite(&self, coin: &str, max_age_ms: i64, now: DateTime) -> (r: Option<
        CompositePriceResult,
    >)
        ensures
            r == cached_composite(self.sl_composite_cache.rows(), coin@, max_age_ms as int, now),
    {
        match self.sl_composite_cache.get(coin) {
            Some(entry) => if now.millis_since(entry.1) <= max_age_ms {
                Some(entry.0)
            } else {
                None
            },
            None => None,
        }
    }

    /// The latest price of a coin, when its feed quoted it recently enough.
    pub fn get_sl_single_fresh(&self, coin: &str, max_age_ms: i64, now: DateTime) -> (r: Option<
        Decimal,
    >)
        ensures
            r == fresh_price(
                history_of(self.price_history.rows(), coin@),
                max_age_ms as int,
                now,
            ),
    {
        match self.price_history.get(coin) {
            Some(v) => {
                let n: usize = v.len();
                if n > 0 && now.millis_since(v[n - 1].source_ts) <= max_age_ms {
                    Some(v[n - 1].price)
                } else {
                    None
                }
            },
            None => None,
        }
    }

    /// The relative change of a coin's price over the spike window, where it is a spike.
    pub fn detect_spike(&self, coin: &str, current_price: Decimal, now: DateTime) -> (r: Result<
        Option<Decimal>,
        Overflow,
    >)
        ensures
            ok_of(r) == spike_in(
                lookup(self.price_history.rows(), coin@),
                current_price,
                now,
                self.config.spike.window_secs,
                self.config.spike.threshold_pct,
            ),
    {
        match self.price_history.get(coin) {
            None => Ok(None),
            Some(v) => match now.minus_secs(to_signed(self.config.spike.window_secs)) {
                None => Err(Overflow),
                Some(cutoff) => match find_price_before(v, cutoff) {
                    None => Ok(None),
                    Some(baseline) => {
                        if baseline.is_zero() {
                            return Ok(None);
                        }
                        let change: Decimal = current_price.minus(baseline)?.over(baseline)?;
                        if change.abs().ge(self.config.spike.threshold_pct) {
                            Ok(Some(change))
                        } else {
                            Ok(None)
                        }
                    },
                },
            },
        }
    }

    /// Keeps a spike, and no more of them than configured.
    pub fn record_spike(&mut self, event: SpikeEvent)
        ensures
            final(self).spike_events@ == latest(
                old(self).spike_events@.push(event),
                old(self).config.spike.history_size as int,
            ),
            *final(self) == (CryptoArbRuntime {
                spike_events: final(self).spike_events,
                ..*old(self)
            }),
    {
        let ghost all = self.spike_events@.push(event);
        self.spike_events.push(event);
        let size: usize = self.config.spike.history_size;
        while self.spike_events.len() > size
            invariant
                size == old(self).config.spike.history_size,
                self.spike_events@.len() <= all.len(),
                all.len() <= size ==> self.spike_events@.len() == all.len(),
                all.len() > size ==> self.spike_events@.len() >= size,
                self.spike_events@ =~= all.skip(all.len() - self.spike_events@.len()),
                *self == (CryptoArbRuntime { spike_events: self.spike_events, ..*old(self) }),
            decreases self.spike_events@.len(),
        {
            let _ = self.spike_events.remove(0);
        }
        assert(self.spike_events@ =~= latest(all, size as int));
    }

    /// The most accurate reference price of a coin's window, given what the oracle's chain
    /// answered.
    pub fn find_best_reference(
        &self,
        coin: &str,
        window_ts: i64,
        current_price: Decimal,
        chain: Option<ChainlinkPrice>,
    ) -> (r: (Decimal, ReferenceQuality))
        ensures
            r == reference_of(
                lookup(self.boundary_prices.rows(), boundary_key(coin@, window_ts as int)),
                chain,
                lookup(self.price_history.rows(), coin@),
                window_ts,
                current_price,
            ),
    {
        let key: String = make_boundary_key(coin, window_ts);
        match self.boundary_prices.get(key.as_str()) {
            Some(snap) => {
                if check_exact(snap, window_ts) {
                    return (snap.price, ReferenceQuality::Exact);
                }
            },
            None => {},
        }
        match chain {
            Some(p) => {
                let staleness: u64 = measure_chain_staleness(&p, window_ts);
                if staleness <= 30 {
                    return (p.price, ReferenceQuality::OnChain(staleness));
                }
            },
            None => {},
        }
        match find_historical(self.price_history.get(coin), window_ts, true) {
            Some(c) => (c.price, ReferenceQuality::Historical(c.staleness)),
            None => (current_price, ReferenceQuality::Current),
        }
    }

    /// Drops the boundary prices of a coin that are older than four windows.
    pub fn prune_boundary_snapshots(&mut self, coin: &str, now: DateTime)
        ensures
            final(self).boundary_prices.rows() == pruned(
                old(self).boundary_prices.rows(),
                coin@,
                now,
            ),
            *final(self) == (CryptoArbRuntime {
                boundary_prices: final(self).boundary_prices,
                ..*old(self)
            }),
    {
        prune_boundaries(&mut self.boundary_prices, coin, now);
    }

    /// The active markets with the references of a coin's markets improved.
    pub open spec fn upgraded_markets(&self, coin: Seq<char>) -> Seq<
        (Seq<char>, MarketWithReference),
    > {
        mapped(
            self.active_markets.rows(),
            |id: Seq<char>, m: MarketWithReference|
                upgraded(
                    m,
                    coin,
                    self.boundary_prices.rows(),
                    lookup(self.price_history.rows(), coin),
                ),
        )
    }

    /// Improves the references of a coin's active markets.
    pub fn try_upgrade_quality(&mut self, coin: &str)
        ensures
            final(self).active_markets.rows() == old(self).upgraded_markets(coin@),
            *final(self) == (CryptoArbRuntime {
                active_markets: final(self).active_markets,
                ..*old(self)
            }),
    {
        let ghost rows = self.active_markets.rows();
        let ghost bounds = self.boundary_prices.rows();
        let ghost entries = lookup(self.price_history.rows(), coin@);
        let mut i: usize = 0;
        while i < self.active_markets.len()
            invariant
                i <= rows.len(),
                self.active_markets.rows().len() == rows.len(),
                bounds == old(self).boundary_prices.rows(),
                entries == lookup(old(self).price_history.rows(), coin@),
                forall|j: int|
                    0 <= j < i ==> (#[trigger] self.active_markets.rows()[j]) == (
                        rows[j].0,
                        upgraded(rows[j].1, coin@, bounds, entries),
                    ),
                forall|j: int|
                    i <= j < rows.len() ==> (#[trigger] self.active_markets.rows()[j]) == rows[j],
                *self == (CryptoArbRuntime { active_markets: self.active_markets, ..*old(self) }),
            decreases rows.len() - i,
        {
            let m = self.active_markets.value_at(i);
            let window_ts: i64 = m.window_ts;
            let quality: ReferenceQuality = m.reference_quality;
            if same_text(m.coin.as_str(), coin) && quality != ReferenceQuality::Exact {
                let key: String = make_boundary_key(coin, window_ts);
                let exact: Option<Decimal> = match self.boundary_prices.get(key.as_str()) {
                    Some(snap) => if check_exact(snap, window_ts) {
                        Some(snap.price)
                    } else {
                        None
                    },
                    None => None,
                };
                match exact {
                    Some(price) => {
                        let mut m: MarketWithReference = self.active_markets.value_at(i).clone();
                        m.reference_quality = ReferenceQuality::Exact;
                        m.reference_price = price;
                        self.active_markets.set_at(i, m);
                    },
                    None => {
                        if quality == ReferenceQuality::Current {
                            match find_historical(self.price_history.get(coin), window_ts, true) {
                                Some(c) => {
                                    let mut m: MarketWithReference =
                                        self.active_markets.value_at(i).clone();
                                    m.reference_quality = ReferenceQuality::Historical(c.staleness);
                                    m.reference_price = c.price;
                                    self.active_markets.set_at(i, m);
                                },
                                None => {},
                            }
                        }
                    },
                }
            }
            i += 1;
        }
        assert(self.active_markets.rows() =~= old(self).upgraded_markets(coin@));
    }
}

/// A lifecycle that has the latest composite price, where its coin is the one priced.
pub open spec fn informed(
    lc: LifecycleView,
    held: bool,
    c: CompositePriceResult,
    now: DateTime,
) -> LifecycleView {
    if held {
        LifecycleView { composite: Some(snapshot_of(c)), composite_at: Some(now), ..lc }
    } else {
        lc
    }
}

fn inform_lifecycles(
    lives: &mut Table<PositionLifecycle>,
    positions: &Vec<ArbitragePosition>,
    coin: &str,
    c: CompositePriceResult,
    now: DateTime,
)
    ensures
        final(lives).rows() == mapped(
            old(lives).rows(),
            |token: Seq<char>, lc: LifecycleView|
                informed(lc, coin_holds(positions@, coin@, token), c, now),
        ),
{
    let ghost rows = lives.rows();
    let ghost f = |token: Seq<char>, lc: LifecycleView|
        informed(lc, coin_holds(positions@, coin@, token), c, now);
    let snapshot = CompositePriceSnapshot::from_result(&c);
    let mut i: usize = 0;
    while i < lives.len()
        invariant
            i <= rows.len(),
            lives.rows().len() == rows.len(),
            snapshot == snapshot_of(c),
            f == (|token: Seq<char>, lc: LifecycleView|
                informed(lc, coin_holds(positions@, coin@, token), c, now)),
            forall|j: int|
                0 <= j < i ==> (#[trigger] lives.rows()[j]) == (rows[j].0, f(rows[j].0, rows[j].1)),
            forall|j: int| i <= j < rows.len() ==> (#[trigger] lives.rows()[j]) == rows[j],
        decreases rows.len() - i,
    {
        if has_coin_token(positions, coin, lives.key_at(i).as_str()) {
            let mut lc: PositionLifecycle = lives.value_at(i).clone();
            lc.last_composite = Some(snapshot);
            lc.last_composite_at = Some(now);
            lives.set_at(i, lc);
        }
        i += 1;
    }
    assert(lives.rows() =~= mapped(rows, f));
}

fn has_coin_token(s: &Vec<ArbitragePosition>, coin: &str, token: &str) -> (r: bool)
    ensures
        r == coin_holds(s@, coin@, token@),
{
    let mut i: usize = 0;
    while i < s.len()
        invariant
            i <= s@.len(),
            forall|j: int|
                0 <= j < i ==> !((#[trigger] s@[j]).coin@ == coin@ && s@[j].token_id@ == token@),
        decreases s@.len() - i,
    {
        if same_text(s[i].coin.as_str(), coin) && same_text(s[i].token_id.as_str(), token) {
            return true;
        }
        i += 1;
    }
    false
}

/// The prices of a window are those that came in at or after its start.
pub proof fn a_window_holds_what_came_in_since(entries: Seq<PriceEntry>, cutoff: DateTime)
    ensures
        since(entries, cutoff) == entries.filter(
            |e: PriceEntry| e.received_at.nanos_of() >= cutoff.nanos_of(),
        ),
    decreases entries.len(),
{
    let recent = |e: PriceEntry| e.received_at.nanos_of() >= cutoff.nanos_of();
    reveal(Seq::filter);
    if entries.len() > 0 {
        a_window_holds_what_came_in_since(entries.drop_last(), cutoff);
    }
}

/// The largest and the smallest price are among the prices, and no price is beyond them.
pub proof fn extremes_bound_all_prices(s: Seq<Decimal>, i: int)
    requires
        0 <= i < s.len(),
    ensures
        value(lowest(s)) <= value(s[i]) && value(s[i]) <= value(highest(s)),
        s.contains(lowest(s)) && s.contains(highest(s)),
    decreases s.len(),
{
    if s.len() == 1 {
        assert(s[0] == lowest(s) && s[0] == highest(s));
    } else {
        let h = s.drop_last();
        comparing_compares_values(highest(h), s.last());
        comparing_compares_values(s.last(), lowest(h));
        if i < h.len() {
            assert(h[i] == s[i]);
            extremes_bound_all_prices(h, i);
        } else {
            extremes_bound_all_prices(h, 0);
        }
        let lo = choose|j: int| 0 <= j < h.len() && h[j] == lowest(h);
        let hi = choose|j: int| 0 <= j < h.len() && h[j] == highest(h);
        assert(s[lo] == lowest(h) && s[hi] == highest(h));
        assert(s[s.len() - 1] == s.last());
    }
}

/// A move is sustained where enough prices came in since the start of the window and all of them
/// are on the side's side of the reference: above it for a bet on a rise, below it for a bet on
/// a fall; and not otherwise.
pub proof fn a_sustained_move_stays_on_its_side(
    entries: Seq<PriceEntry>,
    reference: Decimal,
    side: OutcomeSide,
    secs: u64,
    min_ticks: int,
    now: DateTime,
)
    requires
        secs <= i64::MAX,
        sustained(Some(entries), reference, side, secs, min_ticks, now) is Some,
    ensures
        ({
            let start = now.nanos_of() - secs * 1_000_000_000;
            let recent = entries.filter(|e: PriceEntry| e.received_at.nanos_of() >= start);
            let up = side == OutcomeSide::Up || side == OutcomeSide::Yes;
            sustained(Some(entries), reference, side, secs, min_ticks, now)->0 <==> {
                &&& recent.len() >= min_ticks
                &&& forall|i: int|
                    0 <= i < recent.len() ==> if up {
                        value((#[trigger] recent[i]).price) > value(reference)
                    } else {
                        value(recent[i].price) < value(reference)
                    }
            }
        }),
{
    let cutoff = shifted(now, -signed(secs))->0;
    shifting_moves_by_seconds(now, -signed(secs));
    a_window_holds_what_came_in_since(entries, cutoff);
    let start = now.nanos_of() - secs * 1_000_000_000;
    assert((|e: PriceEntry| e.received_at.nanos_of() >= cutoff.nanos_of()) =~= (|e: PriceEntry|
        e.received_at.nanos_of() >= start));
    let recent = since(entries, cutoff);
    let prices = recent.map_values(|e: PriceEntry| e.price);
    let up = side == OutcomeSide::Up || side == OutcomeSide::Yes;
    assert forall|i: int| 0 <= i < recent.len() implies favours(
        side,
        reference,
        #[trigger] prices[i],
    ) == if up {
        value(recent[i].price) > value(reference)
    } else {
        value(recent[i].price) < value(reference)
    } by {
        comparing_compares_values(reference, prices[i]);
        comparing_compares_values(prices[i], reference);
    }
    if sustained(Some(entries), reference, side, secs, min_ticks, now)->0 {
        assert forall|i: int| 0 <= i < recent.len() implies if up {
            value((#[trigger] recent[i]).price) > value(reference)
        } else {
            value(recent[i].price) < value(reference)
        } by {
            assert(favours(side, reference, prices[i]));
        }
    } else if recent.len() >= min_ticks {
        let i = choose|i: int|
            0 <= i < prices.len() && !favours(side, reference, #[trigger] prices[i]);
        assert(recent[i].price == prices[i]);
    }
}

/// The deviation of a price is its distance from the reference as a share of the reference. The
/// 28th digit is left to rounding.
pub proof fn a_deviation_is_a_share_of_the_reference(price: Decimal, reference: Decimal)
    requires
        value(reference) > 0 as real,
        difference_is_exact(price, reference),
        wick_of(price, reference) is Some,
    ensures
        is_ratio(
            abs_of(value(price) - value(reference)),
            value(reference),
            value(wick_of(price, reference)->0),
        ),
{
    differences_add_up(price, reference);
    let d = difference_of(price, reference)->0;
    negating_negates(d);
    quotients_divide(magnitude(d), reference);
}

/// The recent volatility is the largest deviation of a price since the start of the window: no
/// price deviates by more, and one does by as much. The 28th digit is left to rounding.
pub proof fn volatility_is_the_largest_deviation(
    entries: Seq<PriceEntry>,
    reference: Decimal,
    secs: u64,
    now: DateTime,
    i: int,
)
    requires
        secs <= i64::MAX,
        value(reference) > 0 as real,
        recent_volatility(Some(entries), reference, secs, now) is Some,
        recent_volatility(Some(entries), reference, secs, now)->0 is Some,
        ({
            let start = now.nanos_of() - secs * 1_000_000_000;
            let recent = entries.filter(|e: PriceEntry| e.received_at.nanos_of() >= start);
            &&& 0 <= i < recent.len()
            &&& forall|j: int|
                0 <= j < recent.len() ==> difference_is_exact(
                    (#[trigger] recent[j]).price,
                    reference,
                )
        }),
    ensures
        ({
            let start = now.nanos_of() - secs * 1_000_000_000;
            let recent = entries.filter(|e: PriceEntry| e.received_at.nanos_of() >= start);
            let v = value((recent_volatility(Some(entries), reference, secs, now)->0)->0);
            let r = value(reference);
            &&& abs_of(value(recent[i].price) - r) <= r * (v + slack(v))
            &&& exists|j: int|
                0 <= j < recent.len() && abs_of(value((#[trigger] recent[j]).price) - r) >= r * (v
                    - slack(v))
        }),
{
    let cutoff = shifted(now, -signed(secs))->0;
    shifting_moves_by_seconds(now, -signed(secs));
    a_window_holds_what_came_in_since(entries, cutoff);
    let start = now.nanos_of() - secs * 1_000_000_000;
    assert((|e: PriceEntry| e.received_at.nanos_of() >= cutoff.nanos_of()) =~= (|e: PriceEntry|
        e.received_at.nanos_of() >= start));
    signs_agree(reference);
    let recent = since(entries, cutoff);
    let prices = recent.map_values(|e: PriceEntry| e.price);
    extremes_bound_all_prices(prices, i);
    let (hi, lo) = (highest(prices), lowest(prices));
    let a = choose|j: int| 0 <= j < prices.len() && prices[j] == hi;
    let b = choose|j: int| 0 <= j < prices.len() && prices[j] == lo;
    assert(recent[a].price == hi && recent[b].price == lo && recent[i].price == prices[i]);
    let (up, down) = (wick_of(hi, reference)->0, wick_of(lo, reference)->0);
    let v = larger(up, down);
    picking_picks_values(up, down);
    differences_add_up(hi, reference);
    differences_add_up(lo, reference);
    let (dh, dl) = (difference_of(hi, reference)->0, difference_of(lo, reference)->0);
    negating_negates(dh);
    negating_negates(dl);
    quotients_compare(magnitude(dh), reference, v);
    quotients_compare(magnitude(dl), reference, v);
}

/// The recent volatility is no more than a limit where no price since the start of the window
/// deviates by more than the limit, but for the 28th digit.
pub proof fn steady_prices_have_little_volatility(
    entries: Seq<PriceEntry>,
    reference: Decimal,
    secs: u64,
    now: DateTime,
    limit: Decimal,
)
    requires
        secs <= i64::MAX,
        value(reference) > 0 as real,
        recent_volatility(Some(entries), reference, secs, now) is Some,
        recent_volatility(Some(entries), reference, secs, now)->0 is Some,
        ({
            let start = now.nanos_of() - secs * 1_000_000_000;
            let recent = entries.filter(|e: PriceEntry| e.received_at.nanos_of() >= start);
            forall|j: int|
                0 <= j < recent.len() ==> difference_is_exact(
                    (#[trigger] recent[j]).price,
                    reference,
                ) && abs_of(value(recent[j].price) - value(reference)) <= value(reference) * (value(
                    limit,
                ) - slack(value(limit)))
        }),
    ensures
        value((recent_volatility(Some(entries), reference, secs, now)->0)->0) <= value(limit),
{
    let cutoff = shifted(now, -signed(secs))->0;
    shifting_moves_by_seconds(now, -signed(secs));
    a_window_holds_what_came_in_since(entries, cutoff);
    let start = now.nanos_of() - secs * 1_000_000_000;
    assert((|e: PriceEntry| e.received_at.nanos_of() >= cutoff.nanos_of()) =~= (|e: PriceEntry|
        e.received_at.nanos_of() >= start));
    signs_agree(reference);
    let recent = since(entries, cutoff);
    let prices = recent.map_values(|e: PriceEntry| e.price);
    extremes_bound_all_prices(prices, 0);
    let (hi, lo) = (highest(prices), lowest(prices));
    let a = choose|j: int| 0 <= j < prices.len() && prices[j] == hi;
    let b = choose|j: int| 0 <= j < prices.len() && prices[j] == lo;
    assert(recent[a].price == hi && recent[b].price == lo);
    let (up, down) = (wick_of(hi, reference)->0, wick_of(lo, reference)->0);
    picking_picks_values(up, down);
    differences_add_up(hi, reference);
    differences_add_up(lo, reference);
    let (dh, dl) = (difference_of(hi, reference)->0, difference_of(lo, reference)->0);
    negating_negates(dh);
    negating_negates(dl);
    quotients_compare(magnitude(dh), reference, limit);
    quotients_compare(magnitude(dl), reference, limit);
}

/// A spike is a change from the baseline, up or down, of at least the threshold, as a share of
/// the baseline; it has the sign of the change. The 28th digit is left to rounding.
pub proof fn a_spike_is_a_large_change(baseline: Decimal, current: Decimal, threshold: Decimal)
    requires
        value(baseline) > 0 as real,
        difference_is_exact(current, baseline),
        spike_of(baseline, current, threshold) is Some,
    ensures
        ({
            let spike = spike_of(baseline, current, threshold)->0;
            let (before, after, least) = (value(baseline), value(current), value(threshold));
            &&& spike is Some ==> is_ratio(after - before, before, value(spike->0)) && abs_of(
                value(spike->0),
            ) >= least
            &&& spike is Some && after >= before ==> value(spike->0) >= 0 as real
            &&& spike is Some && after <= before ==> value(spike->0) <= 0 as real
            &&& abs_of(after - before) >= before * (least + slack(least)) ==> spike is Some
        }),
{
    signs_agree(baseline);
    differences_add_up(current, baseline);
    let d = difference_of(current, baseline)->0;
    quotients_divide(d, baseline);
    let change = quotient_of(d, baseline)->0;
    let (x, y, z, p) = (value(d), value(baseline), value(change), value(threshold));
    lemma_quotient_is_decimal(d, baseline);
    negating_negates(change);
    comparing_compares_values(threshold, magnitude(change));
    quotients_compare(d, baseline, threshold);
    if x < 0 as real {
        assert((-z) * y - (-x) == -(z * y - x)) by (nonlinear_arith);
        lemma_ratio_bounds(-x, y, -z, p);
    }
}

/// A market settles at the price on the oracle's chain where that is from within 30 seconds of
/// its end; else at the last recorded price before the first one that came in after its end; else,
/// where all came in after it, at the latest recorded price.
pub proof fn settlement_prefers_the_chain_then_the_end(
    entries: Seq<PriceEntry>,
    end: DateTime,
    chain: Option<ChainlinkPrice>,
    n: int,
)
    requires
        0 <= n <= entries.len(),
        entries.len() > 0,
        0 <= end.nanos_of(),
        end.nanos_of() < 0x7fff_ffff_ffff_ffff * 1_000_000_000,
        forall|i: int|
            0 <= i < n ==> (#[trigger] entries[i]).received_at.nanos_of() <= end.nanos_of(),
        n < entries.len() ==> entries[n].received_at.nanos_of() > end.nanos_of(),
    ensures
        ({
            let price = settlement_of(Some(entries), end, chain);
            let close = chain is Some && -30 <= chain->0.timestamp - end.nanos_of()
                / 1_000_000_000 <= 30;
            &&& close ==> price == Some(chain->0.price)
            &&& !close && n > 0 ==> price == Some(entries[n - 1].price)
            &&& !close && n == 0 ==> price == Some(entries.last().price)
        }),
{
    lemma_leading(entries, end, n);
}

proof fn lemma_leading(entries: Seq<PriceEntry>, end: DateTime, n: int)
    requires
        0 <= n <= entries.len(),
        forall|i: int|
            0 <= i < n ==> (#[trigger] entries[i]).received_at.nanos_of() <= end.nanos_of(),
        n < entries.len() ==> entries[n].received_at.nanos_of() > end.nanos_of(),
    ensures
        leading_until(entries, end) == n,
    decreases entries.len(),
{
    if n > 0 {
        let t = entries.skip(1);
        assert forall|i: int| 0 <= i < n - 1 implies (#[trigger] t[i]).received_at.nanos_of()
            <= end.nanos_of() by {
            assert(t[i] == entries[i + 1]);
        }
        if n < entries.len() {
            assert(t[n - 1] == entries[n]);
        }
        assert(entries[0].received_at.nanos_of() <= end.nanos_of());
        lemma_leading(t, end, n - 1);
    }
}

/// A feed has a price that is recent enough.
pub open spec fn has_recent(
    sources: Seq<(Seq<char>, SourcedPrice)>,
    name: Seq<char>,
    now: DateTime,
    max_stale: int,
) -> bool {
    match lookup(sources, name) {
        Some(sp) => secs_between(now, sp.timestamp) <= max_stale,
        None => false,
    }
}

/// What a feed adds to a weighted sum: its price times its weight, where it is recent.
pub open spec fn share_of_sum(
    sources: Seq<(Seq<char>, SourcedPrice)>,
    name: Seq<char>,
    weight: real,
    now: DateTime,
    max_stale: int,
) -> real {
    if has_recent(sources, name, now, max_stale) {
        value(lookup(sources, name)->0.price) * weight
    } else {
        0 as real
    }
}

proof fn lemma_blended_once(
    acc: Blend,
    sources: Seq<(Seq<char>, SourcedPrice)>,
    name: Seq<char>,
    weight: Decimal,
    now: DateTime,
    max_stale: int,
    whole: nat,
)
    requires
        is_within(acc.sum, whole, 9),
        is_within(acc.weight, whole, 9),
        is_within(weight, 0, 1),
        9 <= whole <= 12,
        has_recent(sources, name, now, max_stale) ==> is_within(
            lookup(sources, name)->0.price,
            9,
            8,
        ),
    ensures
        ({
            let out = blend_with(Some(acc), sources, name, weight, now, max_stale);
            let used = has_recent(sources, name, now, max_stale);
            &&& out is Some
            &&& is_within(out->0.sum, whole + 1, 9) && is_within(out->0.weight, whole + 1, 9)
            &&& value(out->0.sum) == value(acc.sum) + share_of_sum(
                sources,
                name,
                value(weight),
                now,
                max_stale,
            )
            &&& value(out->0.weight) == value(acc.weight) + if used {
                value(weight)
            } else {
                0 as real
            }
            &&& out->0.prices == if used {
                acc.prices.push(lookup(sources, name)->0.price)
            } else {
                acc.prices
            }
        }),
{
    lemma_within_more(acc.sum, whole, 9, whole + 1, 9);
    lemma_within_more(acc.weight, whole, 9, whole + 1, 9);
    if has_recent(sources, name, now, max_stale) {
        let price = lookup(sources, name)->0.price;
        small_products_are_exact(price, weight, 9, 8, 0, 1);
        lemma_within_more(product_of(price, weight)->0, 9, 9, whole, 9);
        small_sums_are_exact(acc.sum, product_of(price, weight)->0, whole, 9);
        lemma_within_more(weight, 0, 1, whole, 9);
        small_sums_are_exact(acc.weight, weight, whole, 9);
    }
}

/// A composite price is the average of the recent feeds, futures weighing 5, spot 3 and coinbase
/// 2: there is one only where at least as many of the three are recent as are asked for. The
/// 28th digit is left to rounding.
pub proof fn a_composite_is_the_weighted_average(
    sources: Seq<(Seq<char>, SourcedPrice)>,
    now: DateTime,
    max_stale: int,
    min_sources: int,
    max_dispersion: Decimal,
)
    requires
        has_recent(sources, "binance-futures"@, now, max_stale) ==> is_within(
            lookup(sources, "binance-futures"@)->0.price,
            9,
            8,
        ),
        has_recent(sources, "binance-spot"@, now, max_stale) ==> is_within(
            lookup(sources, "binance-spot"@)->0.price,
            9,
            8,
        ),
        has_recent(sources, "coinbase"@, now, max_stale) ==> is_within(
            lookup(sources, "coinbase"@)->0.price,
            9,
            8,
        ),
        composite_of(sources, now, max_stale, min_sources, max_dispersion, false) is Some,
    ensures
        ({
            let c = composite_of(
                sources,
                now,
                max_stale,
                min_sources,
                max_dispersion,
                false,
            )->0;
            let futures = has_recent(sources, "binance-futures"@, now, max_stale);
            let spot = has_recent(sources, "binance-spot"@, now, max_stale);
            let coinbase = has_recent(sources, "coinbase"@, now, max_stale);
            let count = (if futures {
                1int
            } else {
                0
            }) + (if spot {
                1int
            } else {
                0
            }) + (if coinbase {
                1int
            } else {
                0
            });
            let weights = (if futures {
                5int
            } else {
                0
            }) + (if spot {
                3int
            } else {
                0
            }) + (if coinbase {
                2int
            } else {
                0
            });
            let sum = share_of_sum(sources, "binance-futures"@, 5 as real, now, max_stale)
                + share_of_sum(sources, "binance-spot"@, 3 as real, now, max_stale) + share_of_sum(
                sources,
                "coinbase"@,
                2 as real,
                now,
                max_stale,
            );
            &&& c is Some ==> count >= min_sources && count > 0 && c->0.sources_used == count
            &&& c is Some ==> is_ratio(sum, weights as real, value(c->0.price))
            &&& c is Some ==> value(c->0.dispersion_bps) <= value(max_dispersion)
            &&& c is None && count >= min_sources && count > 0 ==> exists|
                average: Decimal,
                price: Decimal,
            | #[trigger]
                deviation_of(price, average) is Some && is_ratio(
                    sum,
                    weights as real,
                    value(average),
                ) && value(deviation_of(price, average)->0) > value(max_dispersion) && (futures
                    && price == lookup(sources, "binance-futures"@)->0.price || spot && price
                    == lookup(sources, "binance-spot"@)->0.price || coinbase && price == lookup(
                    sources,
                    "coinbase"@,
                )->0.price)
        }),
{
    let names = ("binance-futures"@, "binance-spot"@, "coinbase"@);
    lemma_dec_parts(0, 0);
    lemma_dec_parts(5, 1);
    lemma_dec_parts(3, 1);
    lemma_dec_parts(2, 1);
    value_of_parts(5, 1);
    value_of_parts(3, 1);
    value_of_parts(2, 1);
    signs_agree(zero());
    reveal_with_fuel(pow10, 2);
    assert(is_within(dec(5, 1), 0, 1) && is_within(dec(3, 1), 0, 1) && is_within(dec(2, 1), 0, 1));
    let none = Blend { sum: zero(), weight: zero(), prices: Seq::empty(), lag: 0 };
    assert(is_within(zero(), 0, 0));
    lemma_within_more(zero(), 0, 0, 9, 9);
    lemma_blended_once(none, sources, names.0, dec(5, 1), now, max_stale, 9);
    let a = blend_with(Some(none), sources, names.0, dec(5, 1), now, max_stale);
    lemma_blended_once(a->0, sources, names.1, dec(3, 1), now, max_stale, 10);
    let b = blend_with(a, sources, names.1, dec(3, 1), now, max_stale);
    lemma_blended_once(b->0, sources, names.2, dec(2, 1), now, max_stale, 11);
    let d = blend_with(b, sources, names.2, dec(2, 1), now, max_stale)->0;
    assert(blend_of(sources, now, max_stale) == Some(d));
    let c = composite_of(sources, now, max_stale, min_sources, max_dispersion, false)->0;
    signs_agree(d.weight);
    if d.prices.len() > 0 && d.prices.len() >= min_sources {
        let average = quotient_of(d.sum, d.weight)->0;
        let dispersion = dispersion_of(d.prices, average)->0;
        comparing_compares_values(max_dispersion, dispersion);
        quotients_divide(d.sum, d.weight);
        lemma_ten_times(value(d.sum), value(d.weight), value(average));
        the_dispersion_is_the_largest_deviation(d.prices, average, 0);
        let j = choose|j: int|
            0 <= j < d.prices.len() && deviation_of(#[trigger] d.prices[j], average)
                == dispersion_of(d.prices, average);
        assert(deviation_of(d.prices[j], average) is Some);
        let (pf, ps, pc) = (
            value(lookup(sources, names.0)->0.price),
            value(lookup(sources, names.1)->0.price),
            value(lookup(sources, names.2)->0.price),
        );
        assert((10 as real) * (pf * ((5 as real) / (10 as real))) == pf * (5 as real) && (
        10 as real) * (ps * ((3 as real) / (10 as real))) == ps * (3 as real) && (10 as real) * (pc
            * ((2 as real) / (10 as real))) == pc * (2 as real)) by (nonlinear_arith);
    }
}

/// A ratio stays the same where both terms are ten times as large.
proof fn lemma_ten_times(x: real, y: real, z: real)
    requires
        is_ratio(x, y, z),
    ensures
        is_ratio((10 as real) * x, (10 as real) * y, z),
{
    let e = pow10(28) as real;
    let m = max_of(1 as real, abs_of(z));
    let gap = z * y - x;
    let wide = z * ((10 as real) * y) - (10 as real) * x;
    assert(wide == (10 as real) * gap) by (nonlinear_arith)
        requires
            gap == z * y - x,
            wide == z * ((10 as real) * y) - (10 as real) * x,
    ;
    assert(abs_of(wide) * e <= abs_of((10 as real) * y) * m) by (nonlinear_arith)
        requires
            abs_of(gap) * e <= abs_of(y) * m,
            abs_of(wide) == (10 as real) * abs_of(gap),
            abs_of((10 as real) * y) == (10 as real) * abs_of(y),
    ;
}

/// Every feed of a composite deviates from it by no more than the dispersion that is reported.
pub proof fn the_dispersion_is_the_largest_deviation(
    prices: Seq<Decimal>,
    composite: Decimal,
    i: int,
)
    requires
        0 <= i < prices.len(),
        dispersion_of(prices, composite) is Some,
    ensures
        deviation_of(prices[i], composite) is Some,
        value(deviation_of(prices[i], composite)->0) <= value(dispersion_of(prices, composite)->0),
        exists|j: int|
            0 <= j < prices.len() && deviation_of(#[trigger] prices[j], composite)
                == dispersion_of(prices, composite),
    decreases prices.len(),
{
    let h = prices.drop_last();
    let d = deviation_of(prices.last(), composite)->0;
    assert(prices[prices.len() - 1] == prices.last());
    if h.len() > 0 {
        let most = dispersion_of(h, composite)->0;
        comparing_compares_values(most, d);
        if i < h.len() {
            assert(h[i] == prices[i]);
            the_dispersion_is_the_largest_deviation(h, composite, i);
        } else {
            the_dispersion_is_the_largest_deviation(h, composite, 0);
        }
        let j = choose|j: int|
            0 <= j < h.len() && deviation_of(#[trigger] h[j], composite) == dispersion_of(
                h,
                composite,
            );
        assert(prices[j] == h[j]);
    }
}

/// A deviation from a composite is the distance as a share of the composite, in ten-thousandths.
pub proof fn a_deviation_is_in_basis_points(price: Decimal, composite: Decimal)
    requires
        value(composite) > 0 as real,
        difference_is_exact(price, composite),
        wick_of(price, composite) is Some,
        product_is_exact(wick_of(price, composite)->0, dec(10000, 0)),
    ensures
        deviation_of(price, composite) is Some,
        value(deviation_of(price, composite)->0) == value(wick_of(price, composite)->0) * (
        10000 as real),
{
    signs_agree(composite);
    value_of_parts(10000, 0);
    products_multiply(wick_of(price, composite)->0, dec(10000, 0));
}

/// A price that repeats the last one renews its time; any other is added, and the oldest of more
/// than 200 leaves.
pub proof fn a_history_holds_the_last_changes(entries: Seq<PriceEntry>, e: PriceEntry)
    requires
        entries.len() <= 200,
    ensures
        ({
            let next = with_price(entries, e);
            let repeats = entries.len() > 0 && value(entries.last().price) == value(e.price);
            let n = entries.len() as int;
            &&& next.len() > 0 && value(next.last().price) == value(e.price)
            &&& next.last().received_at == e.received_at && next.last().source_ts == e.source_ts
            &&& repeats ==> next.len() == n && next.drop_last() == entries.drop_last()
            &&& !repeats && n < 200 ==> next.len() == n + 1 && next.drop_last() == entries
            &&& !repeats && n == 200 ==> next.len() == 200 && next.drop_last() == entries.skip(1)
        }),
{
    let next = with_price(entries, e);
    if entries.len() > 0 {
        comparing_compares_values(entries.last().price, e.price);
    }
    if entries.len() > 0 && value(entries.last().price) == value(e.price) {
        assert(next.drop_last() =~= entries.drop_last());
    } else if entries.len() < 200 {
        assert(next.drop_last() =~= entries);
    } else {
        assert(next.drop_last() =~= entries.skip(1));
    }
}

/// The price before an instant is the last that came in no later than it.
pub proof fn the_price_before_is_the_last_by_then(
    entries: Seq<PriceEntry>,
    cutoff: DateTime,
    i: int,
)
    requires
        -1 <= i < entries.len(),
        i >= 0 ==> entries[i].received_at.nanos_of() <= cutoff.nanos_of(),
        forall|j: int|
            i < j < entries.len() ==> (#[trigger] entries[j]).received_at.nanos_of()
                > cutoff.nanos_of(),
    ensures
        i >= 0 ==> price_before(entries, cutoff) == Some(entries[i].price),
        i < 0 ==> price_before(entries, cutoff) is None,
    decreases entries.len(),
{
    if entries.len() > 0 && i < entries.len() - 1 {
        let h = entries.drop_last();
        assert(entries[entries.len() - 1] == entries.last());
        assert forall|j: int| i < j < h.len() implies (#[trigger] h[j]).received_at.nanos_of()
            > cutoff.nanos_of() by {
            assert(h[j] == entries[j]);
        }
        the_price_before_is_the_last_by_then(h, cutoff, i);
    }
}

/// An entry came in less than 30 seconds before or after an instant.
pub open spec fn is_near(e: PriceEntry, target: DateTime) -> bool {
    -30_000_000_000 < e.received_at.nanos_of() - target.nanos_of() < 30_000_000_000
}

/// A historical reference is the price of an entry from within 30 seconds of the window's start,
/// and there is one where any entry is.
pub proof fn a_historical_reference_is_from_within_half_a_minute(
    entries: Seq<PriceEntry>,
    target: DateTime,
    futures: bool,
)
    ensures
        ({
            let best = best_candidate(entries, target, futures);
            &&& best is Some <==> exists|i: int| 0 <= i < entries.len() && is_near(
                #[trigger] entries[i],
                target,
            )
            &&& best is Some ==> best->0.staleness < 30 && exists|i: int|
                0 <= i < entries.len() && (#[trigger] entries[i]).price == best->0.price
                    && staleness_of(entries[i], target) == best->0.staleness && is_preferred(
                    entries[i].source@,
                    futures,
                ) == best->0.preferred
        }),
    decreases entries.len(),
{
    if entries.len() > 0 {
        let h = entries.drop_last();
        let e = entries.last();
        a_historical_reference_is_from_within_half_a_minute(h, target, futures);
        whole_seconds_have_passed(e.received_at, target);
        whole_seconds_have_passed(target, e.received_at);
        assert(is_near(e, target) <==> staleness_of(e, target) < 30);
        assert(entries[entries.len() - 1] == e);
        assert forall|i: int| 0 <= i < h.len() implies #[trigger] h[i] == entries[i] by {}
        if exists|i: int| 0 <= i < entries.len() && is_near(#[trigger] entries[i], target) {
            let i = choose|i: int| 0 <= i < entries.len() && is_near(#[trigger] entries[i], target);
            assert(i < h.len() ==> is_near(h[i], target));
        }
        if exists|i: int| 0 <= i < h.len() && is_near(#[trigger] h[i], target) {
            let i = choose|i: int| 0 <= i < h.len() && is_near(#[trigger] h[i], target);
            assert(is_near(entries[i], target));
        }
        if best_candidate(entries, target, futures) == best_candidate(h, target, futures)
            && best_candidate(h, target, futures) is Some {
            let best = best_candidate(h, target, futures)->0;
            let i = choose|i: int|
                0 <= i < h.len() && (#[trigger] h[i]).price == best.price && staleness_of(
                    h[i],
                    target,
                ) == best.staleness && is_preferred(h[i].source@, futures) == best.preferred;
            assert(h[i] == entries[i]);
        }
    }
}

/// Of two prices near a window's start, the nearer is the reference; one of a preferred source
/// wins while it is less than 5 seconds farther off, the earlier recorded of two alike.
pub proof fn a_nearer_price_is_the_better_reference(
    entries: Seq<PriceEntry>,
    e: PriceEntry,
    target: DateTime,
    futures: bool,
)
    requires
        best_candidate(entries, target, futures) is Some,
        staleness_of(e, target) < 30,
    ensures
        ({
            let before = best_candidate(entries, target, futures)->0;
            let after = best_candidate(entries.push(e), target, futures)->0;
            let s = staleness_of(e, target);
            let handicap = if is_preferred(e.source@, futures) == before.preferred {
                0int
            } else if before.preferred {
                4int
            } else {
                -5int
            };
            let taken = s + handicap < before.staleness;
            &&& best_candidate(entries.push(e), target, futures) is Some
            &&& taken ==> after.price == e.price && after.staleness == s
            &&& !taken ==> after == before
        }),
{
    assert(entries.push(e).drop_last() =~= entries);
}

/// The reference of a window is the boundary price taken within 2 seconds of its start; else the
/// price on the oracle's chain from within 30 seconds of it; else the best of the history; else the
/// current price.
pub proof fn references_come_from_the_best_source(
    boundary: Option<BoundarySnapshot>,
    chain: Option<ChainlinkPrice>,
    entries: Option<Seq<PriceEntry>>,
    window_ts: i64,
    current: Decimal,
)
    requires
        0 <= window_ts <= 0x7_0000_0000,
    ensures
        ({
            let (price, quality) = reference_of(boundary, chain, entries, window_ts, current);
            let at_start = boundary is Some && -2 <= boundary->0.timestamp.secs_of() - window_ts
                <= 2;
            let on_chain = chain is Some && -30 <= chain->0.timestamp - window_ts <= 30;
            let recorded = historical_reference(entries, window_ts, true);
            &&& at_start ==> price == boundary->0.price && quality == ReferenceQuality::Exact
            &&& !at_start && on_chain ==> price == chain->0.price && quality is OnChain
                && quality->OnChain_0 == abs_int(chain->0.timestamp - window_ts)
            &&& !at_start && !on_chain && recorded is Some ==> price == recorded->0.price && quality
                == ReferenceQuality::Historical(recorded->0.staleness)
            &&& !at_start && !on_chain && recorded is None ==> price == current && quality
                == ReferenceQuality::Current
        }),
{
}

/// A reference that is not exact becomes so with the price taken within 2 seconds of the window's
/// start.
pub proof fn a_boundary_price_makes_a_reference_exact(
    m: MarketWithReference,
    boundaries: Seq<(Seq<char>, BoundarySnapshot)>,
    entries: Option<Seq<PriceEntry>>,
    b: BoundarySnapshot,
)
    requires
        m.reference_quality != ReferenceQuality::Exact,
        lookup(boundaries, boundary_key(m.coin@, m.window_ts as int)) == Some(b),
    ensures
        ({
            let u = upgraded(m, m.coin@, boundaries, entries);
            let at_start = -2 <= b.timestamp.secs_of() - m.window_ts <= 2;
            &&& at_start ==> u.reference_quality == ReferenceQuality::Exact && u.reference_price
                == b.price
            &&& !at_start && m.reference_quality != ReferenceQuality::Current ==> u == m
        }),
{
}

/// Where too few sources are fresh for a composite, the first fresh one of the futures, spot,
/// exchange and chain prices stands in for it.
pub proof fn one_source_stands_in_for_a_composite(
    sources: Seq<(Seq<char>, SourcedPrice)>,
    now: DateTime,
    max_stale: int,
    name: Seq<char>,
    sp: SourcedPrice,
)
    requires
        max_stale >= 0,
        lookup(sources, name) == Some(sp),
        now.nanos_of() - sp.timestamp.nanos_of() < (max_stale + 1) * 1_000_000_000,
        ({
            let fresh = |n: Seq<char>|
                lookup(sources, n) is Some && now.nanos_of() - lookup(
                    sources,
                    n,
                )->0.timestamp.nanos_of() < (max_stale + 1) * 1_000_000_000;
            ||| name == "binance-futures"@
            ||| name == "binance-spot"@ && !fresh("binance-futures"@)
            ||| name == "coinbase"@ && !fresh("binance-futures"@) && !fresh("binance-spot"@)
            ||| name == "chainlink"@ && !fresh("binance-futures"@) && !fresh("binance-spot"@)
                && !fresh("coinbase"@)
        }),
    ensures
        priority_source(sources, now, max_stale) is Some,
        priority_source(sources, now, max_stale)->0.price == sp.price,
        priority_source(sources, now, max_stale)->0.sources_used == 1,
{
    lemma_single_source(sources, "binance-futures"@, now, max_stale);
    lemma_single_source(sources, "binance-spot"@, now, max_stale);
    lemma_single_source(sources, "coinbase"@, now, max_stale);
    lemma_single_source(sources, "chainlink"@, now, max_stale);
}

/// A source counts while the whole of its allowed seconds and one more have not passed.
proof fn lemma_single_source(
    sources: Seq<(Seq<char>, SourcedPrice)>,
    name: Seq<char>,
    now: DateTime,
    max_stale: int,
)
    requires
        max_stale >= 0,
    ensures
        single_source(sources, name, now, max_stale) is Some <==> lookup(sources, name) is Some
            && now.nanos_of() - lookup(sources, name)->0.timestamp.nanos_of() < (max_stale + 1)
            * 1_000_000_000,
        single_source(sources, name, now, max_stale) is Some ==> single_source(
            sources,
            name,
            now,
            max_stale,
        )->0.price == lookup(sources, name)->0.price,
{
    if lookup(sources, name) is Some {
        let at = lookup(sources, name)->0.timestamp;
        whole_seconds_have_passed(now, at);
        whole_seconds_have_passed(at, now);
    }
}

/// A cached composite serves for as long as the whole of its allowed milliseconds has not passed by
/// one.
pub proof fn a_cached_composite_serves_for_its_age(
    rows: Seq<(Seq<char>, (CompositePriceResult, DateTime))>,
    coin: Seq<char>,
    max_age_ms: int,
    now: DateTime,
    c: CompositePriceResult,
    at: DateTime,
)
    requires
        lookup(rows, coin) == Some((c, at)),
        max_age_ms >= 0,
    ensures
        now.nanos_of() - at.nanos_of() < (max_age_ms + 1) * 1_000_000 ==> cached_composite(
            rows,
            coin,
            max_age_ms,
            now,
        ) == Some(c),
        now.nanos_of() - at.nanos_of() >= (max_age_ms + 1) * 1_000_000 ==> cached_composite(
            rows,
            coin,
            max_age_ms,
            now,
        ) is None,
{
    whole_millis_have_passed(now, at);
    whole_millis_have_passed(at, now);
}

/// A spike is looked for against the last price from before the window.
pub proof fn a_spike_is_measured_from_before_the_window(
    entries: Seq<PriceEntry>,
    current: Decimal,
    now: DateTime,
    window_secs: u64,
    threshold: Decimal,
    i: int,
)
    requires
        spike_in(Some(entries), current, now, window_secs, threshold) is Some,
        window_secs <= i64::MAX,
        -1 <= i < entries.len(),
        i >= 0 ==> now.nanos_of() - entries[i].received_at.nanos_of() >= window_secs
            * 1_000_000_000,
        forall|j: int|
            i < j < entries.len() ==> now.nanos_of() - (
            #[trigger] entries[j]).received_at.nanos_of() < window_secs * 1_000_000_000,
    ensures
        i >= 0 ==> spike_in(Some(entries), current, now, window_secs, threshold) == spike_of(
            entries[i].price,
            current,
            threshold,
        ),
        i < 0 ==> spike_in(Some(entries), current, now, window_secs, threshold) == Some(
            None::<Decimal>,
        ),
{
    let secs = -signed(window_secs);
    shifting_moves_by_seconds(now, secs);
    the_price_before_is_the_last_by_then(entries, shifted(now, secs)->0, i);
}

/// A feed is fresh until its allowed seconds and one more have passed since it was last seen.
pub proof fn a_feed_goes_stale_after_its_seconds(
    rt: CryptoArbRuntime,
    feed: Seq<char>,
    max_stale_secs: int,
    now: DateTime,
)
    requires
        max_stale_secs >= 0,
    ensures
        rt.feed_fresh(feed, max_stale_secs, now) <==> lookup(rt.feed_last_seen.rows(), feed) is Some
            && now.nanos_of() - lookup(rt.feed_last_seen.rows(), feed)->0.nanos_of() < (
        max_stale_secs + 1) * 1_000_000_000,
{
    if lookup(rt.feed_last_seen.rows(), feed) is Some {
        let at = lookup(rt.feed_last_seen.rows(), feed)->0;
        whole_seconds_have_passed(now, at);
        whole_seconds_have_passed(at, now);
    }
}

/// A renewed composite is cached for its coin with the time of the renewal, and told to the
/// positions of that coin alone.
pub proof fn a_renewed_composite_is_cached(
    pre: CryptoArbRuntime,
    post: CryptoArbRuntime,
    coin: Seq<char>,
    sources: Seq<(Seq<char>, SourcedPrice)>,
    now: DateTime,
    fallback: bool,
    c: CompositePriceResult,
    i: int,
)
    requires
        composite_cached(pre, post, coin, Some(sources), now, fallback, true),
        pre.config.stop_loss.sl_max_external_age_ms >= 0,
        composite_of(
            sources,
            now,
            pre.config.stop_loss.sl_max_external_age_ms as int / 1000 + 1,
            pre.config.stop_loss.sl_min_sources as int,
            pre.config.stop_loss.sl_max_dispersion_bps,
            fallback,
        ) == Some(Some(c)),
        0 <= i < pre.position_lifecycle.rows().len(),
    ensures
        lookup(post.sl_composite_cache.rows(), coin) == Some((c, now)),
        ({
            let (token, before) = pre.position_lifecycle.rows()[i];
            let (same_token, after) = post.position_lifecycle.rows()[i];
            let held = exists|k: int|
                0 <= k < pre.positions@.len() && (#[trigger] pre.positions@[k]).coin@ == coin
                    && pre.positions@[k].token_id@ == token;
            &&& same_token == token
            &&& held ==> after.composite is Some && after.composite->0.price == c.price
                && after.composite_at == Some(now)
            &&& !held ==> after == before
            &&& after.state == before.state
        }),
{
    lemma_lookup_stored(pre.sl_composite_cache.rows(), coin, (c, now), coin);
}

/// A boundary price is kept as it is, but for one of another source when the oracle's arrives.
pub proof fn the_oracle_replaces_other_boundary_prices(
    existing: BoundarySnapshot,
    source: Seq<char>,
)
    ensures
        takes_boundary(None, source),
        ({
            let ours = same_ignoring_case(source, "chainlink"@);
            let kept = same_ignoring_case(existing.source@, "chainlink"@);
            &&& kept ==> !takes_boundary(Some(existing), source)
            &&& !ours ==> !takes_boundary(Some(existing), source)
            &&& ours && !kept ==> takes_boundary(Some(existing), source)
        }),
{
}

/// A boundary price is dropped once its window started more than an hour ago.
pub proof fn boundary_prices_are_kept_for_an_hour(
    rows: Seq<(Seq<char>, BoundarySnapshot)>,
    coin: Seq<char>,
    ts: i64,
    b: BoundarySnapshot,
    now: DateTime,
)
    requires
        rows.contains((boundary_key(coin, ts as int), b)),
    ensures
        pruned(rows, coin, now).contains((boundary_key(coin, ts as int), b)) <==> now.secs_of() - ts
            <= 3600,
{
    let key = boundary_key(coin, ts as int);
    let prefix = coin + "-"@;
    assert(key =~= prefix + int_text(ts as int));
    assert(key.take(prefix.len() as int) =~= prefix);
    assert(key.skip(prefix.len() as int) =~= int_text(ts as int));
    reading_undoes_writing(ts as int);
    let keep = |key: Seq<char>, b: BoundarySnapshot|
        boundary_current(key, coin + "-"@, now.secs_of() - 4 * WINDOW_SECS);
    filtering_keeps_what_fits(rows, keep, (key, b));
}

} // verus!
