//! A new price: recorded, kept at window boundaries, and passed on to the markets.
use crate::decimal::{Decimal, Overflow, abs_int, ok_of};
use crate::domain::market::{BoundarySnapshot, MarketWithReference};
use crate::exchange::{Action, ChainQuote, ChainlinkPrice, MarketInfo};
use crate::runtime::{
    BOUNDARY_TOLERANCE_SECS, CryptoArbRuntime, PriceEntry, WINDOW_SECS, signed, to_signed,
};
use crate::services::market::{nearest_ends, waiting, with_activated};
use crate::services::pricing::{
    add_price, boundary_key, history_of, make_boundary_key, prune_boundaries, pruned, spike_in,
    takes_boundary, upgraded, window_floor, window_floor_of, with_price,
};
use crate::table::{Table, dropped, lemma_lookup_stored, lookup, mapped, stored};
use crate::text::{owned, same_text_ignoring_case};
use crate::time::{DateTime, MAX_SECS, MIN_SECS, NANOS_PER_SEC, instant};
use vstd::prelude::*;

verus! {

/// A recorded price.
pub open spec fn price_entry(price: Decimal, source: String, now: DateTime, source_ts: DateTime) -> PriceEntry {
    PriceEntry { received_at: now, price, source, source_ts }
}

/// An instant is within the tolerance of a window boundary.
pub open spec fn near_boundary(now: DateTime) -> bool {
    abs_int(now.secs_of() - window_floor_of(now.secs_of())) <= BOUNDARY_TOLERANCE_SECS
}

/// The boundary prices once a price near a boundary is taken and old ones are dropped.
pub open spec fn boundaries_with(
    rows: Seq<(Seq<char>, BoundarySnapshot)>,
    symbol: Seq<char>,
    price: Decimal,
    source: String,
    now: DateTime,
) -> Seq<(Seq<char>, BoundarySnapshot)> {
    let key = boundary_key(symbol, window_floor_of(now.secs_of()));
    let taken = if takes_boundary(lookup(rows, key), source@) {
        stored(rows, key, (BoundarySnapshot { timestamp: now, price, source }))
    } else {
        rows
    };
    pruned(taken, symbol, now)
}

/// Takes a price near a window boundary, and drops boundary prices that are too old.
pub fn take_boundary(
    table: &mut Table<BoundarySnapshot>,
    symbol: &str,
    price: Decimal,
    source: &String,
    now: DateTime,
)
    ensures
        final(table).rows() == boundaries_with(old(table).rows(), symbol@, price, *source, now),
{
    let key: String = make_boundary_key(symbol, window_floor(now.timestamp()));
    let taken: bool = match table.get(key.as_str()) {
        None => true,
        Some(e) => same_text_ignoring_case(source.as_str(), "chainlink")
            && !same_text_ignoring_case(e.source.as_str(), "chainlink"),
    };
    if taken {
        table.insert(key, BoundarySnapshot { timestamp: now, price, source: source.clone() });
    }
    prune_boundaries(table, symbol, now);
}

/// Whether an instant is within the tolerance of a window boundary.
pub fn is_near_boundary(now: DateTime) -> (r: bool)
    ensures
        r == near_boundary(now),
{
    let ts: i64 = now.timestamp();
    let distance: i64 = ts - window_floor(ts);
    -BOUNDARY_TOLERANCE_SECS <= distance && distance <= BOUNDARY_TOLERANCE_SECS
}

/// Most prices of a coin while references are still improved at every price.
pub const WARM_UP_PRICES: usize = 10;

/// A price was recorded, references were improved, and waiting markets activated, the
/// coin's history being `entries` now.
pub open spec fn price_recorded_as(
    pre: CryptoArbRuntime,
    post: CryptoArbRuntime,
    entries: Seq<PriceEntry>,
    symbol: String,
    price: Decimal,
    source: String,
    now: DateTime,
    quotes: Seq<ChainQuote>,
    spike: Result<Option<Decimal>, Overflow>,
    actions: Seq<Action>,
) -> bool {
    &&& ({
        let history = stored(pre.price_history.rows(), symbol@, entries);
        let boundaries = if near_boundary(now) {
            boundaries_with(
                pre.boundary_prices.rows(),
                symbol@,
                price,
                source,
                now,
            )
        } else {
            pre.boundary_prices.rows()
        };
        let improved = if near_boundary(now) || entries.len() <= WARM_UP_PRICES {
            mapped(
                pre.active_markets.rows(),
                |id: Seq<char>, m: MarketWithReference|
                    upgraded(m, symbol@, boundaries, Some(entries)),
            )
        } else {
            pre.active_markets.rows()
        };
        let list = waiting(pre.pending_discovery.rows(), symbol@);
        &&& post.feed_last_seen.rows() == stored(
            pre.feed_last_seen.rows(),
            source@,
            now,
        )
        &&& post.price_history.rows() == history
        &&& post.boundary_prices.rows() == boundaries
        &&& post.pending_discovery.rows() == dropped(
            pre.pending_discovery.rows(),
            symbol@,
        )
        &&& post.active_markets.rows() == with_activated(
            improved,
            list,
            symbol,
            price,
            now,
            boundaries,
            history,
            quotes,
        )
        &&& post.coin_nearest_expiry.rows() == (if list.len() > 0 {
            nearest_ends(post.active_markets.rows())
        } else {
            pre.coin_nearest_expiry.rows()
        })
        &&& actions == list.map_values(|m: MarketInfo| Action::SubscribeMarket(m))
        &&& ok_of(spike) == spike_in(
            Some(entries),
            price,
            now,
            pre.config.spike.window_secs,
            pre.config.spike.threshold_pct,
        )
    })
    &&& post == (CryptoArbRuntime {
        feed_last_seen: post.feed_last_seen,
        price_history: post.price_history,
        boundary_prices: post.boundary_prices,
        pending_discovery: post.pending_discovery,
        active_markets: post.active_markets,
        coin_nearest_expiry: post.coin_nearest_expiry,
        ..pre
    })
}

/// A price was recorded; one that repeats the latest price renews it.
pub open spec fn price_recorded(
    pre: CryptoArbRuntime,
    post: CryptoArbRuntime,
    symbol: String,
    price: Decimal,
    source: String,
    now: DateTime,
    source_timestamp: DateTime,
    quotes: Seq<ChainQuote>,
    spike: Result<Option<Decimal>, Overflow>,
    actions: Seq<Action>,
) -> bool {
    price_recorded_as(
        pre,
        post,
        with_price(
            history_of(pre.price_history.rows(), symbol@),
            price_entry(price, source, now, source_timestamp),
        ),
        symbol,
        price,
        source,
        now,
        quotes,
        spike,
        actions,
    )
}

impl CryptoArbRuntime {
    /// Adds a price to a coin's history.
    pub fn add_to_history(
        &mut self,
        symbol: &str,
        price: Decimal,
        source: &String,
        now: DateTime,
        source_timestamp: DateTime,
    ) -> (r: usize)
        ensures
            final(self).price_history.rows() == stored(
                old(self).price_history.rows(),
                symbol@,
                with_price(
                    history_of(old(self).price_history.rows(), symbol@),
                    price_entry(price, *source, now, source_timestamp),
                ),
            ),
            r == with_price(
                history_of(old(self).price_history.rows(), symbol@),
                price_entry(price, *source, now, source_timestamp),
            ).len(),
            *final(self) == (CryptoArbRuntime {
                price_history: final(self).price_history,
                ..*old(self)
            }),
    {
        let e = PriceEntry {
            received_at: now,
            price,
            source: source.clone(),
            source_ts: source_timestamp,
        };
        let i: usize = self.price_history.find(symbol);
        if i < self.price_history.len() {
            let mut list: Vec<PriceEntry> = self.price_history.replace_at(i, Vec::new());
            add_price(&mut list, e);
            let n: usize = list.len();
            self.price_history.set_at(i, list);
            assert(self.price_history.rows() =~= stored(
                old(self).price_history.rows(),
                symbol@,
                with_price(history_of(old(self).price_history.rows(), symbol@), e),
            ));
            n
        } else {
            let mut list: Vec<PriceEntry> = Vec::new();
            assert(list@ =~= Seq::empty());
            add_price(&mut list, e);
            let n: usize = list.len();
            self.price_history.insert(owned(symbol), list);
            n
        }
    }

    /// Passes a recorded price on: it is kept at a window boundary, references are improved
    /// where they can be, and the markets that waited for it are activated.
    pub fn apply_price(
        &mut self,
        symbol: &String,
        price: Decimal,
        source: &String,
        now: DateTime,
        quotes: &Vec<ChainQuote>,
        count: usize,
    ) -> (r: (Result<Option<Decimal>, Overflow>, Vec<Action>))
        requires
            lookup(old(self).price_history.rows(), symbol@) is Some,
            count == lookup(old(self).price_history.rows(), symbol@)->0.len(),
        ensures
            forall|pre: CryptoArbRuntime|
                #![trigger price_recorded_as(pre, *final(self), lookup(old(self).price_history.rows(), symbol@)->0, *symbol, price, *source, now, quotes@, r.0, r.1@)]
                price_taken(pre, *old(self), *symbol, *source, now) ==> price_recorded_as(
                    pre,
                    *final(self),
                    lookup(old(self).price_history.rows(), symbol@)->0,
                    *symbol,
                    price,
                    *source,
                    now,
                    quotes@,
                    r.0,
                    r.1@,
                ),
    {
        let ghost start = *self;
        let ghost entries = lookup(self.price_history.rows(), symbol@)->0;
        let near: bool = is_near_boundary(now);
        if near {
            take_boundary(&mut self.boundary_prices, symbol.as_str(), price, source, now);
        }
        if near || count <= WARM_UP_PRICES {
            let ghost before = *self;
            self.try_upgrade_quality(symbol.as_str());
            assert(self.active_markets.rows() =~= mapped(
                start.active_markets.rows(),
                |id: Seq<char>, m: MarketWithReference|
                    upgraded(m, symbol@, before.boundary_prices.rows(), Some(entries)),
            ));
        }
        let actions: Vec<Action> = self.promote_pending_markets(symbol, price, now, quotes);
        let spike: Result<Option<Decimal>, Overflow> = self.detect_spike(
            symbol.as_str(),
            price,
            now,
        );
        (spike, actions)
    }

    /// Records a price of a coin, improves references where it can, activates the markets
    /// that waited for it, and says whether it is a spike and what is to be done.
    pub fn record_price(
        &mut self,
        symbol: &String,
        price: Decimal,
        source: &String,
        now: DateTime,
        source_timestamp: DateTime,
        quotes: &Vec<ChainQuote>,
    ) -> (r: (Result<Option<Decimal>, Overflow>, Vec<Action>))
        ensures
            price_recorded(
                *old(self),
                *final(self),
                *symbol,
                price,
                *source,
                now,
                source_timestamp,
                quotes@,
                r.0,
                r.1@,
            ),
    {
        self.feed_last_seen.insert(source.clone(), now);
        let count: usize = self.add_to_history(
            symbol.as_str(),
            price,
            source,
            now,
            source_timestamp,
        );
        proof {
            lemma_lookup_stored(
                old(self).price_history.rows(),
                symbol@,
                with_price(
                    history_of(old(self).price_history.rows(), symbol@),
                    price_entry(price, *source, now, source_timestamp),
                ),
                symbol@,
            );
            assert(price_taken(*old(self), *self, *symbol, *source, now));
        }
        self.apply_price(symbol, price, source, now, quotes, count)
    }
}

/// A price was added to its feed and its coin's history, and nothing else was done.
pub open spec fn price_taken(
    pre: CryptoArbRuntime,
    mid: CryptoArbRuntime,
    symbol: String,
    source: String,
    now: DateTime,
) -> bool {
    &&& mid.feed_last_seen.rows() == stored(pre.feed_last_seen.rows(), source@, now)
    &&& lookup(mid.price_history.rows(), symbol@) is Some
    &&& mid.price_history.rows() == stored(
        pre.price_history.rows(),
        symbol@,
        lookup(mid.price_history.rows(), symbol@)->0,
    )
    &&& mid == (CryptoArbRuntime {
        feed_last_seen: mid.feed_last_seen,
        price_history: mid.price_history,
        ..pre
    })
}

/// Window starts that a fresh start asks the oracle's chain for.
pub const WARM_UP_WINDOWS: i64 = 5;

/// The window starts to ask the oracle's chain for on a fresh start: the boundary before now,
/// and four more at 15-minute steps back.
pub fn warm_up_windows(now: DateTime) -> (r: Vec<i64>)
    ensures
        r@.len() == WARM_UP_WINDOWS,
        forall|i: int|
            0 <= i < r@.len() ==> #[trigger] r@[i] == window_floor_of(now.secs_of()) - i
                * WINDOW_SECS,
{
    let current: i64 = window_floor(now.timestamp());
    let mut r: Vec<i64> = Vec::new();
    let mut i: i64 = 0;
    while i < WARM_UP_WINDOWS
        invariant
            0 <= i <= WARM_UP_WINDOWS,
            current == window_floor_of(now.secs_of()),
            -20_000_000_000_000 <= current <= 20_000_000_000_000,
            r@.len() == i,
            forall|j: int|
                0 <= j < i ==> #[trigger] r@[j] == window_floor_of(now.secs_of()) - j * WINDOW_SECS,
        decreases WARM_UP_WINDOWS - i,
    {
        r.push(current - i * WINDOW_SECS);
        i += 1;
    }
    r
}

/// When the oracle's chain saw a price: at its own timestamp, or now where that is no instant.
pub open spec fn chain_instant(p: ChainlinkPrice, now: DateTime) -> DateTime {
    if MIN_SECS <= signed(p.timestamp) <= MAX_SECS {
        instant(signed(p.timestamp) * NANOS_PER_SEC)
    } else {
        now
    }
}

/// When the oracle's chain saw a price.
pub fn chain_time(p: ChainlinkPrice, now: DateTime) -> (r: DateTime)
    ensures
        r == chain_instant(p, now),
{
    match DateTime::from_timestamp(to_signed(p.timestamp)) {
        Some(t) => t,
        None => now,
    }
}

/// A price of the oracle's chain was recorded on a fresh start, as of when the chain saw it.
pub open spec fn warmed_up(
    pre: CryptoArbRuntime,
    post: CryptoArbRuntime,
    coin: String,
    answer: ChainlinkPrice,
    now: DateTime,
    source: String,
    spike: Result<Option<Decimal>, Overflow>,
    actions: Seq<Action>,
) -> bool {
    &&& source@ == "chainlink"@
    &&& price_recorded(
        pre,
        post,
        coin,
        answer.price,
        source,
        chain_instant(answer, now),
        chain_instant(answer, now),
        Seq::empty(),
        spike,
        actions,
    )
}

impl CryptoArbRuntime {
    /// Records what the oracle's chain answered for a window on a fresh start.
    pub fn warm_up(&mut self, coin: &String, answer: ChainlinkPrice, now: DateTime)
        ensures
            exists|
                source: String,
                spike: Result<Option<Decimal>, Overflow>,
                actions: Seq<Action>,
            |
                #[trigger] warmed_up(
                    *old(self),
                    *final(self),
                    *coin,
                    answer,
                    now,
                    source,
                    spike,
                    actions,
                ),
    {
        let ts: DateTime = chain_time(answer, now);
        let source: String = owned("chainlink");
        let quotes: Vec<ChainQuote> = Vec::new();
        assert(quotes@ =~= Seq::empty());
        let (spike, actions): (Result<Option<Decimal>, Overflow>, Vec<Action>) = self.record_price(
            coin,
            answer.price,
            &source,
            ts,
            ts,
            &quotes,
        );
        assert(warmed_up(
            *old(self),
            *self,
            *coin,
            answer,
            now,
            source,
            spike,
            actions@,
        ));
    }
}

/// A moment is near a boundary for two seconds from the start of each 15 minutes.
pub proof fn boundaries_come_every_fifteen_minutes(now: DateTime)
    requires
        now.secs_of() >= 0,
    ensures
        near_boundary(now) <==> now.secs_of() % 900 <= 2,
        window_floor_of(now.secs_of()) % 900 == 0,
        window_floor_of(now.secs_of()) <= now.secs_of() < window_floor_of(now.secs_of()) + 900,
{
}

} // verus!
