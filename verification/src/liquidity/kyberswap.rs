//! KyberSwap Aggregator liquidity: routes with their encoded transaction, a
//! time-limited cache of routes, and the settlement of a route.

use crate::address::Address;
use crate::liquidity::{
    allowance_of, is_call_step, AllowanceError, Allowances, Approval, EncodedInteraction, Exchange,
    LimitOrder, LimitOrderExecution, LimitOrderId, LiquidityOrderId, OrderKind, OrderUid,
    PlanStep, PlannedInteraction, SettlementEncoder, SettlementHandler, TokenAmount,
};
use crate::kyberswap_api::{
    BuildRouteRequest, BuildRouteResponse, KyberSwapApiError, RouteRequest, RouteSummary,
};
use crate::text::{
    all_dec_digits, dec_value, decode_hex, hex_decode, parse_u64, parse_u64_spec,
    strip_0x, strip_0x_str,
};
use crate::uint::{modulus256, u256_checked_div, u256_from_dec_str, u256_saturating_mul, U256};
use vstd::prelude::*;

verus! {

/// A KyberSwap route with encoded transaction data.
#[derive(Clone, Debug, PartialEq, Eq)]
pub struct KyberSwapRoute {
    pub token_in: Address,
    pub token_out: Address,
    pub amount_in: U256,
    pub amount_out: U256,
    pub encoded_data: Vec<u8>,
    pub router_address: Address,
    pub gas_estimate: u64,
}

/// The data of a route, as plain values.
pub struct RouteData {
    pub token_in: Seq<u8>,
    pub token_out: Seq<u8>,
    pub amount_in: nat,
    pub amount_out: nat,
    pub encoded_data: Seq<u8>,
    pub router_address: Seq<u8>,
    pub gas_estimate: u64,
}

impl View for KyberSwapRoute {
    type V = RouteData;

    open spec fn view(&self) -> RouteData {
        RouteData {
            token_in: self.token_in@,
            token_out: self.token_out@,
            amount_in: self.amount_in@,
            amount_out: self.amount_out@,
            encoded_data: self.encoded_data@,
            router_address: self.router_address@,
            gas_estimate: self.gas_estimate,
        }
    }
}

impl KyberSwapRoute {
    /// A copy of the route.
    pub fn duplicate(&self) -> (r: KyberSwapRoute)
        ensures
            r@ == self@,
    {
        let data = self.encoded_data.clone();
        proof {
            assert(data@ =~= self.encoded_data@);
        }
        KyberSwapRoute {
            token_in: self.token_in,
            token_out: self.token_out,
            amount_in: self.amount_in,
            amount_out: self.amount_out,
            encoded_data: data,
            router_address: self.router_address,
            gas_estimate: self.gas_estimate,
        }
    }
}

/// The key of a cached route: input token, output token, input amount.
pub type CacheKey = (Seq<u8>, Seq<u8>, nat);

/// A cached route and the time it was stored, in nanoseconds on the cache's
/// monotonic clock.
pub struct CachedRoute {
    pub route: RouteData,
    pub timestamp: u128,
}

/// The time since `timestamp`, or zero if the clock reads earlier.
pub open spec fn elapsed(timestamp: u128, now: u128) -> nat {
    if now >= timestamp {
        (now - timestamp) as nat
    } else {
        0
    }
}

/// Whether a route stored at `timestamp` is still valid at `now`.
pub open spec fn is_fresh(timestamp: u128, now: u128, ttl: u128) -> bool {
    elapsed(timestamp, now) < ttl
}

/// What a cache lookup gives: the route stored under the key, if it is
/// still fresh.
pub open spec fn spec_lookup(m: Map<CacheKey, CachedRoute>, k: CacheKey, now: u128, ttl: u128) -> Option<
    RouteData,
> {
    if m.contains_key(k) && is_fresh(m[k].timestamp, now, ttl) {
        Some(m[k].route)
    } else {
        None
    }
}

/// The cache after storing a route at `now`.
pub open spec fn spec_insert(
    m: Map<CacheKey, CachedRoute>,
    k: CacheKey,
    route: RouteData,
    now: u128,
) -> Map<CacheKey, CachedRoute> {
    m.insert(k, CachedRoute { route, timestamp: now })
}

/// The cache after dropping every entry that is no longer fresh at `now`.
pub open spec fn spec_cleanup(m: Map<CacheKey, CachedRoute>, now: u128, ttl: u128) -> Map<
    CacheKey,
    CachedRoute,
> {
    m.restrict(m.dom().filter(|k: CacheKey| is_fresh(m[k].timestamp, now, ttl)))
}

/// A route stored at `now` is found under its key until `ttl` nanoseconds
/// have passed.
pub proof fn lemma_fresh_insert_is_found(
    m: Map<CacheKey, CachedRoute>,
    k: CacheKey,
    route: RouteData,
    now: u128,
    later: u128,
    ttl: u128,
)
    requires
        now <= later,
        later - now < ttl,
    ensures
        spec_lookup(spec_insert(m, k, route, now), k, later, ttl) == Some(route),
{
}

/// Storing a route under one key leaves every lookup of another key as it
/// was.
pub proof fn lemma_insert_keeps_other_keys(
    m: Map<CacheKey, CachedRoute>,
    k: CacheKey,
    other: CacheKey,
    route: RouteData,
    now: u128,
    at: u128,
    ttl: u128,
)
    requires
        k != other,
    ensures
        spec_lookup(spec_insert(m, k, route, now), other, at, ttl) == spec_lookup(m, other, at, ttl),
{
}

/// With a time-to-live of zero nothing is ever found.
pub proof fn lemma_zero_ttl_misses(m: Map<CacheKey, CachedRoute>, k: CacheKey, now: u128)
    ensures
        spec_lookup(m, k, now, 0) is None,
{
}

/// A route stored `ttl` or more nanoseconds ago is no longer found.
pub proof fn lemma_expired_route_misses(m: Map<CacheKey, CachedRoute>, k: CacheKey, now: u128, ttl: u128)
    requires
        m.contains_key(k),
        elapsed(m[k].timestamp, now) >= ttl,
    ensures
        spec_lookup(m, k, now, ttl) is None,
{
}

/// Cleaning up at a time changes no lookup made at that time with the same
/// time-to-live.
pub proof fn lemma_cleanup_keeps_lookups(m: Map<CacheKey, CachedRoute>, k: CacheKey, now: u128, ttl: u128)
    ensures
        spec_lookup(spec_cleanup(m, now, ttl), k, now, ttl) == spec_lookup(m, k, now, ttl),
{
}

/// After a cleanup every stored route is fresh and unchanged.
pub proof fn lemma_cleanup_keeps_only_fresh(m: Map<CacheKey, CachedRoute>, now: u128, ttl: u128)
    ensures
        forall|k: CacheKey|
            #[trigger] spec_cleanup(m, now, ttl).contains_key(k) ==> m.contains_key(k)
                && spec_cleanup(m, now, ttl)[k] == m[k] && is_fresh(m[k].timestamp, now, ttl),
{
}

/// A route just recorded (stored, then the stale routes dropped) is found
/// under its key at that time, for any positive time-to-live.
pub proof fn lemma_recorded_route_is_found(
    m: Map<CacheKey, CachedRoute>,
    k: CacheKey,
    route: RouteData,
    now: u128,
    ttl: u128,
)
    requires
        ttl > 0,
    ensures
        spec_lookup(spec_cleanup(spec_insert(m, k, route, now), now, ttl), k, now, ttl) == Some(route),
{
    lemma_cleanup_keeps_lookups(spec_insert(m, k, route, now), k, now, ttl);
    lemma_fresh_insert_is_found(m, k, route, now, now, ttl);
}

/// One stored route.
pub struct CacheEntry {
    pub token_in: Address,
    pub token_out: Address,
    pub amount_in: U256,
    pub route: KyberSwapRoute,
    pub timestamp: u128,
}

/// The key of an entry.
pub open spec fn entry_key(e: CacheEntry) -> CacheKey {
    (e.token_in@, e.token_out@, e.amount_in@)
}

/// The value of an entry.
pub open spec fn entry_value(e: CacheEntry) -> CachedRoute {
    CachedRoute { route: e.route@, timestamp: e.timestamp }
}

/// The map that a list of entries with distinct keys stands for.
pub open spec fn entries_map(s: Seq<CacheEntry>) -> Map<CacheKey, CachedRoute>
    decreases s.len(),
{
    if s.len() == 0 {
        Map::empty()
    } else {
        entries_map(s.drop_last()).insert(entry_key(s.last()), entry_value(s.last()))
    }
}

/// No two entries share a key.
pub open spec fn distinct_keys(s: Seq<CacheEntry>) -> bool {
    forall|i: int, j: int|
        0 <= i < s.len() && 0 <= j < s.len() && i != j ==> entry_key(s[i]) != entry_key(s[j])
}

/// The map of distinct entries holds exactly their keys, each with its
/// entry's value.
pub proof fn lemma_entries_map(s: Seq<CacheEntry>)
    requires
        distinct_keys(s),
    ensures
        forall|k: CacheKey|
            entries_map(s).contains_key(k) <==> exists|i: int|
                0 <= i < s.len() && entry_key(s[i]) == k,
        forall|i: int|
            0 <= i < s.len() ==> #[trigger] entries_map(s)[entry_key(s[i])] == entry_value(s[i]),
    decreases s.len(),
{
    if s.len() > 0 {
        let t = s.drop_last();
        assert(distinct_keys(t));
        lemma_entries_map(t);
        assert forall|k: CacheKey|
            entries_map(s).contains_key(k) <==> exists|i: int|
                0 <= i < s.len() && entry_key(s[i]) == k by {
            if entries_map(s).contains_key(k) {
                if k == entry_key(s.last()) {
                    assert(entry_key(s[s.len() - 1]) == k);
                } else {
                    assert(entries_map(t).contains_key(k));
                    let i = choose|i: int| 0 <= i < t.len() && entry_key(t[i]) == k;
                    assert(t[i] == s[i]);
                    assert(entry_key(s[i]) == k);
                }
            }
            if exists|i: int| 0 <= i < s.len() && entry_key(s[i]) == k {
                let i = choose|i: int| 0 <= i < s.len() && entry_key(s[i]) == k;
                if i < s.len() - 1 {
                    assert(t[i] == s[i]);
                    assert(entry_key(t[i]) == k);
                    assert(entries_map(t).contains_key(k));
                }
            }
        }
        assert forall|i: int| 0 <= i < s.len() implies #[trigger] entries_map(s)[entry_key(s[i])]
            == entry_value(s[i]) by {
            if i < s.len() - 1 {
                assert(entry_key(s[i]) != entry_key(s[s.len() - 1]));
                assert(t[i] == s[i]);
                assert(entries_map(t)[entry_key(t[i])] == entry_value(t[i]));
            }
        }
    }
}

/// `std::time::Instant`, a reading of the monotonic clock.
#[verifier::external_type_specification]
#[verifier::external_body]
pub struct ExInstant(std::time::Instant);

/// `Instant::now`: a reading of the monotonic clock. Nothing is stated of
/// it.
#[verifier::external_body]
fn instant_now() -> std::time::Instant {
    std::time::Instant::now()
}

/// `Instant::elapsed` of the reading, in nanoseconds: the time the
/// monotonic clock has run since then. Nothing is stated of it.
#[verifier::external_body]
fn nanos_since(origin: &std::time::Instant) -> u128 {
    origin.elapsed().as_nanos()
}

/// Cache of KyberSwap routes, to reduce API calls. Its clock is monotonic
/// and counts from the cache's creation.
pub struct RouteCache {
    entries: Vec<CacheEntry>,
    origin: std::time::Instant,
}

impl View for RouteCache {
    type V = Map<CacheKey, CachedRoute>;

    closed spec fn view(&self) -> Map<CacheKey, CachedRoute> {
        entries_map(self.entries@)
    }
}

impl RouteCache {
    /// The cache's internal invariant: no key is stored twice.
    pub closed spec fn wf(&self) -> bool {
        distinct_keys(self.entries@)
    }

    /// An empty cache.
    pub fn new() -> (r: RouteCache)
        ensures
            r.wf(),
            r@ == Map::<CacheKey, CachedRoute>::empty(),
    {
        RouteCache { entries: Vec::new(), origin: instant_now() }
    }

    /// The number of stored routes.
    pub fn len(&self) -> (n: usize)
        requires
            self.wf(),
        ensures
            n == self@.len(),
    {
        proof {
            self.lemma_len();
        }
        self.entries.len()
    }

    proof fn lemma_len(&self)
        requires
            self.wf(),
        ensures
            self@.len() == self.entries@.len(),
    {
        lemma_entries_map_len(self.entries@);
    }

    /// The index of the entry with the given key, if there is one.
    fn find(&self, token_in: &Address, token_out: &Address, amount_in: &U256) -> (r: Option<usize>)
        requires
            self.wf(),
        ensures
            match r {
                Some(i) => i < self.entries@.len() && entry_key(self.entries@[i as int]) == (
                    token_in@,
                    token_out@,
                    amount_in@,
                ),
                None => forall|i: int|
                    0 <= i < self.entries@.len() ==> entry_key(self.entries@[i]) != (
                        token_in@,
                        token_out@,
                        amount_in@,
                    ),
            },
    {
        let mut i: usize = 0;
        while i < self.entries.len()
            invariant
                i <= self.entries@.len(),
                forall|j: int|
                    0 <= j < i ==> entry_key(self.entries@[j]) != (
                        token_in@,
                        token_out@,
                        amount_in@,
                    ),
            decreases self.entries@.len() - i,
        {
            let e = &self.entries[i];
            if e.token_in.same(token_in) && e.token_out.same(token_out) && e.amount_in.eq_value(
                amount_in,
            ) {
                return Some(i);
            }
            i = i + 1;
        }
        None
    }

    /// The route stored for the key at time `now`, if it is younger than
    /// `ttl` nanoseconds.
    pub fn get_at(
        &self,
        token_in: Address,
        token_out: Address,
        amount_in: U256,
        now: u128,
        ttl: u128,
    ) -> (r: Option<KyberSwapRoute>)
        requires
            self.wf(),
        ensures
            match r {
                Some(route) => spec_lookup(self@, (token_in@, token_out@, amount_in@), now, ttl)
                    == Some(route@),
                None => spec_lookup(self@, (token_in@, token_out@, amount_in@), now, ttl) is None,
            },
    {
        proof {
            lemma_entries_map(self.entries@);
        }
        match self.find(&token_in, &token_out, &amount_in) {
            Some(i) => {
                let e = &self.entries[i];
                let age: u128 = if now >= e.timestamp {
                    now - e.timestamp
                } else {
                    0
                };
                if age < ttl {
                    Some(e.route.duplicate())
                } else {
                    None
                }
            },
            None => None,
        }
    }

    /// Stores a route under its key at time `now`, replacing what was there.
    pub fn insert_at(
        &mut self,
        token_in: Address,
        token_out: Address,
        amount_in: U256,
        route: KyberSwapRoute,
        now: u128,
    )
        requires
            old(self).wf(),
        ensures
            final(self).wf(),
            final(self)@ == spec_insert(
                old(self)@,
                (token_in@, token_out@, amount_in@),
                route@,
                now,
            ),
    {
        let ghost k = (token_in@, token_out@, amount_in@);
        let ghost old_entries = self.entries@;
        let entry = CacheEntry { token_in, token_out, amount_in, route, timestamp: now };
        proof {
            lemma_entries_map(old_entries);
        }
        match self.find(&token_in, &token_out, &amount_in) {
            Some(i) => {
                self.entries.set(i, entry);
                proof {
                    let s = self.entries@;
                    assert(s == old_entries.update(i as int, entry));
                    assert(distinct_keys(s)) by {
                        assert forall|a: int, b: int|
                            0 <= a < s.len() && 0 <= b < s.len() && a != b implies entry_key(s[a])
                            != entry_key(s[b]) by {
                            if a != i && b != i {
                                assert(s[a] == old_entries[a] && s[b] == old_entries[b]);
                            } else if a == i {
                                assert(s[b] == old_entries[b]);
                                assert(entry_key(old_entries[b]) != entry_key(old_entries[i as int]));
                            } else {
                                assert(s[a] == old_entries[a]);
                                assert(entry_key(old_entries[a]) != entry_key(old_entries[i as int]));
                            }
                        }
                    }
                    lemma_entries_map(s);
                    let m = spec_insert(entries_map(old_entries), k, entry.route@, now);
                    assert forall|q: CacheKey| entries_map(s).contains_key(q) <==> m.contains_key(q) by {
                        if exists|x: int| 0 <= x < s.len() && entry_key(s[x]) == q {
                            let x = choose|x: int| 0 <= x < s.len() && entry_key(s[x]) == q;
                            if x != i {
                                assert(entry_key(old_entries[x]) == q);
                            }
                        }
                        if exists|x: int| 0 <= x < old_entries.len() && entry_key(old_entries[x]) == q {
                            let x = choose|x: int| 0 <= x < old_entries.len() && entry_key(old_entries[x]) == q;
                            if x != i {
                                assert(entry_key(s[x]) == q);
                            } else {
                                assert(entry_key(s[x]) == q);
                            }
                        }
                        if q == k {
                            assert(entry_key(s[i as int]) == q);
                        }
                    }
                    assert forall|q: CacheKey| #[trigger] entries_map(s).contains_key(q) implies entries_map(s)[q] == m[q] by {
                        let x = choose|x: int| 0 <= x < s.len() && entry_key(s[x]) == q;
                        assert(entries_map(s)[entry_key(s[x])] == entry_value(s[x]));
                        if x != i {
                            assert(s[x] == old_entries[x]);
                            assert(entries_map(old_entries)[entry_key(old_entries[x])] == entry_value(old_entries[x]));
                        }
                    }
                    assert(entries_map(s) =~= m);
                }
            },
            None => {
                self.entries.push(entry);
                proof {
                    let s = self.entries@;
                    assert(s.drop_last() =~= old_entries);
                    assert(distinct_keys(s)) by {
                        assert forall|a: int, b: int|
                            0 <= a < s.len() && 0 <= b < s.len() && a != b implies entry_key(s[a])
                            != entry_key(s[b]) by {
                            if a < old_entries.len() && b < old_entries.len() {
                                assert(s[a] == old_entries[a] && s[b] == old_entries[b]);
                            } else if a < old_entries.len() {
                                assert(s[a] == old_entries[a]);
                            } else {
                                assert(s[b] == old_entries[b]);
                            }
                        }
                    }
                }
            },
        }
    }

    /// Drops every route that is no longer fresh at `now`, so that the cache
    /// does not grow without bound.
    pub fn cleanup_at(&mut self, now: u128, ttl: u128)
        requires
            old(self).wf(),
        ensures
            final(self).wf(),
            final(self)@ == spec_cleanup(old(self)@, now, ttl),
    {
        let ghost old_entries = self.entries@;
        let mut rest: Vec<CacheEntry> = Vec::new();
        std::mem::swap(&mut rest, &mut self.entries);
        let mut kept: Vec<CacheEntry> = Vec::new();
        let ghost mut consumed: int = 0;
        proof {
            lemma_entries_map(old_entries);
        }
        while rest.len() > 0
            invariant
                old_entries.len() == consumed + rest@.len(),
                0 <= consumed <= old_entries.len(),
                distinct_keys(old_entries),
                forall|j: int| 0 <= j < rest@.len() ==> rest@[j] == old_entries[consumed + j],
                distinct_keys(kept@),
                forall|j: int|
                    #![trigger kept@[j]]
                    0 <= j < kept@.len() ==> exists|x: int|
                        #![trigger old_entries[x]]
                        0 <= x < consumed && kept@[j] == old_entries[x] && is_fresh(
                            old_entries[x].timestamp,
                            now,
                            ttl,
                        ),
                forall|x: int|
                    #![trigger old_entries[x]]
                    0 <= x < consumed && is_fresh(old_entries[x].timestamp, now, ttl) ==> exists|
                        j: int,
                    |
                        #![trigger kept@[j]]
                        0 <= j < kept@.len() && kept@[j] == old_entries[x],
            decreases rest@.len(),
        {
            let ghost before = rest@;
            let e = rest.remove(0);
            proof {
                assert(e == old_entries[consumed]);
                assert forall|j: int| 0 <= j < rest@.len() implies rest@[j] == old_entries[consumed + 1 + j] by {
                    assert(rest@[j] == before[j + 1]);
                }
            }
            let age: u128 = if now >= e.timestamp {
                now - e.timestamp
            } else {
                0
            };
            if age < ttl {
                let ghost kb = kept@;
                kept.push(e);
                proof {
                    assert forall|a: int, b: int|
                        0 <= a < kept@.len() && 0 <= b < kept@.len() && a != b implies entry_key(kept@[a])
                        != entry_key(kept@[b]) by {
                        if a < kb.len() && b < kb.len() {
                            assert(kept@[a] == kb[a] && kept@[b] == kb[b]);
                        } else if a < kb.len() {
                            let x = choose|x: int| 0 <= x < consumed && kb[a] == old_entries[x] && is_fresh(old_entries[x].timestamp, now, ttl);
                            assert(kept@[a] == old_entries[x]);
                            assert(x != consumed);
                        } else {
                            let x = choose|x: int| 0 <= x < consumed && kb[b] == old_entries[x] && is_fresh(old_entries[x].timestamp, now, ttl);
                            assert(kept@[b] == old_entries[x]);
                            assert(x != consumed);
                        }
                    }
                    assert forall|j: int| #![trigger kept@[j]] 0 <= j < kept@.len() implies exists|x: int|
                        #![trigger old_entries[x]]
                        0 <= x < consumed + 1 && kept@[j] == old_entries[x] && is_fresh(
                            old_entries[x].timestamp,
                            now,
                            ttl,
                        ) by {
                        if j < kb.len() {
                            assert(kept@[j] == kb[j]);
                        } else {
                            assert(kept@[j] == old_entries[consumed]);
                        }
                    }
                    assert forall|x: int|
                        #![trigger old_entries[x]]
                        0 <= x < consumed + 1 && is_fresh(old_entries[x].timestamp, now, ttl) implies exists|
                            j: int,
                        |
                            #![trigger kept@[j]]
                            0 <= j < kept@.len() && kept@[j] == old_entries[x] by {
                        if x < consumed {
                            let j = choose|j: int| 0 <= j < kb.len() && kb[j] == old_entries[x];
                            assert(kept@[j] == kb[j]);
                        } else {
                            assert(kept@[kb.len() as int] == old_entries[x]);
                        }
                    }
                }
            } else {
                proof {
                    assert forall|j: int| #![trigger kept@[j]] 0 <= j < kept@.len() implies exists|x: int|
                        #![trigger old_entries[x]]
                        0 <= x < consumed + 1 && kept@[j] == old_entries[x] && is_fresh(
                            old_entries[x].timestamp,
                            now,
                            ttl,
                        ) by {
                        let x = choose|x: int| 0 <= x < consumed && kept@[j] == old_entries[x] && is_fresh(old_entries[x].timestamp, now, ttl);
                    }
                }
            }
            proof {
                consumed = consumed + 1;
            }
        }
        proof {
            let s = kept@;
            lemma_entries_map(s);
            let m0 = entries_map(old_entries);
            let m = spec_cleanup(m0, now, ttl);
            assert forall|q: CacheKey| entries_map(s).contains_key(q) <==> m.contains_key(q) by {
                if exists|j: int| 0 <= j < s.len() && entry_key(s[j]) == q {
                    let j = choose|j: int| 0 <= j < s.len() && entry_key(s[j]) == q;
                    let x = choose|x: int| 0 <= x < consumed && s[j] == old_entries[x] && is_fresh(old_entries[x].timestamp, now, ttl);
                    assert(entry_key(old_entries[x]) == q);
                    assert(m0[entry_key(old_entries[x])] == entry_value(old_entries[x]));
                }
                if m.contains_key(q) {
                    let x = choose|x: int| 0 <= x < old_entries.len() && entry_key(old_entries[x]) == q;
                    assert(m0[entry_key(old_entries[x])] == entry_value(old_entries[x]));
                    let j = choose|j: int| 0 <= j < s.len() && s[j] == old_entries[x];
                    assert(entry_key(s[j]) == q);
                }
            }
            assert forall|q: CacheKey| #[trigger] entries_map(s).contains_key(q) implies entries_map(s)[q] == m[q] by {
                let j = choose|j: int| 0 <= j < s.len() && entry_key(s[j]) == q;
                assert(entries_map(s)[entry_key(s[j])] == entry_value(s[j]));
                let x = choose|x: int| 0 <= x < consumed && s[j] == old_entries[x] && is_fresh(old_entries[x].timestamp, now, ttl);
                assert(m0[entry_key(old_entries[x])] == entry_value(old_entries[x]));
            }
            assert(entries_map(s) =~= m);
        }
        self.entries = kept;
    }
}

/// A map of distinct entries has as many keys as there are entries.
pub proof fn lemma_entries_map_len(s: Seq<CacheEntry>)
    requires
        distinct_keys(s),
    ensures
        entries_map(s).len() == s.len(),
        entries_map(s).dom().finite(),
    decreases s.len(),
{
    if s.len() > 0 {
        let t = s.drop_last();
        assert(distinct_keys(t));
        lemma_entries_map_len(t);
        lemma_entries_map(t);
        assert(!entries_map(t).contains_key(entry_key(s.last()))) by {
            if entries_map(t).contains_key(entry_key(s.last())) {
                let i = choose|i: int| 0 <= i < t.len() && entry_key(t[i]) == entry_key(s.last());
                assert(entry_key(s[i]) == entry_key(s[s.len() - 1]));
            }
        }
    }
}

impl RouteCache {
    /// The route stored for the key, if it is younger than `ttl`
    /// nanoseconds now: the lookup at the time the clock reads. Whatever it
    /// reads, a route comes back only if it was stored under this key.
    pub fn get(&self, token_in: Address, token_out: Address, amount_in: U256, ttl: u128) -> (r:
        Option<KyberSwapRoute>)
        requires
            self.wf(),
        ensures
            exists|now: u128|
                match r {
                    Some(route) => spec_lookup(self@, (token_in@, token_out@, amount_in@), now, ttl)
                        == Some(route@),
                    None => spec_lookup(self@, (token_in@, token_out@, amount_in@), now, ttl) is None,
                },
            r matches Some(route) ==> self@.contains_key((token_in@, token_out@, amount_in@))
                && self@[(token_in@, token_out@, amount_in@)].route == route@,
            ttl == 0 ==> r is None,
    {
        let now = nanos_since(&self.origin);
        self.get_at(token_in, token_out, amount_in, now, ttl)
    }

    /// Stores a route under its key, stamped with the current time.
    pub fn insert(&mut self, token_in: Address, token_out: Address, amount_in: U256, route: KyberSwapRoute)
        requires
            old(self).wf(),
        ensures
            final(self).wf(),
            exists|now: u128|
                final(self)@ == spec_insert(
                    old(self)@,
                    (token_in@, token_out@, amount_in@),
                    route@,
                    now,
                ),
    {
        let now = nanos_since(&self.origin);
        self.insert_at(token_in, token_out, amount_in, route, now);
    }

    /// Records a route fetched at `now`: stores it under its key, then drops
    /// the routes that are no longer fresh at `now`.
    pub fn record_route_at(
        &mut self,
        token_in: Address,
        token_out: Address,
        amount_in: U256,
        route: KyberSwapRoute,
        now: u128,
        ttl: u128,
    )
        requires
            old(self).wf(),
        ensures
            final(self).wf(),
            final(self)@ == spec_cleanup(
                spec_insert(old(self)@, (token_in@, token_out@, amount_in@), route@, now),
                now,
                ttl,
            ),
    {
        self.insert_at(token_in, token_out, amount_in, route, now);
        self.cleanup_at(now, ttl);
    }

    /// Records a route fetched now: stores it under its key, stamped with
    /// the current time, then drops the routes that are no longer fresh.
    pub fn record_route(
        &mut self,
        token_in: Address,
        token_out: Address,
        amount_in: U256,
        route: KyberSwapRoute,
        ttl: u128,
    )
        requires
            old(self).wf(),
        ensures
            final(self).wf(),
            exists|now: u128|
                final(self)@ == spec_cleanup(
                    spec_insert(old(self)@, (token_in@, token_out@, amount_in@), route@, now),
                    now,
                    ttl,
                ),
    {
        let now = nanos_since(&self.origin);
        self.record_route_at(token_in, token_out, amount_in, route, now, ttl);
    }

    /// Keeps what a fetch of the route for a key gave: a route is recorded
    /// under the key, stamped with the current time, with the stale routes
    /// dropped, and handed back; an error leaves the cache as it was and is
    /// handed back.
    pub fn keep_fetched(
        &mut self,
        token_in: Address,
        token_out: Address,
        amount_in: U256,
        fetched: Result<KyberSwapRoute, KyberSwapApiError>,
        ttl: u128,
    ) -> (r: Result<KyberSwapRoute, KyberSwapApiError>)
        requires
            old(self).wf(),
        ensures
            final(self).wf(),
            match fetched {
                Ok(route) => {
                    &&& r matches Ok(kept) && kept@ == route@
                    &&& exists|now: u128|
                        final(self)@ == spec_cleanup(
                            spec_insert(old(self)@, (token_in@, token_out@, amount_in@), route@, now),
                            now,
                            ttl,
                        )
                },
                Err(e) => r == Err::<KyberSwapRoute, KyberSwapApiError>(e) && final(self)@ == old(self)@,
            },
    {
        match fetched {
            Ok(route) => {
                self.record_route(token_in, token_out, amount_in, route.duplicate(), ttl);
                Ok(route)
            },
            Err(e) => Err(e),
        }
    }

    /// Drops the routes that are no longer fresh now.
    pub fn cleanup(&mut self, ttl: u128)
        requires
            old(self).wf(),
        ensures
            final(self).wf(),
            exists|now: u128| final(self)@ == spec_cleanup(old(self)@, now, ttl),
    {
        let now = nanos_since(&self.origin);
        self.cleanup_at(now, ttl);
    }
}

/// A decimal amount as `U256::from_dec_str(..).unwrap_or_default()` reads
/// it: its value, or zero when the text is not a decimal number that fits.
pub open spec fn dec_amount_or_zero(text: Seq<char>) -> nat {
    if all_dec_digits(text) && dec_value(text) < modulus256() {
        dec_value(text)
    } else {
        0
    }
}

/// The quoted output less the slippage tolerance: the quote times
/// `10_000 - slippage_bps`, saturating at the largest 256-bit value, divided
/// by 10_000 and rounded down.
pub open spec fn slipped_amount(quoted: nat, slippage_bps: nat) -> nat {
    let p = quoted * ((10_000 - slippage_bps) as nat);
    (if p < modulus256() {
        p
    } else {
        (modulus256() - 1) as nat
    }) / 10_000
}

/// A slippage tolerance never raises the amount: the slipped amount is at
/// most the quoted one.
pub proof fn lemma_slippage_never_increases(quoted: nat, slippage_bps: nat)
    requires
        slippage_bps <= 10_000,
        quoted < modulus256(),
    ensures
        slipped_amount(quoted, slippage_bps) <= quoted,
{
    let f = (10_000 - slippage_bps) as nat;
    let p = quoted * f;
    assert(p <= quoted * 10_000) by (nonlinear_arith)
        requires
            f <= 10_000,
            p == quoted * f,
    ;
    let c: nat = if p < modulus256() { p } else { (modulus256() - 1) as nat };
    assert(c <= quoted * 10_000);
    assert(c / 10_000 <= quoted) by (nonlinear_arith)
        requires c <= quoted * 10_000;
}

/// Without slippage tolerance the amount stays what was quoted, as long as
/// the quote times 10_000 fits in 256 bits.
pub proof fn lemma_zero_slippage_keeps_amount(quoted: nat)
    requires
        quoted * 10_000 < modulus256(),
    ensures
        slipped_amount(quoted, 0) == quoted,
{
    assert((quoted * 10_000) / 10_000 == quoted) by (nonlinear_arith);
}

/// The expected output of a route after slippage: the quoted decimal
/// amount (zero when unreadable) reduced by `slippage_bps` basis points.
pub fn apply_slippage(amount_out: &str, slippage_bps: u32) -> (r: U256)
    requires
        slippage_bps <= 10_000,
    ensures
        r@ == slipped_amount(dec_amount_or_zero(amount_out@), slippage_bps as nat),
{
    let quoted = match u256_from_dec_str(amount_out) {
        Some(v) => v,
        None => U256::zero(),
    };
    let factor = U256::from_u64((10_000 - slippage_bps) as u64);
    let product = u256_saturating_mul(quoted, factor);
    match u256_checked_div(product, U256::from_u64(10_000)) {
        Some(q) => q,
        None => U256::zero(),
    }
}

/// The gas estimate of a route: its gas text read as a `u64`, or zero.
pub open spec fn gas_or_zero(text: Seq<char>) -> u64 {
    match parse_u64_spec(text) {
        Some(g) => g,
        None => 0,
    }
}

/// The route that a lookup and its build give: the hex-decoded calldata
/// (after one optional "0x"), the quoted output less slippage, the router
/// of the build response and the gas estimate. Fails when the calldata is
/// not hexadecimal.
pub fn route_from_build(
    token_in: Address,
    token_out: Address,
    amount_in: U256,
    summary: &RouteSummary,
    build: BuildRouteResponse,
    slippage_bps: u32,
) -> (r: Result<KyberSwapRoute, KyberSwapApiError>)
    requires
        slippage_bps <= 10_000,
    ensures
        r is Err <==> hex_decode(strip_0x(build.encoded_data@)) is None,
        r matches Err(e) ==> e is InvalidResponse,
        r matches Ok(route) ==> route@ == (RouteData {
            token_in: token_in@,
            token_out: token_out@,
            amount_in: amount_in@,
            amount_out: slipped_amount(dec_amount_or_zero(summary.amount_out@), slippage_bps as nat),
            encoded_data: hex_decode(strip_0x(build.encoded_data@))->0,
            router_address: build.router_address@,
            gas_estimate: gas_or_zero(summary.gas@),
        }),
{
    let stripped = strip_0x_str(build.encoded_data.as_str());
    let encoded_data = match decode_hex(stripped.as_str()) {
        Ok(v) => v,
        Err(e) => {
            let m = String::from_str("Invalid hex in encoded_data: ").concat(e.as_str());
            return Err(KyberSwapApiError::InvalidResponse(m));
        },
    };
    let amount_out = apply_slippage(summary.amount_out.as_str(), slippage_bps);
    let gas_estimate = match parse_u64(summary.gas.as_str()) {
        Some(g) => g,
        None => 0,
    };
    Ok(KyberSwapRoute {
        token_in,
        token_out,
        amount_in,
        amount_out,
        encoded_data,
        router_address: build.router_address,
        gas_estimate,
    })
}

/// Settles a KyberSwap route: approves the router if needed, then calls it.
#[derive(Clone, Debug, PartialEq, Eq)]
pub struct KyberSwapSettlementHandler {
    pub route: KyberSwapRoute,
    pub meta_aggregator_router: Address,
    pub allowances: Allowances,
}

/// A call of the KyberSwap router with a route's encoded data.
#[derive(Clone, Debug, PartialEq, Eq)]
pub struct KyberSwapInteraction {
    pub encoded_data: Vec<u8>,
    pub router_address: Address,
}

impl KyberSwapInteraction {
    /// The router call, sending no native value.
    pub fn encode(&self) -> (r: EncodedInteraction)
        ensures
            r.target == self.router_address,
            r.value@ == 0,
            r.call_data@ == self.encoded_data@,
    {
        let data = self.encoded_data.clone();
        proof {
            assert(data@ =~= self.encoded_data@);
        }
        EncodedInteraction { target: self.router_address, value: U256::zero(), call_data: data }
    }
}

/// Why a KyberSwap execution cannot be settled.
#[derive(Clone, Copy, Debug, PartialEq, Eq)]
pub enum KyberSwapSettlementError {
    /// The execution fills another amount than the route's input.
    AmountMismatch { expected: U256, got: U256 },
    /// No allowance is known for the input token.
    MissingAllowance(Address),
}

impl KyberSwapSettlementHandler {
    /// Settles an execution of the route: it must fill exactly the route's
    /// input amount; an approval of the router comes first when the
    /// allowance does not cover that amount; then the router call.
    pub fn encode(&self, execution: LimitOrderExecution, encoder: &mut SettlementEncoder) -> (r:
        Result<(), KyberSwapSettlementError>)
        ensures
            execution.filled@ != self.route.amount_in@ ==> r == Err::<(), KyberSwapSettlementError>(
                KyberSwapSettlementError::AmountMismatch {
                    expected: self.route.amount_in,
                    got: execution.filled,
                },
            ),
            execution.filled@ == self.route.amount_in@ && allowance_of(
                self.allowances.allowances@,
                self.route.token_in@,
            ) is None ==> r == Err::<(), KyberSwapSettlementError>(
                KyberSwapSettlementError::MissingAllowance(self.route.token_in),
            ),
            r is Err ==> final(encoder).execution_plan@ == old(encoder).execution_plan@,
            r is Ok <==> execution.filled@ == self.route.amount_in@ && allowance_of(
                self.allowances.allowances@,
                self.route.token_in@,
            ) is Some,
            r is Ok ==> ({
                let a = allowance_of(self.allowances.allowances@, self.route.token_in@)->0;
                let plan = final(encoder).execution_plan@;
                let before = old(encoder).execution_plan@;
                if a < execution.filled@ {
                    &&& plan.len() == before.len() + 2
                    &&& plan.subrange(0, before.len() as int) == before
                    &&& plan[before.len() as int] == (PlanStep {
                        interaction: PlannedInteraction::Approval(
                            Approval { token: self.route.token_in, spender: self.allowances.spender },
                        ),
                        internalizable: false,
                    })
                    &&& is_call_step(plan.last(), self.route.router_address@, 0, self.route.encoded_data@, false)
                } else {
                    &&& plan.len() == before.len() + 1
                    &&& plan.drop_last() == before
                    &&& is_call_step(plan.last(), self.route.router_address@, 0, self.route.encoded_data@, false)
                }
            }),
    {
        if !execution.filled.eq_value(&self.route.amount_in) {
            return Err(
                KyberSwapSettlementError::AmountMismatch {
                    expected: self.route.amount_in,
                    got: execution.filled,
                },
            );
        }
        let approval = match self.allowances.approve_token(
            TokenAmount { token: self.route.token_in, amount: execution.filled },
        ) {
            Ok(a) => a,
            Err(AllowanceError::MissingAllowance(t)) => {
                return Err(KyberSwapSettlementError::MissingAllowance(t));
            },
        };
        let ghost before = encoder.execution_plan@;
        match approval {
            Some(a) => {
                encoder.append_to_execution_plan(PlannedInteraction::Approval(a));
            },
            None => {},
        }
        let ghost mid = encoder.execution_plan@;
        let call = KyberSwapInteraction {
            encoded_data: self.route.encoded_data.clone(),
            router_address: self.route.router_address,
        };
        proof {
            assert(call.encoded_data@ =~= self.route.encoded_data@);
        }
        encoder.append_to_execution_plan(PlannedInteraction::Call(call.encode()));
        proof {
            let plan = encoder.execution_plan@;
            assert(plan.drop_last() == mid);
            if approval is Some {
                assert(plan.subrange(0, before.len() as int) =~= before);
                assert(plan[before.len() as int] == mid.last());
            }
        }
        Ok(())
    }
}

/// The amount of each route lookup: one token with 18 decimals.
pub fn default_quote_amount() -> (r: U256)
    ensures
        r@ == 1_000_000_000_000_000_000,
{
    U256::from_u64(1_000_000_000_000_000_000u64)
}

/// A route lookup for a token pair, with gas included and the gas price
/// left to KyberSwap.
pub fn route_request(token_in: Address, token_out: Address, amount_in: U256) -> (r: RouteRequest)
    ensures
        r == (RouteRequest { token_in, token_out, amount_in, gas_include: Some(true), gas_price: None }),
{
    RouteRequest { token_in, token_out, amount_in, gas_include: Some(true), gas_price: None }
}

/// The build request of a found route, sent and received by the settlement
/// contract.
pub fn build_route_request(
    route_summary: RouteSummary,
    slippage_bps: u32,
    settlement_contract: Address,
    deadline: u64,
) -> (r: BuildRouteRequest)
    ensures
        r == (BuildRouteRequest {
            route_summary,
            slippage: slippage_bps,
            sender: settlement_contract,
            recipient: settlement_contract,
            deadline,
        }),
{
    BuildRouteRequest {
        route_summary,
        slippage: slippage_bps,
        sender: settlement_contract,
        recipient: settlement_contract,
        deadline,
    }
}

/// The build request of a route found at `now_secs` seconds since the Unix
/// epoch for the liquidity collector: valid for thirty minutes.
pub fn liquidity_build_request(
    route_summary: RouteSummary,
    slippage_bps: u32,
    settlement_contract: Address,
    now_secs: u64,
) -> (r: BuildRouteRequest)
    requires
        now_secs + 1800 <= u64::MAX,
    ensures
        r == (BuildRouteRequest {
            route_summary,
            slippage: slippage_bps,
            sender: settlement_contract,
            recipient: settlement_contract,
            deadline: (now_secs + 1800) as u64,
        }),
{
    build_route_request(route_summary, slippage_bps, settlement_contract, now_secs + 1800)
}

/// The limit order that a route offers: sell exactly its input for its
/// expected output, all or nothing, settled through the router.
pub fn route_limit_order(route: KyberSwapRoute, meta_aggregator_router: Address, allowances: Allowances) -> (r: LimitOrder)
    ensures
        r.id matches LimitOrderId::Liquidity(LiquidityOrderId::Protocol(u)) && u.bytes@ == Seq::new(
            56,
            |i: int| 0u8,
        ),
        r.sell_token == route.token_in,
        r.buy_token == route.token_out,
        r.sell_amount == route.amount_in,
        r.buy_amount == route.amount_out,
        r.kind == OrderKind::Sell,
        !r.partially_fillable,
        r.user_fee@ == 0,
        r.settlement_handling == SettlementHandler::KyberSwap(
            KyberSwapSettlementHandler { route, meta_aggregator_router, allowances },
        ),
        r.exchange == Exchange::ZeroEx,
{
    let uid = OrderUid { bytes: [0u8; 56] };
    proof {
        assert(uid.bytes@ =~= Seq::new(56, |i: int| 0u8));
    }
    LimitOrder {
        id: LimitOrderId::Liquidity(LiquidityOrderId::Protocol(uid)),
        sell_token: route.token_in,
        buy_token: route.token_out,
        sell_amount: route.amount_in,
        buy_amount: route.amount_out,
        kind: OrderKind::Sell,
        partially_fillable: false,
        user_fee: U256::zero(),
        settlement_handling: SettlementHandler::KyberSwap(
            KyberSwapSettlementHandler { route, meta_aggregator_router, allowances },
        ),
        exchange: Exchange::ZeroEx,
    }
}

} // verus!
