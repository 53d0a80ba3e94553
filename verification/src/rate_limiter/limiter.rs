//! A token-bucket rate limiter over multidimensional resources.
//!
//! The tracked resource is multidimensional (see [`Resource`]), and the
//! resources a request uses are known only after it ran. So there are two
//! steps: `allow` checks at the start of a request that the key has not
//! exhausted its budget (first draining the bucket by the refill rate times
//! the elapsed time), and `update` charges the resources afterwards. A key can
//! therefore overshoot its budget; it is then refused until enough time has
//! passed for the used resources to drain below the maximum.
use vstd::prelude::*;

use crate::address::Address;
use crate::rate_limiter::net::IpNetwork;
use crate::rate_limiter::resource::{LimitExceeded, Resource, sat_sub};
use crate::time::Duration;

verus! {

/// Configuration of one bucket: its capacity and how fast it drains.
#[derive(Debug, Clone, Copy, PartialEq, Eq)]
pub struct RateLimiterConfig {
    pub max_allowed_resources: TotalResources,
    pub refill_rate: RefillRatePerMillis,
}

/// The amount of resources used by a request that needs to be rate-limited.
#[derive(Debug, Clone, Copy, PartialEq, Eq)]
pub struct ResourceUsed {
    pub inner: Resource,
}

impl ResourceUsed {
    pub fn zero() -> (r: ResourceUsed)
        ensures
            r.inner == Resource::spec_zero(),
    {
        ResourceUsed { inner: Resource::zero() }
    }

    pub fn new(
        req_counter: u64,
        tx_size_in_bytes: usize,
        execution_time_micros: u64,
        gas_used: crate::rate_limiter::resource::GasUnit,
    ) -> (r: ResourceUsed)
        ensures
            r.inner == (Resource {
                req_counter,
                space_in_bytes: tx_size_in_bytes as u64,
                execution_time_micros,
                gas_used,
            }),
    {
        ResourceUsed {
            inner: Resource {
                req_counter,
                space_in_bytes: tx_size_in_bytes as u64,
                execution_time_micros,
                gas_used,
            },
        }
    }
}

/// How quickly used resources drain, per millisecond.
#[derive(Debug, Clone, Copy, PartialEq, Eq)]
pub struct RefillRatePerMillis {
    pub token_resource_per_ms: Resource,
}

impl RefillRatePerMillis {
    pub open spec fn spec_mul_by_millis(self, since_last_refill: u64) -> Resource {
        self.token_resource_per_ms.spec_saturating_mul_by_scalar(since_last_refill)
    }

    /// The amount refilled over `since_last_refill` milliseconds.
    pub fn mul_by_millis(&self, since_last_refill: u64) -> (r: Resource)
        ensures
            r == self.spec_mul_by_millis(since_last_refill),
    {
        self.token_resource_per_ms.saturating_mul_by_scalar(since_last_refill)
    }
}

/// The total resource usage tracked for one key.
#[derive(Debug, Clone, Copy, PartialEq, Eq)]
pub struct TotalResources {
    pub inner: Resource,
}

impl TotalResources {
    pub open spec fn spec_combine(self, used: ResourceUsed) -> Option<TotalResources> {
        match self.inner.spec_checked_add(used.inner) {
            Some(inner) => Some(TotalResources { inner }),
            None => None,
        }
    }

    pub open spec fn spec_refill_tokens(self, how_much_to_refill: Resource) -> TotalResources {
        TotalResources { inner: self.inner.spec_saturating_sub(how_much_to_refill) }
    }

    pub open spec fn spec_allow(self, max: TotalResources) -> Result<(), LimitExceeded> {
        self.inner.spec_err_if_reaching(max.inner)
    }

    pub fn zero() -> (r: TotalResources)
        ensures
            r.inner == Resource::spec_zero(),
    {
        TotalResources { inner: Resource::zero() }
    }

    pub fn combine(&self, used: &ResourceUsed) -> (r: Option<TotalResources>)
        ensures
            r == self.spec_combine(*used),
    {
        match self.inner.checked_add(&used.inner) {
            Some(inner) => Some(TotalResources { inner }),
            None => None,
        }
    }

    /// Refilling tokens decreases the amount of resources counted as used.
    pub fn refill_tokens(&self, how_much_to_refill: &Resource) -> (r: TotalResources)
        ensures
            r == self.spec_refill_tokens(*how_much_to_refill),
    {
        TotalResources { inner: self.inner.saturating_sub(how_much_to_refill) }
    }

    pub fn allow(&self, max: &TotalResources) -> (r: Result<(), LimitExceeded>)
        ensures
            r == self.spec_allow(*max),
    {
        self.inner.err_if_reaching(&max.inner)
    }
}

/// Whole milliseconds between two readings of a monotonic clock given in
/// nanoseconds; zero when `now` is not later than `earlier`.
pub open spec fn millis_between(earlier_nanos: u64, now_nanos: u64) -> u64 {
    (sat_sub(now_nanos, earlier_nanos) / 1_000_000) as u64
}

/// The resources used by one key and the clock reading (in nanoseconds) of
/// its last refill.
#[derive(Debug, Clone, Copy, PartialEq, Eq)]
pub struct Throttler {
    pub total_resource_used: TotalResources,
    pub last_refill_nanos: u64,
}

impl Throttler {
    /// A throttler that has used nothing yet.
    pub open spec fn spec_fresh(now_nanos: u64) -> Throttler {
        Throttler {
            total_resource_used: TotalResources { inner: Resource::spec_zero() },
            last_refill_nanos: now_nanos,
        }
    }

    /// Drains the used resources by the refill rate times the whole
    /// milliseconds elapsed since the last refill, then checks the drained
    /// usage against the maximum. On success the refill time moves to `now`.
    pub open spec fn spec_allow_request_and_refill(
        self,
        now_nanos: u64,
        max_allowed_resources: TotalResources,
        refill_rate: RefillRatePerMillis,
    ) -> Result<Throttler, LimitExceeded> {
        let refill = refill_rate.spec_mul_by_millis(millis_between(self.last_refill_nanos, now_nanos));
        let after = self.total_resource_used.spec_refill_tokens(refill);
        match after.spec_allow(max_allowed_resources) {
            Ok(()) => Ok(Throttler { total_resource_used: after, last_refill_nanos: now_nanos }),
            Err(e) => Err(e),
        }
    }

    /// Adds the resources a request used; on overflow the usage becomes the maximum.
    pub open spec fn spec_throttle(self, resource_used: ResourceUsed) -> Throttler {
        Throttler {
            total_resource_used: match self.total_resource_used.spec_combine(resource_used) {
                Some(t) => t,
                None => TotalResources { inner: Resource::spec_max() },
            },
            last_refill_nanos: self.last_refill_nanos,
        }
    }

    pub fn fresh(now_nanos: u64) -> (r: Throttler)
        ensures
            r == Throttler::spec_fresh(now_nanos),
    {
        Throttler { total_resource_used: TotalResources::zero(), last_refill_nanos: now_nanos }
    }

    pub fn allow_request_and_refill_resource_used(
        &self,
        now_nanos: u64,
        max_allowed_resources: &TotalResources,
        refill_rate: &RefillRatePerMillis,
    ) -> (r: Result<Throttler, LimitExceeded>)
        ensures
            r == self.spec_allow_request_and_refill(now_nanos, *max_allowed_resources, *refill_rate),
    {
        let since_last_refill: u64 = now_nanos.saturating_sub(self.last_refill_nanos) / 1_000_000;
        let how_much_to_fill = refill_rate.mul_by_millis(since_last_refill);
        let after = self.total_resource_used.refill_tokens(&how_much_to_fill);
        match after.allow(max_allowed_resources) {
            Ok(()) => Ok(Throttler { total_resource_used: after, last_refill_nanos: now_nanos }),
            Err(e) => Err(e),
        }
    }

    pub fn throttle(&self, resource_used: &ResourceUsed) -> (r: Throttler)
        ensures
            r == self.spec_throttle(*resource_used),
    {
        let used = match self.total_resource_used.combine(resource_used) {
            Some(used) => used,
            None => TotalResources { inner: Resource::max() },
        };
        Throttler { total_resource_used: used, last_refill_nanos: self.last_refill_nanos }
    }
}

/// An admitted request moves the refill clock to the current reading, so no
/// elapsed interval is drained twice: after two admissions the usage has
/// been drained for the time since the first only once.
pub proof fn lemma_admission_moves_refill_clock(
    t: Throttler,
    now_nanos: u64,
    max_allowed_resources: TotalResources,
    refill_rate: RefillRatePerMillis,
)
    ensures
        t.spec_allow_request_and_refill(now_nanos, max_allowed_resources, refill_rate) matches Ok(t2)
            ==> t2.last_refill_nanos == now_nanos,
        t.spec_allow_request_and_refill(now_nanos, max_allowed_resources, refill_rate) matches Ok(t2)
            ==> t2.spec_allow_request_and_refill(now_nanos, max_allowed_resources, refill_rate) matches Ok(t3)
            && t3 == t2,
{
    if let Ok(t2) = t.spec_allow_request_and_refill(now_nanos, max_allowed_resources, refill_rate) {
        assert(millis_between(t2.last_refill_nanos, now_nanos) == 0);
        let rate = refill_rate.token_resource_per_ms;
        let z = refill_rate.spec_mul_by_millis(0);
        assert(z.req_counter == 0 && z.space_in_bytes == 0 && z.execution_time_micros == 0);
        let after = t2.total_resource_used.spec_refill_tokens(z);
        assert(after.inner.gas_used == t2.total_resource_used.inner.gas_used);
        assert(after == t2.total_resource_used);
    }
}

/// A request is admitted exactly when, after draining the usage by the
/// refill rate times the whole milliseconds elapsed since the last refill
/// (never below zero), the request count, space and execution time all stay
/// below their maxima; the admitted throttler holds that drained usage.
pub proof fn lemma_admission_drains_by_elapsed_millis(
    t: Throttler,
    now_nanos: u64,
    max_allowed_resources: TotalResources,
    refill_rate: RefillRatePerMillis,
)
    ensures
        ({
            let ms: int = millis_between(t.last_refill_nanos, now_nanos) as int;
            let used = t.total_resource_used.inner;
            let rate = refill_rate.token_resource_per_ms;
            let max = max_allowed_resources.inner;
            let req: int = if used.req_counter >= rate.req_counter * ms {
                used.req_counter - rate.req_counter * ms
            } else {
                0
            };
            let space: int = if used.space_in_bytes >= rate.space_in_bytes * ms {
                used.space_in_bytes - rate.space_in_bytes * ms
            } else {
                0
            };
            let time: int = if used.execution_time_micros >= rate.execution_time_micros * ms {
                used.execution_time_micros - rate.execution_time_micros * ms
            } else {
                0
            };
            let r = t.spec_allow_request_and_refill(now_nanos, max_allowed_resources, refill_rate);
            &&& r is Ok <==> (req < max.req_counter && space < max.space_in_bytes && time
                < max.execution_time_micros)
            &&& r matches Ok(t2) ==> t2.total_resource_used.inner.req_counter == req
                && t2.total_resource_used.inner.space_in_bytes == space
                && t2.total_resource_used.inner.execution_time_micros == time
            &&& ms == 0 ==> (r matches Ok(t2) ==> t2.total_resource_used == t.total_resource_used)
            &&& r matches Err(LimitExceeded::RequestCount { total_accumulated, max_allowed }) ==> total_accumulated
                == req && max_allowed == max.req_counter && req >= max.req_counter
            &&& r matches Err(LimitExceeded::Space { total_accumulated, max_allowed }) ==> total_accumulated
                == space && max_allowed == max.space_in_bytes && req < max.req_counter && space >= max.space_in_bytes
            &&& r matches Err(LimitExceeded::ExecutionTime { total_accumulated, max_allowed }) ==> total_accumulated
                == time && max_allowed == max.execution_time_micros && req < max.req_counter && space
                < max.space_in_bytes && time >= max.execution_time_micros
            &&& r is Err ==> (r matches Err(LimitExceeded::RequestCount { .. }) || r matches Err(
                LimitExceeded::Space { .. },
            ) || r matches Err(LimitExceeded::ExecutionTime { .. }))
        }),
{
    let ms = millis_between(t.last_refill_nanos, now_nanos);
    let used = t.total_resource_used.inner;
    let rate = refill_rate.token_resource_per_ms;
    if ms == 0 {
        assert(rate.req_counter * ms == 0 && rate.space_in_bytes * ms == 0 && rate.execution_time_micros * ms == 0);
        assert(rate.gas_used.dim0 * ms == 0 && rate.gas_used.dim1 * ms == 0);
    }
}

/// Longer waits drain at least as much: `sat_mul` grows with its scalar.
proof fn lemma_sat_mul_monotone(x: u64, a: u64, b: u64)
    requires
        a <= b,
    ensures
        crate::rate_limiter::resource::sat_mul(x, a) <= crate::rate_limiter::resource::sat_mul(x, b),
{
    assert(x * a <= x * b) by (nonlinear_arith)
        requires
            a <= b,
            x >= 0,
    ;
}

/// Waiting never hurts: a throttler admitted at some clock reading is
/// admitted at any later reading too, since the bucket only drains further.
pub proof fn lemma_waiting_never_hurts(
    t: Throttler,
    earlier_nanos: u64,
    later_nanos: u64,
    max_allowed_resources: TotalResources,
    refill_rate: RefillRatePerMillis,
)
    requires
        earlier_nanos <= later_nanos,
        t.spec_allow_request_and_refill(earlier_nanos, max_allowed_resources, refill_rate) is Ok,
    ensures
        t.spec_allow_request_and_refill(later_nanos, max_allowed_resources, refill_rate) is Ok,
{
    let m1 = millis_between(t.last_refill_nanos, earlier_nanos);
    let m2 = millis_between(t.last_refill_nanos, later_nanos);
    assert(m1 <= m2) by (nonlinear_arith)
        requires
            m1 == (sat_sub(earlier_nanos, t.last_refill_nanos) / 1_000_000) as u64,
            m2 == (sat_sub(later_nanos, t.last_refill_nanos) / 1_000_000) as u64,
            sat_sub(earlier_nanos, t.last_refill_nanos) <= sat_sub(later_nanos, t.last_refill_nanos),
    ;
    let rate = refill_rate.token_resource_per_ms;
    lemma_sat_mul_monotone(rate.req_counter, m1, m2);
    lemma_sat_mul_monotone(rate.space_in_bytes, m1, m2);
    lemma_sat_mul_monotone(rate.execution_time_micros, m1, m2);
}

/// The key of a rate-limiting bucket: a sender address or an IP network.
#[derive(Debug, Clone, Copy, PartialEq, Eq, Hash)]
pub enum LimiterKey {
    Address(Address),
    Network(IpNetwork),
}

impl LimiterKey {
    pub fn same(&self, other: &LimiterKey) -> (r: bool)
        ensures
            r == (*self == *other),
    {
        match (self, other) {
            (LimiterKey::Address(a), LimiterKey::Address(b)) => a.same(b),
            (LimiterKey::Network(a), LimiterKey::Network(b)) => {
                let same_addr = a.addr() == b.addr();
                let same_prefix = a.prefix_len() == b.prefix_len();
                proof {
                    if same_addr && same_prefix {
                        IpNetwork::lemma_fields_determine(*a, *b);
                    }
                }
                same_addr && same_prefix
            },
            _ => false,
        }
    }
}

#[verifier::external_type_specification]
#[verifier::external_body]
#[verifier::reject_recursive_types(K)]
#[verifier::reject_recursive_types(V)]
#[verifier::reject_recursive_types(S)]
pub struct ExCache<K, V, S>(mini_moka::sync::Cache<K, V, S>);

/// The cache that holds one throttler per key.
pub type ThrottlerCache = mini_moka::sync::Cache<LimiterKey, Throttler>;

/// The throttler most recently inserted into a cache for each key.
pub uninterp spec fn cached_throttlers(cache: ThrottlerCache) -> Map<LimiterKey, Throttler>;

/// The longest time-to-live a cache accepts: 1000 years of 365 days, in
/// nanoseconds.
pub const MAX_CACHE_TTL_NANOS: u128 = 31_536_000_000_000_000_000;

/// Builds a `mini_moka::sync::Cache` whose entries expire a time-to-live
/// (whole seconds and the nanoseconds beyond them) after they were
/// inserted. The new cache holds nothing. Building panics on a
/// time-to-live over 1000 years, which `requires` leaves out.
#[verifier::external_body]
fn new_throttler_cache(ttl_secs: u64, ttl_subsec_nanos: u32) -> (fresh: ThrottlerCache)
    requires
        ttl_subsec_nanos < 1_000_000_000,
        ttl_secs * 1_000_000_000 + ttl_subsec_nanos <= MAX_CACHE_TTL_NANOS,
    ensures
        cached_throttlers(fresh) =~= Map::empty(),
{
    mini_moka::sync::Cache::builder().time_to_live(std::time::Duration::new(ttl_secs, ttl_subsec_nanos)).build()
}

/// `mini_moka::sync::Cache::get`: a clone of the value stored for the key,
/// unless the entry expired or was evicted. What comes back, if anything,
/// is the value most recently inserted for that key. Whether the entry is
/// still present depends on the clock and is not stated.
#[verifier::external_body]
fn cache_get(
    cache: &ThrottlerCache,
    key: &LimiterKey,
) -> (r: Option<Throttler>)
    ensures
        r matches Some(t) ==> cached_throttlers(*cache).contains_key(*key)
            && cached_throttlers(*cache)[*key] == t,
{
    cache.get(key)
}

/// `mini_moka::sync::Cache::insert`: stores the value for the key,
/// replacing any earlier one.
#[verifier::external_body]
fn cache_insert(
    cache: &mut ThrottlerCache,
    key: LimiterKey,
    value: Throttler,
)
    ensures
        cached_throttlers(*final(cache)) == cached_throttlers(*old(cache)).insert(key, value),
{
    cache.insert(key, value)
}

/// `mini_moka::sync::Cache::entry_count`: an estimate of the number of live
/// entries. The crate documents it as approximate (pending expirations and
/// insertions may not be counted yet); all that is stated is that a cache
/// nothing was ever inserted into counts no entry.
#[verifier::external_body]
fn cache_entry_count(cache: &ThrottlerCache) -> (r: u64)
    ensures
        cached_throttlers(*cache).dom().is_empty() ==> r == 0,
{
    cache.entry_count()
}

/// The configuration that applies to `key`: the last special configuration
/// given for it, or the default one.
pub open spec fn config_for(
    special_configs: Seq<(LimiterKey, RateLimiterConfig)>,
    default_config: RateLimiterConfig,
    key: LimiterKey,
) -> RateLimiterConfig
    decreases special_configs.len(),
{
    if special_configs.len() == 0 {
        default_config
    } else if special_configs.last().0 == key {
        special_configs.last().1
    } else {
        config_for(special_configs.drop_last(), default_config, key)
    }
}

/// Whether some special configuration is given for `key`.
pub open spec fn has_special_config(
    special_configs: Seq<(LimiterKey, RateLimiterConfig)>,
    key: LimiterKey,
) -> bool {
    exists|i: int| 0 <= i < special_configs.len() && special_configs[i].0 == key
}

/// The outcome of `allow` for a key, given what the cache returned for it
/// and how many users it counts:
/// a known key is drained and checked against its configuration; an unknown
/// key is refused when the cache already tracks the maximum number of users,
/// and otherwise a fresh throttler (nothing used yet) is checked in the same
/// way, so that a zero budget refuses even the first request.
pub open spec fn spec_allow_with_cached(
    cached: Option<Throttler>,
    nb_of_users: u64,
    max_nb_of_users: u64,
    config: RateLimiterConfig,
    now_nanos: u64,
) -> Result<Throttler, LimitExceeded> {
    match cached {
        Some(t) => t.spec_allow_request_and_refill(
            now_nanos,
            config.max_allowed_resources,
            config.refill_rate,
        ),
        None => if nb_of_users >= max_nb_of_users {
            Err(LimitExceeded::TooManyConcurrentUsers { nb_of_users, max_allowed: max_nb_of_users })
        } else {
            Throttler::spec_fresh(now_nanos).spec_allow_request_and_refill(
                now_nanos,
                config.max_allowed_resources,
                config.refill_rate,
            )
        },
    }
}

/// Decides `allow` from what the cache returned for the key.
pub fn allow_with_cached(
    cached: Option<Throttler>,
    nb_of_users: u64,
    max_nb_of_users: u64,
    config: &RateLimiterConfig,
    now_nanos: u64,
) -> (r: Result<Throttler, LimitExceeded>)
    ensures
        r == spec_allow_with_cached(cached, nb_of_users, max_nb_of_users, *config, now_nanos),
{
    match cached {
        Some(t) => t.allow_request_and_refill_resource_used(
            now_nanos,
            &config.max_allowed_resources,
            &config.refill_rate,
        ),
        None => {
            if nb_of_users >= max_nb_of_users {
                Err(
                    LimitExceeded::TooManyConcurrentUsers {
                        nb_of_users,
                        max_allowed: max_nb_of_users,
                    },
                )
            } else {
                Throttler::fresh(now_nanos).allow_request_and_refill_resource_used(
                    now_nanos,
                    &config.max_allowed_resources,
                    &config.refill_rate,
                )
            }
        },
    }
}

/// A token-bucket rate limiter keyed by [`LimiterKey`], with a default
/// configuration and per-key special configurations. Throttlers of keys that
/// saw no request for the time-to-live are evicted, which resets them.
pub struct RateLimiter {
    name: &'static str,
    max_nb_of_concurrent_users: u64,
    data: ThrottlerCache,
    default_config: RateLimiterConfig,
    special_configs: Vec<(LimiterKey, RateLimiterConfig)>,
}

impl RateLimiter {
    pub closed spec fn spec_name(&self) -> &'static str {
        self.name
    }

    pub closed spec fn spec_max_users(&self) -> u64 {
        self.max_nb_of_concurrent_users
    }

    pub closed spec fn spec_default_config(&self) -> RateLimiterConfig {
        self.default_config
    }

    pub closed spec fn spec_special_configs(&self) -> Seq<(LimiterKey, RateLimiterConfig)> {
        self.special_configs@
    }

    /// The throttler last stored for each key (entries may since have expired).
    pub closed spec fn spec_stored(&self) -> Map<LimiterKey, Throttler> {
        cached_throttlers(self.data)
    }

    pub open spec fn spec_config_for(&self, key: LimiterKey) -> RateLimiterConfig {
        config_for(self.spec_special_configs(), self.spec_default_config(), key)
    }

    /// What `allow` may return for `key` at `now_nanos`, over every answer
    /// the cache can give: nothing (the entry expired, was evicted or never
    /// existed, with any count of users), or the throttler last stored for the key.
    pub open spec fn spec_allow_outcome(
        &self,
        now_nanos: u64,
        key: LimiterKey,
        r: Result<Throttler, LimitExceeded>,
    ) -> bool {
        exists|cached: Option<Throttler>, nb_of_users: u64|
            {
                &&& (cached matches Some(t) ==> self.spec_stored().contains_key(key)
                    && self.spec_stored()[key] == t)
                &&& r == spec_allow_with_cached(
                    cached,
                    nb_of_users,
                    self.spec_max_users(),
                    self.spec_config_for(key),
                    now_nanos,
                )
            }
    }

    pub fn new(
        name: &'static str,
        max_nb_of_concurrent_users: u64,
        ttl: Duration,
        default_config: RateLimiterConfig,
        special_configs: Vec<(LimiterKey, RateLimiterConfig)>,
    ) -> (r: RateLimiter)
        requires
            ttl.total_nanos() <= MAX_CACHE_TTL_NANOS,
        ensures
            r.spec_name() == name,
            r.spec_max_users() == max_nb_of_concurrent_users,
            r.spec_default_config() == default_config,
            r.spec_special_configs() == special_configs@,
            r.spec_stored() == Map::<LimiterKey, Throttler>::empty(),
    {
        let data = new_throttler_cache(ttl.as_secs(), ttl.subsec_nanos());
        RateLimiter { name, max_nb_of_concurrent_users, data, default_config, special_configs }
    }

    pub fn name(&self) -> (r: &'static str)
        ensures
            r == self.spec_name(),
    {
        self.name
    }

    /// The configuration that applies to `key`.
    pub fn get_config(&self, key: &LimiterKey) -> (r: &RateLimiterConfig)
        ensures
            *r == self.spec_config_for(*key),
    {
        let mut i = self.special_configs.len();
        assert(self.special_configs@.subrange(0, i as int) =~= self.special_configs@);
        while i > 0
            invariant
                i <= self.special_configs@.len(),
                config_for(self.special_configs@, self.default_config, *key) == config_for(
                    self.special_configs@.subrange(0, i as int),
                    self.default_config,
                    *key,
                ),
            decreases i,
        {
            let ghost prefix = self.special_configs@.subrange(0, i as int);
            assert(prefix.drop_last() =~= self.special_configs@.subrange(0, i - 1));
            if self.special_configs[i - 1].0.same(key) {
                return &self.special_configs[i - 1].1;
            }
            i = i - 1;
        }
        assert(self.special_configs@.subrange(0, 0) =~= Seq::<(LimiterKey, RateLimiterConfig)>::empty());
        &self.default_config
    }

    /// Whether a special configuration is given for `key`.
    pub fn contains_special_config(&self, key: &LimiterKey) -> (r: bool)
        ensures
            r == has_special_config(self.spec_special_configs(), *key),
    {
        let mut i: usize = 0;
        while i < self.special_configs.len()
            invariant
                i <= self.special_configs@.len(),
                forall|j: int| 0 <= j < i ==> self.special_configs@[j].0 != *key,
            decreases self.special_configs@.len() - i,
        {
            if self.special_configs[i].0.same(key) {
                return true;
            }
            i = i + 1;
        }
        false
    }

    /// Checks whether `key` may make a request at `now_nanos`. Whatever the
    /// cache returned for the key (the throttler last stored for it, or
    /// nothing once it expired), the result is the decision of
    /// [`spec_allow_with_cached`] on it under the key's configuration.
    pub fn allow(&self, now_nanos: u64, key: &LimiterKey) -> (r: Result<Throttler, LimitExceeded>)
        ensures
            self.spec_allow_outcome(now_nanos, *key, r),
            self.spec_stored().dom().is_empty() ==> r == spec_allow_with_cached(
                None,
                0,
                self.spec_max_users(),
                self.spec_config_for(*key),
                now_nanos,
            ),
    {
        let cached = cache_get(&self.data, key);
        let nb_of_users = match cached {
            Some(_) => 0,
            None => cache_entry_count(&self.data),
        };
        let config = self.get_config(key);
        let r = allow_with_cached(
            cached,
            nb_of_users,
            self.max_nb_of_concurrent_users,
            config,
            now_nanos,
        );
        assert((cached matches Some(t) ==> self.spec_stored().contains_key(*key)
            && self.spec_stored()[*key] == t) && r == spec_allow_with_cached(
            cached,
            nb_of_users,
            self.spec_max_users(),
            self.spec_config_for(*key),
            now_nanos,
        ));
        r
    }

    /// Charges `resource_used` to the throttler handed out by `allow`, stores
    /// the result for `key` and returns it.
    pub fn update(&mut self, key: LimiterKey, throttler: Throttler, resource_used: ResourceUsed) -> (r:
        Throttler)
        ensures
            r == throttler.spec_throttle(resource_used),
            final(self).spec_stored() == old(self).spec_stored().insert(key, r),
            final(self).spec_name() == old(self).spec_name(),
            final(self).spec_max_users() == old(self).spec_max_users(),
            final(self).spec_default_config() == old(self).spec_default_config(),
            final(self).spec_special_configs() == old(self).spec_special_configs(),
    {
        let throttler = throttler.throttle(&resource_used);
        cache_insert(&mut self.data, key, throttler);
        throttler
    }
}

} // verus!
