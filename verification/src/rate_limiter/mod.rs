//! Rate limiting of incoming transactions by sender address and by IP network.
//!
//! Every transaction is charged to two buckets: one for its sender address
//! and one for its IP. An IP is charged to the configured subnet that
//! contains it, if any, and otherwise to its own host network.
pub mod limiter;
pub mod net;
pub mod resource;
pub mod subnets;

use vstd::prelude::*;

use crate::address::Address;
use crate::rate_limiter::limiter::{
    LimiterKey, RateLimiter, RateLimiterConfig, RefillRatePerMillis, ResourceUsed, Throttler,
    TotalResources, spec_allow_with_cached, has_special_config, MAX_CACHE_TTL_NANOS,
};
use crate::rate_limiter::net::{
    IpAddress, IpNetwork, canonicalize_ip_net, family_width, lemma_truncated_supernet_contains_host,
    spec_canonicalize_ip_net,
};
use crate::rate_limiter::resource::{GasUnit, LimitExceeded, Resource};
use crate::rate_limiter::subnets::{
    OverlappingSubnets, SubnetPrefixes, assert_no_overlapping_subnets, no_overlap,
};
use crate::text::decimal_chars;
use crate::time::Duration;

verus! {

/// Throttlers are evicted this many batch execution time limits after their
/// key's last request.
pub const TTL_MULTIPLIER: u32 = 5;

/// The share of a batch that one bucket may use, and how fast it refills.
#[derive(Debug, Clone, Copy, PartialEq, Eq)]
pub struct Limits {
    /// Per-mille of a batch's resources that one bucket may hold.
    pub resources_per_bucket: u64,
    /// How many times its capacity a bucket refills over one batch.
    pub refill_rate: u64,
}

/// Operator configuration of the rate limiter.
#[derive(Debug)]
pub struct SovRateLimiterConfig {
    pub max_requests_per_second: u64,
    pub max_nb_of_concurrent_users_in_rate_limiter: u64,
    pub default_limits: Limits,
    /// The gas budget of a batch at the height used for gas-limit computation.
    pub comfortable_gas_limit: GasUnit,
    pub address_custom_limits: Vec<(Address, Limits)>,
    pub ip_custom_limits: Vec<(IpNetwork, Limits)>,
}

/// Text of an IPv6 network in `address/prefix` form, as the `ipnet` crate
/// displays it (the address in its canonical compressed form).
pub uninterp spec fn ipv6_network_text(addr_bits: u128, prefix_len: u8) -> Seq<char>;

/// Text of an IPv4 network: the address in dotted decimal (its four bytes,
/// most significant first), `/` and the prefix length.
pub open spec fn ipv4_network_text(addr_bits: u32, prefix_len: u8) -> Seq<char> {
    decimal_chars((addr_bits / 0x100_0000) as nat) + seq!['.'] + decimal_chars(
        ((addr_bits / 0x1_0000) % 0x100) as nat,
    ) + seq!['.'] + decimal_chars(((addr_bits / 0x100) % 0x100) as nat) + seq!['.'] + decimal_chars(
        (addr_bits % 0x100) as nat,
    ) + seq!['/'] + decimal_chars(prefix_len as nat)
}

/// Displays an IP network through `ipnet::IpNet`'s `Display`: the address,
/// `/` and the prefix length. An IPv4 address is written in dotted decimal
/// (`std::net::Ipv4Addr`'s `Display`); the text of an IPv6 address (its
/// canonical compressed form) is named, not spelled out.
#[verifier::external_body]
fn ip_network_to_string(is_v6: bool, addr_bits: u128, prefix_len: u8) -> (text: String)
    requires
        is_v6 ==> prefix_len <= 128,
        !is_v6 ==> prefix_len <= 32 && addr_bits <= u32::MAX,
    ensures
        is_v6 ==> text@ == ipv6_network_text(addr_bits, prefix_len),
        !is_v6 ==> text@ == ipv4_network_text(addr_bits as u32, prefix_len),
{
    if is_v6 {
        ipnet::IpNet::V6(ipnet::Ipv6Net::new(addr_bits.into(), prefix_len).unwrap()).to_string()
    } else {
        ipnet::IpNet::V4(ipnet::Ipv4Net::new((addr_bits as u32).into(), prefix_len).unwrap()).to_string()
    }
}

/// The text of a network.
pub open spec fn network_text(net: IpNetwork) -> Seq<char> {
    match net.spec_addr() {
        IpAddress::V4(bits) => ipv4_network_text(bits, net.spec_prefix_len()),
        IpAddress::V6(bits) => ipv6_network_text(bits, net.spec_prefix_len()),
    }
}

/// Empty for a host network (`/32` or `/128`), and ` (subnet <net>)` when
/// an address was limited through a wider configured subnet.
pub open spec fn spec_subnet_suffix(net: IpNetwork) -> Seq<char> {
    if net.spec_is_host() {
        Seq::empty()
    } else {
        " (subnet "@ + network_text(net) + ")"@
    }
}

/// Renders the matched subnet for an IP rate-limit error.
pub fn subnet_suffix(ip_net: &IpNetwork) -> (r: String)
    ensures
        r@ == spec_subnet_suffix(*ip_net),
{
    if ip_net.is_host() {
        String::new()
    } else {
        let prefix_len = ip_net.prefix_len();
        let text = match ip_net.addr() {
            IpAddress::V4(bits) => ip_network_to_string(false, bits as u128, prefix_len),
            IpAddress::V6(bits) => ip_network_to_string(true, bits, prefix_len),
        };
        let mut out = String::from_str(" (subnet ");
        out.append(text.as_str());
        out.append(")");
        out
    }
}

/// Whole milliseconds and whole microseconds of a span.
pub open spec fn span_millis(d: Duration) -> nat {
    d.total_nanos() / 1_000_000
}

pub open spec fn span_micros(d: Duration) -> nat {
    d.total_nanos() / 1_000
}

/// The inputs on which [`calculate_limits`] is defined: the batch time in
/// milliseconds is positive, and the batch time in microseconds and the
/// request budget of a batch fit in `u64`.
pub open spec fn limits_computable(max_requests_per_second: u64, batch_execution_time_limit: Duration) -> bool {
    &&& span_millis(batch_execution_time_limit) > 0
    &&& span_micros(batch_execution_time_limit) <= u64::MAX
    &&& max_requests_per_second * span_millis(batch_execution_time_limit) <= u64::MAX
}

/// The bucket configuration for `limits`:
/// a batch may hold `max_requests_per_second` times its duration requests,
/// `max_batch_size_bytes` bytes, its duration in microseconds of execution,
/// and `max_gas` gas; one bucket holds `resources_per_bucket` per mille of
/// that (at least one request when neither `resources_per_bucket` nor
/// `max_requests_per_second` is zero), and refills `refill_rate` times its
/// capacity over one batch, spread per millisecond.
pub open spec fn spec_calculate_limits(
    limits: Limits,
    max_requests_per_second: u64,
    batch_execution_time_limit: Duration,
    max_batch_size_bytes: u64,
    max_gas: GasUnit,
) -> RateLimiterConfig {
    let millis = span_millis(batch_execution_time_limit) as u64;
    let per_batch = Resource {
        req_counter: ((max_requests_per_second * millis) / 1000) as u64,
        space_in_bytes: max_batch_size_bytes,
        execution_time_micros: span_micros(batch_execution_time_limit) as u64,
        gas_used: max_gas,
    };
    let scaled = per_batch.spec_saturating_mul_by_scalar(limits.resources_per_bucket).spec_div_by_scalar(
        1000,
    );
    let max_per_key = if limits.resources_per_bucket > 0 && max_requests_per_second > 0
        && scaled.req_counter == 0 {
        Resource { req_counter: 1, ..scaled }
    } else {
        scaled
    };
    RateLimiterConfig {
        max_allowed_resources: TotalResources { inner: max_per_key },
        refill_rate: RefillRatePerMillis {
            token_resource_per_ms: max_per_key.spec_saturating_mul_by_scalar(
                limits.refill_rate,
            ).spec_div_by_scalar(millis),
        },
    }
}

pub fn calculate_limits(
    limits: Limits,
    max_requests_per_second: u64,
    batch_execution_time_limit: Duration,
    max_batch_size_bytes: usize,
    max_gas: GasUnit,
) -> (r: RateLimiterConfig)
    requires
        limits_computable(max_requests_per_second, batch_execution_time_limit),
    ensures
        r == spec_calculate_limits(
            limits,
            max_requests_per_second,
            batch_execution_time_limit,
            max_batch_size_bytes as u64,
            max_gas,
        ),
{
    let millis_wide = batch_execution_time_limit.as_millis();
    let micros_wide = batch_execution_time_limit.as_micros();
    proof {
        assert(millis_wide <= micros_wide) by (nonlinear_arith)
            requires
                millis_wide == batch_execution_time_limit.total_nanos() / 1_000_000,
                micros_wide == batch_execution_time_limit.total_nanos() / 1_000,
        ;
    }
    let millis = millis_wide as u64;
    let micros = micros_wide as u64;
    let max_resources_per_batch = Resource {
        req_counter: max_requests_per_second * millis / 1000,
        space_in_bytes: max_batch_size_bytes as u64,
        execution_time_micros: micros,
        gas_used: max_gas,
    };
    let mut max_per_key = max_resources_per_batch.saturating_mul_by_scalar(
        limits.resources_per_bucket,
    ).div_by_scalar(1000);
    if limits.resources_per_bucket > 0 && max_requests_per_second > 0 {
        if max_per_key.req_counter < 1 {
            max_per_key.req_counter = 1;
        }
    }
    let refill_rate = max_per_key.saturating_mul_by_scalar(limits.refill_rate).div_by_scalar(millis);
    RateLimiterConfig {
        max_allowed_resources: TotalResources { inner: max_per_key },
        refill_rate: RefillRatePerMillis { token_resource_per_ms: refill_rate },
    }
}

/// A non-zero request rate and a non-zero share never round the request
/// budget of a bucket down to zero.
pub proof fn lemma_nonzero_rate_keeps_a_request_budget(
    limits: Limits,
    max_requests_per_second: u64,
    batch_execution_time_limit: Duration,
    max_batch_size_bytes: u64,
    max_gas: GasUnit,
)
    requires
        limits.resources_per_bucket > 0,
        max_requests_per_second > 0,
    ensures
        spec_calculate_limits(
            limits,
            max_requests_per_second,
            batch_execution_time_limit,
            max_batch_size_bytes,
            max_gas,
        ).max_allowed_resources.inner.req_counter >= 1,
{
}

/// A zero share (`resources_per_bucket == 0`) or a zero request rate
/// (`max_requests_per_second == 0`) blocks everything: every request to a
/// bucket so configured is refused, whether its key is known or not.
pub proof fn lemma_zero_budget_refuses_every_request(
    limits: Limits,
    max_requests_per_second: u64,
    batch_execution_time_limit: Duration,
    max_batch_size_bytes: u64,
    max_gas: GasUnit,
    cached: Option<Throttler>,
    nb_of_users: u64,
    max_nb_of_users: u64,
    now_nanos: u64,
)
    requires
        limits.resources_per_bucket == 0 || max_requests_per_second == 0,
        limits_computable(max_requests_per_second, batch_execution_time_limit),
    ensures
        spec_allow_with_cached(
            cached,
            nb_of_users,
            max_nb_of_users,
            spec_calculate_limits(
                limits,
                max_requests_per_second,
                batch_execution_time_limit,
                max_batch_size_bytes,
                max_gas,
            ),
            now_nanos,
        ) is Err,
{
    let millis = span_millis(batch_execution_time_limit) as u64;
    let req = ((max_requests_per_second * millis) / 1000) as u64;
    if max_requests_per_second == 0 {
        assert(max_requests_per_second * millis == 0) by (nonlinear_arith)
            requires
                max_requests_per_second == 0,
        ;
        assert(req == 0);
        assert(req * limits.resources_per_bucket == 0) by (nonlinear_arith)
            requires
                req == 0,
        ;
    } else {
        assert(req * limits.resources_per_bucket == 0) by (nonlinear_arith)
            requires
                limits.resources_per_bucket == 0,
        ;
    }
    let config = spec_calculate_limits(
        limits,
        max_requests_per_second,
        batch_execution_time_limit,
        max_batch_size_bytes,
        max_gas,
    );
    assert(config.max_allowed_resources.inner.req_counter == 0);
}

/// The admission granted by [`SovRateLimiter::allow`], to be handed back to
/// [`SovRateLimiter::update`] with the resources the request used.
#[derive(Debug, Clone, Copy, PartialEq, Eq)]
pub struct LimiterToken {
    pub address: Address,
    pub throttler_for_addr: Throttler,
    pub ip_net: IpNetwork,
    pub throttler_for_ip: Throttler,
}

/// Why a request was refused.
#[derive(Debug, Clone, Copy, PartialEq, Eq)]
pub enum ResourceLimitExceededError {
    Address { address: Address, reason: LimitExceeded },
    Ip {
        ip: IpAddress,
        /// Bucket the IP resolved to: its own host network, or the configured
        /// subnet that contains it.
        ip_net: IpNetwork,
        reason: LimitExceeded,
    },
}

/// The first candidate network that has a configuration of its own.
pub open spec fn first_configured(
    candidates: Seq<IpNetwork>,
    special_configs: Seq<(LimiterKey, RateLimiterConfig)>,
) -> Option<IpNetwork>
    decreases candidates.len(),
{
    if candidates.len() == 0 {
        None
    } else if has_special_config(special_configs, LimiterKey::Network(candidates[0])) {
        Some(candidates[0])
    } else {
        first_configured(candidates.drop_first(), special_configs)
    }
}

/// The first configured candidate is one of the candidates.
proof fn lemma_first_configured_is_a_candidate(
    candidates: Seq<IpNetwork>,
    special_configs: Seq<(LimiterKey, RateLimiterConfig)>,
)
    ensures
        first_configured(candidates, special_configs) matches Some(n) ==> exists|i: int|
            0 <= i < candidates.len() && candidates[i] == n,
    decreases candidates.len(),
{
    if candidates.len() > 0 && !has_special_config(special_configs, LimiterKey::Network(candidates[0])) {
        lemma_first_configured_is_a_candidate(candidates.drop_first(), special_configs);
        if let Some(n) = first_configured(candidates, special_configs) {
            let i = choose|i: int| 0 <= i < candidates.drop_first().len() && candidates.drop_first()[i] == n;
            assert(candidates[i + 1] == n);
        }
    }
}

/// A request is always charged to an IP bucket that contains its address:
/// the configured subnet the address falls in, or its own host network.
pub proof fn lemma_ip_key_contains_ip(inner: SovRateLimiterInner, ip: IpAddress)
    requires
        forall|i: int|
            0 <= i < inner.ip_subnet_prefixes.spec_prefixes_for(ip).len() ==> #[trigger] inner.ip_subnet_prefixes.spec_prefixes_for(ip)[i]
                <= family_width(ip),
    ensures
        inner.spec_ip_key(ip).spec_contains(IpNetwork::spec_host(ip)),
{
    let candidates = inner.ip_subnet_prefixes.spec_candidate_supernets(ip);
    let special = inner.by_ip_net_rate_limiter.spec_special_configs();
    lemma_first_configured_is_a_candidate(candidates, special);
    match first_configured(candidates, special) {
        Some(n) => {
            let i = choose|i: int| 0 <= i < candidates.len() && candidates[i] == n;
            let p = inner.ip_subnet_prefixes.spec_prefixes_for(ip)[i];
            lemma_truncated_supernet_contains_host(ip, p);
        },
        None => {
            IpNetwork::lemma_mk_fields(ip, family_width(ip));
        },
    }
}

/// The first configured candidate is preceded by unconfigured candidates
/// only; without one, no candidate is configured.
proof fn lemma_first_configured_is_the_first(
    candidates: Seq<IpNetwork>,
    special_configs: Seq<(LimiterKey, RateLimiterConfig)>,
)
    ensures
        match first_configured(candidates, special_configs) {
            Some(n) => exists|i: int|
                0 <= i < candidates.len() && candidates[i] == n && has_special_config(
                    special_configs,
                    LimiterKey::Network(n),
                ) && forall|j: int|
                    0 <= j < i ==> !has_special_config(
                        special_configs,
                        LimiterKey::Network(#[trigger] candidates[j]),
                    ),
            None => forall|j: int|
                0 <= j < candidates.len() ==> !has_special_config(
                    special_configs,
                    LimiterKey::Network(#[trigger] candidates[j]),
                ),
        },
    decreases candidates.len(),
{
    if candidates.len() == 0 {
    } else if has_special_config(special_configs, LimiterKey::Network(candidates[0])) {
        assert(candidates[0] == candidates[0]);
    } else {
        let rest = candidates.drop_first();
        lemma_first_configured_is_the_first(rest, special_configs);
        match first_configured(rest, special_configs) {
            Some(n) => {
                let i = choose|i: int|
                    0 <= i < rest.len() && rest[i] == n && has_special_config(
                        special_configs,
                        LimiterKey::Network(n),
                    ) && forall|j: int|
                        0 <= j < i ==> !has_special_config(
                            special_configs,
                            LimiterKey::Network(#[trigger] rest[j]),
                        );
                assert forall|j: int| 0 <= j < i + 1 implies !has_special_config(
                    special_configs,
                    LimiterKey::Network(#[trigger] candidates[j]),
                ) by {
                    if j > 0 {
                        assert(candidates[j] == rest[j - 1]);
                    }
                }
                assert(candidates[i + 1] == n);
            },
            None => {
                assert forall|j: int| 0 <= j < candidates.len() implies !has_special_config(
                    special_configs,
                    LimiterKey::Network(#[trigger] candidates[j]),
                ) by {
                    if j > 0 {
                        assert(candidates[j] == rest[j - 1]);
                    }
                }
            },
        }
    }
}

/// The IP bucket of an address is the most specific configured subnet that
/// contains it, among the subnets whose prefix length some configured subnet
/// of its family has (those with their host bits cleared, as the bucket keys
/// are); without one, it is the address's own host network.
pub proof fn lemma_ip_bucket_is_most_specific_configured_subnet(inner: SovRateLimiterInner, ip: IpAddress)
    requires
        forall|i: int|
            0 <= i < inner.ip_subnet_prefixes.spec_prefixes_for(ip).len() ==> #[trigger] inner.ip_subnet_prefixes.spec_prefixes_for(ip)[i]
                <= family_width(ip),
        subnets::strictly_descending(inner.ip_subnet_prefixes.spec_prefixes_for(ip)),
    ensures
        ({
            let special = inner.by_ip_net_rate_limiter.spec_special_configs();
            let key = inner.spec_ip_key(ip);
            &&& key.spec_contains(IpNetwork::spec_host(ip))
            &&& has_special_config(special, LimiterKey::Network(key)) || key == IpNetwork::spec_host(ip)
            &&& forall|n: IpNetwork|
                n.wf() && n.spec_trunc() == n && #[trigger] has_special_config(special, LimiterKey::Network(n))
                    && n.spec_contains(IpNetwork::spec_host(ip))
                    && inner.ip_subnet_prefixes.spec_prefixes_for(ip).contains(n.spec_prefix_len())
                    ==> has_special_config(special, LimiterKey::Network(key))
                        && key.spec_prefix_len() >= n.spec_prefix_len()
        }),
{
    let prefixes = inner.ip_subnet_prefixes.spec_prefixes_for(ip);
    let candidates = inner.ip_subnet_prefixes.spec_candidate_supernets(ip);
    let special = inner.by_ip_net_rate_limiter.spec_special_configs();
    let key = inner.spec_ip_key(ip);
    lemma_ip_key_contains_ip(inner, ip);
    lemma_first_configured_is_the_first(candidates, special);
    assert forall|n: IpNetwork|
        n.wf() && n.spec_trunc() == n && #[trigger] has_special_config(special, LimiterKey::Network(n))
            && n.spec_contains(IpNetwork::spec_host(ip)) && prefixes.contains(n.spec_prefix_len())
        implies has_special_config(special, LimiterKey::Network(key)) && key.spec_prefix_len()
        >= n.spec_prefix_len() by {
        let k = choose|k: int| 0 <= k < prefixes.len() && prefixes[k] == n.spec_prefix_len();
        net::lemma_containing_network_is_truncated_supernet(n, ip);
        assert(candidates[k] == n);
        match first_configured(candidates, special) {
            Some(f) => {
                let i = choose|i: int|
                    0 <= i < candidates.len() && candidates[i] == f && has_special_config(
                        special,
                        LimiterKey::Network(f),
                    ) && forall|j: int|
                        0 <= j < i ==> !has_special_config(
                            special,
                            LimiterKey::Network(#[trigger] candidates[j]),
                        );
                if k < i {
                    assert(!has_special_config(special, LimiterKey::Network(candidates[k])));
                }
                IpNetwork::lemma_mk_fields(ip, prefixes[i]);
                let m = IpNetwork::spec_mk(ip, prefixes[i]);
                IpNetwork::lemma_mk_fields(m.spec_network(), prefixes[i]);
                assert(f.spec_prefix_len() == prefixes[i]);
            },
            None => {
                assert(!has_special_config(special, LimiterKey::Network(candidates[k])));
            },
        }
    }
}

/// The two rate limiters and the configured subnet prefix lengths.
pub struct SovRateLimiterInner {
    pub by_addr_rate_limiter: RateLimiter,
    pub by_ip_net_rate_limiter: RateLimiter,
    pub ip_subnet_prefixes: SubnetPrefixes,
}

impl SovRateLimiterInner {
    /// The bucket of `ip`: the first of its candidate supernets (longest
    /// prefix first) that has a configuration of its own, else its host network.
    pub open spec fn spec_ip_key(&self, ip: IpAddress) -> IpNetwork {
        match first_configured(
            self.ip_subnet_prefixes.spec_candidate_supernets(ip),
            self.by_ip_net_rate_limiter.spec_special_configs(),
        ) {
            Some(net) => net,
            None => IpNetwork::spec_host(ip),
        }
    }

    pub fn new(
        max_nb_of_concurrent_users_in_rate_limiter: u64,
        ttl: Duration,
        config: RateLimiterConfig,
        addrs: Vec<(LimiterKey, RateLimiterConfig)>,
        ip_networks: Vec<(LimiterKey, RateLimiterConfig)>,
        configured_networks: &Vec<IpNetwork>,
    ) -> (r: SovRateLimiterInner)
        requires
            ttl.total_nanos() <= MAX_CACHE_TTL_NANOS,
        ensures
            r.by_addr_rate_limiter.spec_name() == "limiter_by_addr",
            r.by_ip_net_rate_limiter.spec_name() == "limiter_by_ip_net",
            r.by_addr_rate_limiter.spec_max_users() == max_nb_of_concurrent_users_in_rate_limiter,
            r.by_ip_net_rate_limiter.spec_max_users() == max_nb_of_concurrent_users_in_rate_limiter,
            r.by_addr_rate_limiter.spec_default_config() == config,
            r.by_ip_net_rate_limiter.spec_default_config() == config,
            r.by_addr_rate_limiter.spec_special_configs() == addrs@,
            r.by_ip_net_rate_limiter.spec_special_configs() == ip_networks@,
            r.by_addr_rate_limiter.spec_stored() == Map::<LimiterKey, Throttler>::empty(),
            r.by_ip_net_rate_limiter.spec_stored() == Map::<LimiterKey, Throttler>::empty(),
            r.ip_subnet_prefixes.spec_v4().to_set() == subnets::family_prefixes(configured_networks@, false),
            r.ip_subnet_prefixes.spec_v6().to_set() == subnets::family_prefixes(configured_networks@, true),
            subnets::strictly_descending(r.ip_subnet_prefixes.spec_v4()),
            subnets::strictly_descending(r.ip_subnet_prefixes.spec_v6()),
            forall|ip: IpAddress, i: int|
                0 <= i < r.ip_subnet_prefixes.spec_prefixes_for(ip).len() ==> #[trigger] r.ip_subnet_prefixes.spec_prefixes_for(ip)[i]
                    <= family_width(ip),
    {
        let ip_subnet_prefixes = SubnetPrefixes::from_networks(configured_networks);
        SovRateLimiterInner {
            by_addr_rate_limiter: RateLimiter::new(
                "limiter_by_addr",
                max_nb_of_concurrent_users_in_rate_limiter,
                ttl,
                config,
                addrs,
            ),
            by_ip_net_rate_limiter: RateLimiter::new(
                "limiter_by_ip_net",
                max_nb_of_concurrent_users_in_rate_limiter,
                ttl,
                config,
                ip_networks,
            ),
            ip_subnet_prefixes,
        }
    }

    /// The outcome of `allow` while neither limiter has stored a throttler:
    /// the address's fresh throttler is checked first, then the fresh
    /// throttler of the IP's bucket, each under its own configuration.
    pub open spec fn spec_fresh_allow(&self, now_nanos: u64, ip: IpAddress, address: Address) -> Result<
        LimiterToken,
        ResourceLimitExceededError,
    > {
        let by_addr = self.by_addr_rate_limiter;
        let by_ip = self.by_ip_net_rate_limiter;
        match spec_allow_with_cached(
            None,
            0,
            by_addr.spec_max_users(),
            by_addr.spec_config_for(LimiterKey::Address(address)),
            now_nanos,
        ) {
            Err(reason) => Err(ResourceLimitExceededError::Address { address, reason }),
            Ok(throttler_for_addr) => {
                let ip_net = self.spec_ip_key(ip);
                match spec_allow_with_cached(
                    None,
                    0,
                    by_ip.spec_max_users(),
                    by_ip.spec_config_for(LimiterKey::Network(ip_net)),
                    now_nanos,
                ) {
                    Err(reason) => Err(ResourceLimitExceededError::Ip { ip, ip_net, reason }),
                    Ok(throttler_for_ip) => Ok(
                        LimiterToken { address, throttler_for_addr, ip_net, throttler_for_ip },
                    ),
                }
            },
        }
    }

    /// Neither limiter has stored a throttler yet.
    pub open spec fn spec_nothing_stored(&self) -> bool {
        &&& self.by_addr_rate_limiter.spec_stored().dom().is_empty()
        &&& self.by_ip_net_rate_limiter.spec_stored().dom().is_empty()
    }

    /// Resolves `ip` to its bucket key.
    pub fn ip_key(&self, ip: IpAddress) -> (r: IpNetwork)
        ensures
            r == self.spec_ip_key(ip),
    {
        let candidates = self.ip_subnet_prefixes.candidate_supernets(ip);
        let ghost special = self.by_ip_net_rate_limiter.spec_special_configs();
        assert(candidates@.subrange(0, candidates@.len() as int) =~= candidates@);
        let mut i: usize = 0;
        while i < candidates.len()
            invariant
                i <= candidates@.len(),
                candidates@ == self.ip_subnet_prefixes.spec_candidate_supernets(ip),
                special == self.by_ip_net_rate_limiter.spec_special_configs(),
                first_configured(candidates@, special) == first_configured(
                    candidates@.subrange(i as int, candidates@.len() as int),
                    special,
                ),
            decreases candidates@.len() - i,
        {
            let ghost rest = candidates@.subrange(i as int, candidates@.len() as int);
            assert(rest.drop_first() =~= candidates@.subrange(i + 1, candidates@.len() as int));
            assert(rest[0] == candidates@[i as int]);
            let net = candidates[i];
            if self.by_ip_net_rate_limiter.contains_special_config(&LimiterKey::Network(net)) {
                return net;
            }
            i = i + 1;
        }
        IpNetwork::from_addr(ip)
    }

    /// Checks the address bucket, then the IP bucket; either may refuse.
    pub fn allow(&self, now_nanos: u64, ip: IpAddress, address: Address) -> (r: Result<
        LimiterToken,
        ResourceLimitExceededError,
    >)
        ensures
            r matches Err(ResourceLimitExceededError::Address { address: a, reason }) ==> a
                == address && self.by_addr_rate_limiter.spec_allow_outcome(
                now_nanos,
                LimiterKey::Address(address),
                Err(reason),
            ),
            r matches Err(ResourceLimitExceededError::Ip { ip: i, ip_net, reason }) ==> i == ip
                && ip_net == self.spec_ip_key(ip) && (exists|t: Throttler|
                self.by_addr_rate_limiter.spec_allow_outcome(
                    now_nanos,
                    LimiterKey::Address(address),
                    Ok(t),
                )) && self.by_ip_net_rate_limiter.spec_allow_outcome(
                now_nanos,
                LimiterKey::Network(ip_net),
                Err(reason),
            ),
            r matches Ok(token) ==> token.address == address && token.ip_net == self.spec_ip_key(ip)
                && self.by_addr_rate_limiter.spec_allow_outcome(
                now_nanos,
                LimiterKey::Address(address),
                Ok(token.throttler_for_addr),
            ) && self.by_ip_net_rate_limiter.spec_allow_outcome(
                now_nanos,
                LimiterKey::Network(token.ip_net),
                Ok(token.throttler_for_ip),
            ),
            self.spec_nothing_stored() ==> r == self.spec_fresh_allow(now_nanos, ip, address),
    {
        let throttler_for_addr = match self.by_addr_rate_limiter.allow(
            now_nanos,
            &LimiterKey::Address(address),
        ) {
            Ok(t) => t,
            Err(reason) => {
                return Err(ResourceLimitExceededError::Address { address, reason });
            },
        };
        let ip_key = self.ip_key(ip);
        let throttler_for_ip = match self.by_ip_net_rate_limiter.allow(
            now_nanos,
            &LimiterKey::Network(ip_key),
        ) {
            Ok(t) => t,
            Err(reason) => {
                assert(self.by_addr_rate_limiter.spec_allow_outcome(
                    now_nanos,
                    LimiterKey::Address(address),
                    Ok(throttler_for_addr),
                ));
                return Err(ResourceLimitExceededError::Ip { ip, ip_net: ip_key, reason });
            },
        };
        Ok(LimiterToken { address, throttler_for_addr, ip_net: ip_key, throttler_for_ip })
    }

    /// Charges the resources a request used to both of its buckets.
    pub fn update(&mut self, token: LimiterToken, resource_used: ResourceUsed)
        ensures
            final(self).by_addr_rate_limiter.spec_stored() == old(
                self,
            ).by_addr_rate_limiter.spec_stored().insert(
                LimiterKey::Address(token.address),
                token.throttler_for_addr.spec_throttle(resource_used),
            ),
            final(self).by_ip_net_rate_limiter.spec_stored() == old(
                self,
            ).by_ip_net_rate_limiter.spec_stored().insert(
                LimiterKey::Network(token.ip_net),
                token.throttler_for_ip.spec_throttle(resource_used),
            ),
            final(self).by_addr_rate_limiter.spec_special_configs() == old(self).by_addr_rate_limiter.spec_special_configs(),
            final(self).by_ip_net_rate_limiter.spec_special_configs() == old(self).by_ip_net_rate_limiter.spec_special_configs(),
            final(self).by_addr_rate_limiter.spec_default_config() == old(self).by_addr_rate_limiter.spec_default_config(),
            final(self).by_ip_net_rate_limiter.spec_default_config() == old(self).by_ip_net_rate_limiter.spec_default_config(),
            final(self).by_addr_rate_limiter.spec_max_users() == old(self).by_addr_rate_limiter.spec_max_users(),
            final(self).by_ip_net_rate_limiter.spec_max_users() == old(self).by_ip_net_rate_limiter.spec_max_users(),
            final(self).ip_subnet_prefixes == old(self).ip_subnet_prefixes,
    {
        self.by_addr_rate_limiter.update(
            LimiterKey::Address(token.address),
            token.throttler_for_addr,
            resource_used,
        );
        self.by_ip_net_rate_limiter.update(
            LimiterKey::Network(token.ip_net),
            token.throttler_for_ip,
            resource_used,
        );
    }
}

/// The configuration of each key: `calculate_limits` applied to its limits.
pub open spec fn spec_config_entries<K>(
    entries: Seq<(K, Limits)>,
    to_key: spec_fn(K) -> LimiterKey,
    max_requests_per_second: u64,
    batch_execution_time_limit: Duration,
    max_batch_size_bytes: u64,
    max_gas: GasUnit,
) -> Seq<(LimiterKey, RateLimiterConfig)> {
    entries.map_values(
        |e: (K, Limits)|
            (
                to_key(e.0),
                spec_calculate_limits(
                    e.1,
                    max_requests_per_second,
                    batch_execution_time_limit,
                    max_batch_size_bytes,
                    max_gas,
                ),
            ),
    )
}

/// Configurations of the custom-limited addresses.
pub fn address_limiter_configs(
    max_requests_per_second: u64,
    batch_execution_time_limit: Duration,
    max_batch_size_bytes: usize,
    max_gas: GasUnit,
    v: &Vec<(Address, Limits)>,
) -> (r: Vec<(LimiterKey, RateLimiterConfig)>)
    requires
        limits_computable(max_requests_per_second, batch_execution_time_limit),
    ensures
        r@ == spec_config_entries(
            v@,
            |a: Address| LimiterKey::Address(a),
            max_requests_per_second,
            batch_execution_time_limit,
            max_batch_size_bytes as u64,
            max_gas,
        ),
{
    let mut out: Vec<(LimiterKey, RateLimiterConfig)> = Vec::new();
    let mut i: usize = 0;
    while i < v.len()
        invariant
            i <= v@.len(),
            limits_computable(max_requests_per_second, batch_execution_time_limit),
            out@ == spec_config_entries(
                v@.subrange(0, i as int),
                |a: Address| LimiterKey::Address(a),
                max_requests_per_second,
                batch_execution_time_limit,
                max_batch_size_bytes as u64,
                max_gas,
            ),
        decreases v@.len() - i,
    {
        let (address, limits) = v[i];
        let config = calculate_limits(
            limits,
            max_requests_per_second,
            batch_execution_time_limit,
            max_batch_size_bytes,
            max_gas,
        );
        out.push((LimiterKey::Address(address), config));
        proof {
            assert(v@.subrange(0, i + 1) =~= v@.subrange(0, i as int).push(v@[i as int]));
        }
        i = i + 1;
    }
    proof {
        assert(v@.subrange(0, v@.len() as int) =~= v@);
    }
    out
}

/// Configurations of the custom-limited networks, keyed by their canonical form.
pub fn network_limiter_configs(
    max_requests_per_second: u64,
    batch_execution_time_limit: Duration,
    max_batch_size_bytes: usize,
    max_gas: GasUnit,
    v: &Vec<(IpNetwork, Limits)>,
) -> (r: Vec<(LimiterKey, RateLimiterConfig)>)
    requires
        limits_computable(max_requests_per_second, batch_execution_time_limit),
    ensures
        r@ == spec_config_entries(
            v@,
            |n: IpNetwork| LimiterKey::Network(spec_canonicalize_ip_net(n)),
            max_requests_per_second,
            batch_execution_time_limit,
            max_batch_size_bytes as u64,
            max_gas,
        ),
{
    let mut out: Vec<(LimiterKey, RateLimiterConfig)> = Vec::new();
    let mut i: usize = 0;
    while i < v.len()
        invariant
            i <= v@.len(),
            limits_computable(max_requests_per_second, batch_execution_time_limit),
            out@ == spec_config_entries(
                v@.subrange(0, i as int),
                |n: IpNetwork| LimiterKey::Network(spec_canonicalize_ip_net(n)),
                max_requests_per_second,
                batch_execution_time_limit,
                max_batch_size_bytes as u64,
                max_gas,
            ),
        decreases v@.len() - i,
    {
        let (net, limits) = v[i];
        let config = calculate_limits(
            limits,
            max_requests_per_second,
            batch_execution_time_limit,
            max_batch_size_bytes,
            max_gas,
        );
        out.push((LimiterKey::Network(canonicalize_ip_net(net)), config));
        proof {
            assert(v@.subrange(0, i + 1) =~= v@.subrange(0, i as int).push(v@[i as int]));
        }
        i = i + 1;
    }
    proof {
        assert(v@.subrange(0, v@.len() as int) =~= v@);
    }
    out
}

/// The canonical form of every configured network, in configuration order.
pub fn canonical_networks(v: &Vec<(IpNetwork, Limits)>) -> (r: Vec<IpNetwork>)
    ensures
        r@ == v@.map_values(|e: (IpNetwork, Limits)| spec_canonicalize_ip_net(e.0)),
{
    let mut out: Vec<IpNetwork> = Vec::new();
    let mut i: usize = 0;
    while i < v.len()
        invariant
            i <= v@.len(),
            out@ == v@.subrange(0, i as int).map_values(
                |e: (IpNetwork, Limits)| spec_canonicalize_ip_net(e.0),
            ),
        decreases v@.len() - i,
    {
        out.push(canonicalize_ip_net(v[i].0));
        proof {
            assert(v@.subrange(0, i + 1) =~= v@.subrange(0, i as int).push(v@[i as int]));
        }
        i = i + 1;
    }
    proof {
        assert(v@.subrange(0, v@.len() as int) =~= v@);
    }
    out
}

/// A configuration the rate limiter refuses to start with.
#[derive(Debug, Clone, Copy, PartialEq, Eq)]
pub enum RateLimiterSetupError {
    /// The batch execution time limit is shorter than a millisecond.
    ZeroBatchExecutionTime,
    /// The maximal batch size is zero.
    ZeroMaxBatchSize,
    /// Five batch execution time limits do not fit in a duration.
    TtlOverflow,
    /// Five batch execution time limits are longer than the 1000 years a
    /// cache entry may live.
    TtlTooLong,
    /// Two configured subnets overlap.
    OverlappingSubnets(OverlappingSubnets),
    /// The batch execution time limit in microseconds does not fit in `u64`.
    BatchExecutionTimeTooLong,
    /// The number of requests per batch does not fit in `u64`.
    RequestBudgetOverflow,
}

/// The rate limiter of the sequencer; without a configuration it admits everything.
pub struct SovRateLimiter {
    pub inner: Option<SovRateLimiterInner>,
}

/// Whether `inner` is the rate limiter set up from `config`.
pub open spec fn built_from(
    inner: SovRateLimiterInner,
    config: SovRateLimiterConfig,
    batch_execution_time_limit: Duration,
    max_batch_size_bytes: u64,
) -> bool {
    let rps = config.max_requests_per_second;
    let gas = config.comfortable_gas_limit;
    let default_config = spec_calculate_limits(
        config.default_limits,
        rps,
        batch_execution_time_limit,
        max_batch_size_bytes,
        gas,
    );
    let networks = config.ip_custom_limits@.map_values(
        |e: (IpNetwork, Limits)| spec_canonicalize_ip_net(e.0),
    );
    &&& inner.by_addr_rate_limiter.spec_max_users() == config.max_nb_of_concurrent_users_in_rate_limiter
    &&& inner.by_ip_net_rate_limiter.spec_max_users() == config.max_nb_of_concurrent_users_in_rate_limiter
    &&& inner.by_addr_rate_limiter.spec_default_config() == default_config
    &&& inner.by_ip_net_rate_limiter.spec_default_config() == default_config
    &&& inner.by_addr_rate_limiter.spec_special_configs() == spec_config_entries(
        config.address_custom_limits@,
        |a: Address| LimiterKey::Address(a),
        rps,
        batch_execution_time_limit,
        max_batch_size_bytes,
        gas,
    )
    &&& inner.by_ip_net_rate_limiter.spec_special_configs() == spec_config_entries(
        config.ip_custom_limits@,
        |n: IpNetwork| LimiterKey::Network(spec_canonicalize_ip_net(n)),
        rps,
        batch_execution_time_limit,
        max_batch_size_bytes,
        gas,
    )
    &&& inner.by_addr_rate_limiter.spec_stored() == Map::<LimiterKey, Throttler>::empty()
    &&& inner.by_ip_net_rate_limiter.spec_stored() == Map::<LimiterKey, Throttler>::empty()
    &&& inner.ip_subnet_prefixes.spec_v4().to_set() == subnets::family_prefixes(networks, false)
    &&& inner.ip_subnet_prefixes.spec_v6().to_set() == subnets::family_prefixes(networks, true)
}

/// Whether the rate limiter can be set up from `config`: a batch execution
/// time limit of at least one millisecond, a nonzero maximal batch size and,
/// with a configuration, a time-to-live (five batch execution time limits)
/// that fits in a duration and in the 1000 years a cache entry may live,
/// configured subnets of which none contains another (compared in canonical
/// form), and limits that fit in `u64`.
pub open spec fn spec_setup_accepted(
    config: Option<SovRateLimiterConfig>,
    batch_execution_time_limit: Duration,
    max_batch_size_bytes: usize,
) -> bool {
    &&& span_millis(batch_execution_time_limit) > 0
    &&& max_batch_size_bytes > 0
    &&& match config {
        None => true,
        Some(c) => {
            let networks = c.ip_custom_limits@.map_values(
                |e: (IpNetwork, Limits)| spec_canonicalize_ip_net(e.0),
            );
            &&& batch_execution_time_limit.total_nanos() * TTL_MULTIPLIER <= crate::time::max_span_nanos()
            &&& batch_execution_time_limit.total_nanos() * TTL_MULTIPLIER <= MAX_CACHE_TTL_NANOS
            &&& no_overlap(networks)
            &&& span_micros(batch_execution_time_limit) <= u64::MAX
            &&& c.max_requests_per_second * span_millis(batch_execution_time_limit) <= u64::MAX
        },
    }
}

impl SovRateLimiter {
    /// What keeps the rate limiter from being set up from `config`, checked
    /// in this order: a batch execution time limit under one millisecond, a
    /// zero maximal batch size and, with a configuration, a time-to-live that
    /// overflows or exceeds 1000 years, overlapping or duplicate configured
    /// subnets (compared in canonical form), and limits that overflow `u64`.
    /// `None` when `new` accepts the arguments. Each of these is an operator
    /// mistake on which the sequencer must not start.
    pub fn setup_error(
        config: &Option<SovRateLimiterConfig>,
        batch_execution_time_limit: Duration,
        max_batch_size_bytes: usize,
    ) -> (r: Option<RateLimiterSetupError>)
        ensures
            r is None <==> spec_setup_accepted(*config, batch_execution_time_limit, max_batch_size_bytes),
            span_millis(batch_execution_time_limit) == 0 ==> r == Some(
                RateLimiterSetupError::ZeroBatchExecutionTime,
            ),
            span_millis(batch_execution_time_limit) > 0 && max_batch_size_bytes == 0 ==> r == Some(
                RateLimiterSetupError::ZeroMaxBatchSize,
            ),
            span_millis(batch_execution_time_limit) > 0 && max_batch_size_bytes > 0 ==> match *config {
                None => r is None,
                Some(c) => {
                    let networks = c.ip_custom_limits@.map_values(
                        |e: (IpNetwork, Limits)| spec_canonicalize_ip_net(e.0),
                    );
                    if batch_execution_time_limit.total_nanos() * TTL_MULTIPLIER > crate::time::max_span_nanos() {
                        r == Some(RateLimiterSetupError::TtlOverflow)
                    } else if batch_execution_time_limit.total_nanos() * TTL_MULTIPLIER > MAX_CACHE_TTL_NANOS {
                        r == Some(RateLimiterSetupError::TtlTooLong)
                    } else if !no_overlap(networks) {
                        r matches Some(RateLimiterSetupError::OverlappingSubnets(_))
                    } else if span_micros(batch_execution_time_limit) > u64::MAX {
                        r == Some(RateLimiterSetupError::BatchExecutionTimeTooLong)
                    } else if c.max_requests_per_second * span_millis(batch_execution_time_limit) > u64::MAX {
                        r == Some(RateLimiterSetupError::RequestBudgetOverflow)
                    } else {
                        r is None
                    }
                },
            },
    {
        if batch_execution_time_limit.as_millis() == 0 {
            return Some(RateLimiterSetupError::ZeroBatchExecutionTime);
        }
        if max_batch_size_bytes == 0 {
            return Some(RateLimiterSetupError::ZeroMaxBatchSize);
        }
        let sov_config = match config {
            None => {
                return None;
            },
            Some(c) => c,
        };
        let ttl = match batch_execution_time_limit.checked_mul(TTL_MULTIPLIER) {
            Some(ttl) => ttl,
            None => {
                return Some(RateLimiterSetupError::TtlOverflow);
            },
        };
        if ttl.as_nanos() > MAX_CACHE_TTL_NANOS {
            return Some(RateLimiterSetupError::TtlTooLong);
        }
        let configured_networks = canonical_networks(&sov_config.ip_custom_limits);
        match assert_no_overlapping_subnets(&configured_networks) {
            Ok(()) => {},
            Err(e) => {
                return Some(RateLimiterSetupError::OverlappingSubnets(e));
            },
        }
        if batch_execution_time_limit.as_micros() > u64::MAX as u128 {
            return Some(RateLimiterSetupError::BatchExecutionTimeTooLong);
        }
        let millis = batch_execution_time_limit.as_millis() as u64;
        if sov_config.max_requests_per_second.checked_mul(millis).is_none() {
            return Some(RateLimiterSetupError::RequestBudgetOverflow);
        }
        None
    }

    /// Builds the rate limiter from `config`; `None` disables rate limiting.
    /// The arguments must be accepted (see `setup_error`): the sequencer
    /// does not start on a configuration it refuses.
    pub fn new(
        config: Option<SovRateLimiterConfig>,
        batch_execution_time_limit: Duration,
        max_batch_size_bytes: usize,
    ) -> (r: SovRateLimiter)
        requires
            spec_setup_accepted(config, batch_execution_time_limit, max_batch_size_bytes),
        ensures
            match config {
                None => r.inner is None,
                Some(c) => r.inner matches Some(inner) && built_from(
                    inner,
                    c,
                    batch_execution_time_limit,
                    max_batch_size_bytes as u64,
                ),
            },
    {
        let sov_config = match config {
            None => {
                return SovRateLimiter { inner: None };
            },
            Some(c) => c,
        };
        let ttl = match batch_execution_time_limit.checked_mul(TTL_MULTIPLIER) {
            Some(ttl) => ttl,
            None => {
                proof {
                    assert(false);
                }
                return SovRateLimiter { inner: None };
            },
        };
        let configured_networks = canonical_networks(&sov_config.ip_custom_limits);
        let rps = sov_config.max_requests_per_second;
        let gas = sov_config.comfortable_gas_limit;
        let default_config = calculate_limits(
            sov_config.default_limits,
            rps,
            batch_execution_time_limit,
            max_batch_size_bytes,
            gas,
        );
        let addrs = address_limiter_configs(
            rps,
            batch_execution_time_limit,
            max_batch_size_bytes,
            gas,
            &sov_config.address_custom_limits,
        );
        let ips = network_limiter_configs(
            rps,
            batch_execution_time_limit,
            max_batch_size_bytes,
            gas,
            &sov_config.ip_custom_limits,
        );
        let inner = SovRateLimiterInner::new(
            sov_config.max_nb_of_concurrent_users_in_rate_limiter,
            ttl,
            default_config,
            addrs,
            ips,
            &configured_networks,
        );
        SovRateLimiter { inner: Some(inner) }
    }

    /// Admits or refuses a request from `address` at `ip` at the clock
    /// reading `now_nanos`. An IPv4-mapped IPv6 address is treated as the
    /// IPv4 address it carries. Without a rate limiter every request is
    /// admitted, with no token.
    pub fn allow(&self, now_nanos: u64, ip: IpAddress, address: Address) -> (r: Result<
        Option<LimiterToken>,
        ResourceLimitExceededError,
    >)
        ensures
            self.inner is None ==> r == Ok::<_, ResourceLimitExceededError>(None::<LimiterToken>),
            self.inner matches Some(inner) ==> {
                let ip = ip.spec_to_canonical();
                &&& r matches Ok(t) ==> t is Some
                &&& (r matches Err(ResourceLimitExceededError::Address { address: a, reason }) ==> a
                    == address && inner.by_addr_rate_limiter.spec_allow_outcome(
                    now_nanos,
                    LimiterKey::Address(address),
                    Err(reason),
                ))
                &&& (r matches Err(ResourceLimitExceededError::Ip { ip: i, ip_net, reason }) ==> i
                    == ip && ip_net == inner.spec_ip_key(ip) && (exists|t: Throttler|
                    inner.by_addr_rate_limiter.spec_allow_outcome(
                        now_nanos,
                        LimiterKey::Address(address),
                        Ok(t),
                    )) && inner.by_ip_net_rate_limiter.spec_allow_outcome(
                    now_nanos,
                    LimiterKey::Network(ip_net),
                    Err(reason),
                ))
                &&& (r matches Ok(Some(token)) ==> token.address == address && token.ip_net
                    == inner.spec_ip_key(ip) && inner.by_addr_rate_limiter.spec_allow_outcome(
                    now_nanos,
                    LimiterKey::Address(address),
                    Ok(token.throttler_for_addr),
                ) && inner.by_ip_net_rate_limiter.spec_allow_outcome(
                    now_nanos,
                    LimiterKey::Network(token.ip_net),
                    Ok(token.throttler_for_ip),
                ))
            },
            self.inner matches Some(inner) ==> (inner.spec_nothing_stored() ==> r == match inner.spec_fresh_allow(
                now_nanos,
                ip.spec_to_canonical(),
                address,
            ) {
                Ok(token) => Ok::<_, ResourceLimitExceededError>(Some(token)),
                Err(e) => Err(e),
            }),
    {
        let ip = ip.to_canonical();
        match &self.inner {
            None => Ok(None),
            Some(inner) => match inner.allow(now_nanos, ip, address) {
                Ok(token) => Ok(Some(token)),
                Err(e) => Err(e),
            },
        }
    }

    /// Charges the resources a request used to the buckets of its token.
    pub fn update(&mut self, token: Option<LimiterToken>, resource_used: ResourceUsed)
        requires
            token is Some ==> old(self).inner is Some,
        ensures
            token is None ==> *final(self) == *old(self),
            token matches Some(t) ==> final(self).inner matches Some(new_inner) && old(self).inner matches Some(old_inner)
                && new_inner.by_addr_rate_limiter.spec_stored() == old_inner.by_addr_rate_limiter.spec_stored().insert(
                    LimiterKey::Address(t.address),
                    t.throttler_for_addr.spec_throttle(resource_used),
                ) && new_inner.by_ip_net_rate_limiter.spec_stored() == old_inner.by_ip_net_rate_limiter.spec_stored().insert(
                    LimiterKey::Network(t.ip_net),
                    t.throttler_for_ip.spec_throttle(resource_used),
                ),
    {
        match token {
            None => {},
            Some(token) => match &mut self.inner {
                Some(inner) => inner.update(token, resource_used),
                None => {},
            },
        }
    }
}

} // verus!
