use sov_sequencer::address::Address;
use sov_sequencer::rate_limiter::limiter::{
    Throttler, LimiterKey, RateLimiter, RateLimiterConfig, RefillRatePerMillis, ResourceUsed, TotalResources,
};
use sov_sequencer::rate_limiter::net::{canonicalize_ip_net, IpAddress, IpNetwork};
use sov_sequencer::rate_limiter::resource::{GasUnit, LimitExceeded, Resource};
use sov_sequencer::rate_limiter::subnets::SubnetPrefixes;
use sov_sequencer::rate_limiter::{
    calculate_limits, subnet_suffix, Limits, RateLimiterSetupError, ResourceLimitExceededError,
    SovRateLimiter, SovRateLimiterConfig, SovRateLimiterInner,
};
use sov_sequencer::time::Duration;

const MAX_REQ_COUNT: u64 = 10_000;
const MAX_SPACE_IN_BYTES: u64 = 100_0000;
const MAX_EXECUTION_TIME_MICROS: u64 = 1_000_000;
const TTL_IN_MILLIS: u64 = 1_000_000;

/// A fixed clock reading to start from.
const T0: u64 = 1_000_000_000_000;

fn ms(n: u64) -> u64 {
    n * 1_000_000
}

fn gas(a: u64, b: u64) -> GasUnit {
    GasUnit::from_dims(a, b)
}

fn addr(byte: u8) -> Address {
    Address::from_bytes([byte; 28])
}

fn to_network(n: ipnet::IpNet) -> IpNetwork {
    match n {
        ipnet::IpNet::V4(v) => IpNetwork::new(IpAddress::V4(u32::from(v.addr())), v.prefix_len()).unwrap(),
        ipnet::IpNet::V6(v) => IpNetwork::new(IpAddress::V6(u128::from(v.addr())), v.prefix_len()).unwrap(),
    }
}

fn net(s: &str) -> IpNetwork {
    to_network(s.parse::<ipnet::IpNet>().unwrap())
}

fn ip(s: &str) -> IpAddress {
    let host = if s.contains(':') { format!("{s}/128") } else { format!("{s}/32") };
    net(&host).addr()
}

struct Simulator {
    rate_limiter: RateLimiter,
    resource_used_per_run: ResourceUsed,
}

impl Simulator {
    fn new(
        ttl_in_millis: u64,
        config: RateLimiterConfig,
        resource_used_per_run: ResourceUsed,
        special_configs: Vec<(LimiterKey, RateLimiterConfig)>,
    ) -> Self {
        let rate_limiter = RateLimiter::new(
            "test_limiter",
            1000,
            Duration::from_millis(ttl_in_millis),
            config,
            special_configs,
        );
        Self {
            rate_limiter,
            resource_used_per_run,
        }
    }

    fn run_and_assert_limits(
        &mut self,
        now: u64,
        addr: &Address,
        resource_used_so_far: ResourceUsed,
    ) -> Result<(), LimitExceeded> {
        let key = LimiterKey::Address(*addr);
        let throttler = self.rate_limiter.allow(now, &key)?;

        let throttler = self
            .rate_limiter
            .update(key, throttler, self.resource_used_per_run);

        assert_eq!(throttler.total_resource_used.inner, resource_used_so_far.inner);

        Ok(())
    }

    fn resource_tokens_to_refill(&self, time_passed_ms: u64, addr: Address) -> Resource {
        self.rate_limiter
            .get_config(&LimiterKey::Address(addr))
            .refill_rate
            .token_resource_per_ms
            .saturating_mul_by_scalar(time_passed_ms)
    }
}

fn mul(r: &ResourceUsed, n: u64) -> ResourceUsed {
    ResourceUsed {
        inner: r.inner.saturating_mul_by_scalar(n),
    }
}

fn refill(r: &ResourceUsed, resource: &Resource) -> ResourceUsed {
    ResourceUsed {
        inner: r.inner.saturating_sub(resource),
    }
}

fn max_allowed_resources() -> TotalResources {
    TotalResources {
        inner: Resource {
            req_counter: MAX_REQ_COUNT,
            space_in_bytes: MAX_SPACE_IN_BYTES,
            execution_time_micros: MAX_EXECUTION_TIME_MICROS,
            gas_used: gas(0, 0),
        },
    }
}

fn small_resource_used_per_run() -> ResourceUsed {
    ResourceUsed {
        inner: Resource {
            req_counter: MAX_REQ_COUNT / 100,
            space_in_bytes: MAX_SPACE_IN_BYTES / 200,
            execution_time_micros: MAX_EXECUTION_TIME_MICROS / 300,
            gas_used: gas(0, 0),
        },
    }
}

fn big_resource_used_per_run() -> ResourceUsed {
    ResourceUsed {
        inner: Resource {
            req_counter: MAX_REQ_COUNT / 2 + 10,
            space_in_bytes: MAX_SPACE_IN_BYTES / 3,
            execution_time_micros: MAX_EXECUTION_TIME_MICROS / 4,
            gas_used: gas(0, 0),
        },
    }
}

fn refill_rate() -> RefillRatePerMillis {
    RefillRatePerMillis {
        token_resource_per_ms: Resource {
            req_counter: 2,
            space_in_bytes: 30,
            execution_time_micros: 400,
            gas_used: gas(0, 0),
        },
    }
}

#[test]
fn test_rate_limiter_happy_path() {
    let resource_used_per_run = small_resource_used_per_run();
    let config = RateLimiterConfig {
        max_allowed_resources: max_allowed_resources(),
        refill_rate: refill_rate(),
    };

    let mut rollup_simulator = Simulator::new(TTL_IN_MILLIS, config, resource_used_per_run, Vec::new());

    let addr1 = addr(1);
    let now = T0;

    // After a single run, the rate limiter charged resource_used_per_run.
    {
        let expected = rollup_simulator.resource_used_per_run;
        rollup_simulator.run_and_assert_limits(now, &addr1, expected).unwrap();
    }

    // After two runs, the rate limiter charged 2*resource_used_per_run.
    {
        let expected = mul(&rollup_simulator.resource_used_per_run, 2);
        rollup_simulator.run_and_assert_limits(now, &addr1, expected).unwrap();
    }

    // After three runs and some time passed, the rate limiter charged 3 * resource_used_per_run - refill_rate * time.
    {
        let time_passed_ms = 15;
        let now = now + ms(time_passed_ms);
        let expected = refill(
            &mul(&rollup_simulator.resource_used_per_run, 3),
            &rollup_simulator.resource_tokens_to_refill(time_passed_ms, addr1),
        );
        rollup_simulator.run_and_assert_limits(now, &addr1, expected).unwrap();
    }

    // New address has fresh rate limiter throttler.
    let addr_2 = addr(2);
    {
        let expected = rollup_simulator.resource_used_per_run;
        rollup_simulator.run_and_assert_limits(T0, &addr_2, expected).unwrap();
    }
}

#[test]
fn test_rate_limiter_resources_exhausted() {
    let resource_used_per_run = big_resource_used_per_run();
    let config = RateLimiterConfig {
        max_allowed_resources: max_allowed_resources(),
        refill_rate: refill_rate(),
    };

    let mut rollup_simulator = Simulator::new(TTL_IN_MILLIS, config, resource_used_per_run, Vec::new());

    let addr1 = addr(1);
    let now = T0;

    let mut run_number = 1;

    // Make multiple runs until the rate limiting is triggered.
    let err = loop {
        let expected = mul(&rollup_simulator.resource_used_per_run, run_number);
        let res = rollup_simulator.run_and_assert_limits(now, &addr1, expected);
        if let Err(err) = res {
            break err;
        }
        run_number += 1;
        // The test is configured to trigger the rate limiting in less than 10 runs.
        assert!(run_number < 10, "Unable to exhaust the rate limiter");
    };

    // Rate limiting has been triggered.
    assert!(matches!(err, LimitExceeded::RequestCount { .. }));

    // Simulate a time pass of 3 ms. This will drain the total resources used in the rate limiter, but not enough to allow a new request.
    {
        let time_passed_ms = 3;
        let now = now + ms(time_passed_ms);
        let expected = refill(
            &mul(&rollup_simulator.resource_used_per_run, run_number),
            &rollup_simulator.resource_tokens_to_refill(time_passed_ms, addr1),
        );
        let err = rollup_simulator.run_and_assert_limits(now, &addr1, expected).unwrap_err();
        assert!(matches!(err, LimitExceeded::RequestCount { .. }));
    }

    // Simulate a time pass of 20 ms. This is enough to allow a new request.
    {
        let time_passed_ms = 20;
        let now = now + ms(time_passed_ms);
        let expected = refill(
            &mul(&rollup_simulator.resource_used_per_run, run_number),
            &rollup_simulator.resource_tokens_to_refill(time_passed_ms, addr1),
        );
        let res = rollup_simulator.run_and_assert_limits(now, &addr1, expected);
        assert!(res.is_ok());
    }
}

#[test]
fn test_rate_limiter_happy_path_sepcial_address() {
    // The default budget is zero and a zero budget refuses every request,
    // the first one included (see the zero-budget tests of the limits), so
    // the standard address is refused from its first run on; the special
    // address is admitted within its own budget.
    let resource_used_per_run = small_resource_used_per_run();
    let default_config = RateLimiterConfig {
        max_allowed_resources: TotalResources::zero(),
        refill_rate: RefillRatePerMillis {
            token_resource_per_ms: Resource::zero(),
        },
    };
    let addr_1 = addr(1);
    let special_addr = addr(2);
    let special_keys = vec![(
        LimiterKey::Address(special_addr),
        RateLimiterConfig {
            max_allowed_resources: max_allowed_resources(),
            refill_rate: RefillRatePerMillis {
                token_resource_per_ms: Resource::zero(),
            },
        },
    )];
    let mut rollup_simulator = Simulator::new(TTL_IN_MILLIS, default_config, resource_used_per_run, special_keys);

    // A single run.
    let expected = rollup_simulator.resource_used_per_run;
    let err = rollup_simulator.run_and_assert_limits(T0, &addr_1, expected).unwrap_err();
    assert!(matches!(err, LimitExceeded::RequestCount { .. }));
    rollup_simulator.run_and_assert_limits(T0, &special_addr, expected).unwrap();

    // Two runs: the standard address is still refused, the special address
    // has higher limits.
    let expected_rate_limiter_usage = mul(&rollup_simulator.resource_used_per_run, 2);
    rollup_simulator
        .run_and_assert_limits(T0, &addr_1, expected_rate_limiter_usage)
        .unwrap_err();
    rollup_simulator
        .run_and_assert_limits(T0, &special_addr, expected_rate_limiter_usage)
        .unwrap();

    assert!(rollup_simulator.rate_limiter.contains_special_config(&LimiterKey::Address(special_addr)));
    assert!(!rollup_simulator.rate_limiter.contains_special_config(&LimiterKey::Address(addr_1)));
}

#[test]
fn too_many_concurrent_users_are_refused() {
    let config = RateLimiterConfig {
        max_allowed_resources: max_allowed_resources(),
        refill_rate: refill_rate(),
    };
    let mut limiter = RateLimiter::new("test_limiter", 1, Duration::from_millis(TTL_IN_MILLIS), config, Vec::new());
    let k1 = LimiterKey::Address(addr(1));
    let t = limiter.allow(T0, &k1).unwrap();
    limiter.update(k1, t, small_resource_used_per_run());
    // mini-moka counts entries lazily; run its pending maintenance through further reads.
    let k2 = LimiterKey::Address(addr(2));
    let mut refused = false;
    for _ in 0..1000 {
        if let Err(e) = limiter.allow(T0, &k2) {
            assert_eq!(
                e,
                LimitExceeded::TooManyConcurrentUsers {
                    nb_of_users: 1,
                    max_allowed: 1
                }
            );
            refused = true;
            break;
        }
    }
    assert!(refused);
}

#[test]
fn test_calculate_limits() {
    let limits = Limits {
        resources_per_bucket: 5,
        refill_rate: 1,
    };

    let max_batch_exec_time = 6000;
    let rate_limiter_config = calculate_limits(
        limits,
        10000,
        Duration::from_millis(max_batch_exec_time),
        6000000,
        gas(1_000_000, 1_000_000),
    );

    let max_allowed_resources_per_key = rate_limiter_config.max_allowed_resources;

    // In one ms we refill max_allowed_resources_per_key tokens.
    let refilled = rate_limiter_config
        .refill_rate
        .token_resource_per_ms
        .saturating_mul_by_scalar(max_batch_exec_time);

    assert_eq!(max_allowed_resources_per_key.inner.space_in_bytes, refilled.space_in_bytes);
}

#[test]
fn calculate_limits_scales_req_counter_to_requests_per_batch() {
    // 1000 req/s over a 6 s batch = 6000 requests/batch; resources_per_bucket = 10
    // (1% of a batch) => 60 requests per key.
    let config = calculate_limits(
        Limits {
            resources_per_bucket: 10,
            refill_rate: 0,
        },
        1000,
        Duration::from_millis(6000),
        6_000_000,
        gas(1_000_000, 1_000_000),
    );
    assert_eq!(config.max_allowed_resources.inner.req_counter, 60);
}

#[test]
fn calculate_limits_floors_req_counter_for_subsecond_batch() {
    // 1000 req/s over a 100 ms batch = 100 requests/batch; resources_per_bucket = 5
    // would round the per-key budget to 0 (100 * 5 / 1000). The guard floors it at 1.
    let config = calculate_limits(
        Limits {
            resources_per_bucket: 5,
            refill_rate: 0,
        },
        1000,
        Duration::from_millis(100),
        6_000_000,
        gas(1_000_000, 1_000_000),
    );
    assert_eq!(config.max_allowed_resources.inner.req_counter, 1);
}

#[test]
fn calculate_limits_keeps_zero_budget_for_zero_resources_per_bucket() {
    // `resources_per_bucket == 0` is the intentional "block everything" sentinel:
    // the guard must not floor it up to 1.
    let config = calculate_limits(
        Limits {
            resources_per_bucket: 0,
            refill_rate: 0,
        },
        1000,
        Duration::from_millis(100),
        6_000_000,
        gas(1_000_000, 1_000_000),
    );
    assert_eq!(config.max_allowed_resources.inner.req_counter, 0);
}

#[test]
fn calculate_limits_keeps_zero_budget_for_zero_max_requests_per_second() {
    // `max_requests_per_second == 0` is the intentional "block everything" sentinel:
    // the guard must not floor it up to 1, even when `resources_per_bucket > 0`.
    let config = calculate_limits(
        Limits {
            resources_per_bucket: 5,
            refill_rate: 0,
        },
        0,
        Duration::from_millis(100),
        6_000_000,
        gas(1_000_000, 1_000_000),
    );
    assert_eq!(config.max_allowed_resources.inner.req_counter, 0);
}

#[test]
fn calculate_limits_exact_values() {
    // 6000 requests, 6_000_000 bytes, 6_000_000 us and gas (2000, 4000) per batch;
    // 5 per mille of it per key, refilled once over the 6000 ms batch.
    let config = calculate_limits(
        Limits {
            resources_per_bucket: 5,
            refill_rate: 1,
        },
        1000,
        Duration::from_millis(6000),
        6_000_000,
        gas(2000, 4000),
    );
    assert_eq!(
        config.max_allowed_resources.inner,
        Resource {
            req_counter: 30,
            space_in_bytes: 30_000,
            execution_time_micros: 30_000,
            gas_used: gas(10, 20),
        }
    );
    assert_eq!(
        config.refill_rate.token_resource_per_ms,
        Resource {
            req_counter: 0,
            space_in_bytes: 5,
            execution_time_micros: 5,
            gas_used: gas(0, 0),
        }
    );
}

fn req_count_config(max_req_count: u64) -> RateLimiterConfig {
    let mut max_allowed_resources = Resource::max();
    max_allowed_resources.req_counter = max_req_count;

    RateLimiterConfig {
        max_allowed_resources: TotalResources {
            inner: max_allowed_resources,
        },
        refill_rate: RefillRatePerMillis {
            token_resource_per_ms: Resource::zero(),
        },
    }
}

fn one_request() -> ResourceUsed {
    ResourceUsed {
        inner: Resource {
            req_counter: 1,
            ..Resource::zero()
        },
    }
}

fn rate_limiter_with_ip_networks(default_config: RateLimiterConfig, ip_networks: &[&str]) -> SovRateLimiter {
    let nets: Vec<IpNetwork> = ip_networks.iter().map(|s| net(s)).collect();
    let entries: Vec<(LimiterKey, RateLimiterConfig)> =
        nets.iter().map(|n| (LimiterKey::Network(*n), default_config)).collect();
    SovRateLimiter {
        inner: Some(SovRateLimiterInner::new(
            1000,
            Duration::from_millis(1_000_000),
            default_config,
            Vec::new(),
            entries,
            &nets,
        )),
    }
}

fn new_for_test(max_nb_of_concurrent_users: u64, ttl: Duration, config: Option<RateLimiterConfig>) -> SovRateLimiter {
    SovRateLimiter {
        inner: config.map(|c| {
            SovRateLimiterInner::new(max_nb_of_concurrent_users, ttl, c, Vec::new(), Vec::new(), &Vec::new())
        }),
    }
}

#[test]
fn test_sov_test_limiter() {
    let resource_used_per_run = ResourceUsed {
        inner: Resource {
            req_counter: 10,
            space_in_bytes: 3000,
            execution_time_micros: 30,
            gas_used: gas(0, 0),
        },
    };

    // This is enough to make 2 requests.
    let max_allowed_resources = TotalResources {
        inner: Resource {
            req_counter: 100000,
            space_in_bytes: 5000,
            execution_time_micros: 100000,
            gas_used: gas(0, 0),
        },
    };

    let refill_rate = RefillRatePerMillis {
        token_resource_per_ms: Resource {
            req_counter: 1,
            space_in_bytes: 1,
            execution_time_micros: 1,
            gas_used: gas(0, 0),
        },
    };

    let config = RateLimiterConfig {
        max_allowed_resources,
        refill_rate,
    };

    let addr1 = addr(1);
    let addr2 = addr(2);
    let addr3 = addr(3);
    let ip1 = ip("127.0.0.1");
    let ip2 = ip("127.0.0.2");

    let mut rate_limiter = new_for_test(1000, Duration::from_millis(1_000_000), Some(config));

    // Update rate limiter for (ip1, cred1)
    {
        let token = rate_limiter.allow(T0, ip1, addr1).unwrap();
        rate_limiter.update(token, resource_used_per_run);
    }

    // Update rate limiter for (ip1, cred2)
    {
        let token = rate_limiter.allow(T0, ip1, addr2).unwrap();
        rate_limiter.update(token, resource_used_per_run);
    }

    // Different addresses were sent from the same IP, and after two requests we exceeded the limit for that IP.
    {
        let err = rate_limiter.allow(T0, ip1, addr3).unwrap_err();
        assert!(matches!(err, ResourceLimitExceededError::Ip { .. }));
    }

    // Update the rate limiter for (ip2, cred3); this works because we're using a new IP.
    {
        let token = rate_limiter.allow(T0, ip2, addr3).unwrap();
        rate_limiter.update(token, resource_used_per_run);
    }
}

#[test]
fn allow_falls_back_to_host_bucket_with_subnets_configured() {
    let mut rate_limiter = rate_limiter_with_ip_networks(req_count_config(2), &["10.0.0.0/24"]);
    let resource_used = one_request();
    let fallback_ip = ip("192.0.2.10");

    for byte in [1, 2] {
        let token = rate_limiter.allow(T0, fallback_ip, addr(byte)).unwrap();
        rate_limiter.update(token, resource_used);
    }

    let err = rate_limiter.allow(T0, fallback_ip, addr(3)).unwrap_err();
    let ResourceLimitExceededError::Ip { ip_net, .. } = err else {
        panic!("expected IP rate-limit error");
    };
    assert_eq!(ip_net, net("192.0.2.10/32"));

    let token = rate_limiter.allow(T0, ip("192.0.2.11"), addr(4)).unwrap().unwrap();
    assert_eq!(token.ip_net, net("192.0.2.11/32"));

    let token = rate_limiter.allow(T0, ip("10.0.0.7"), addr(5)).unwrap().unwrap();
    assert_eq!(token.ip_net, net("10.0.0.0/24"));
}

#[test]
fn allow_matches_configured_subnet_after_longer_prefix_miss() {
    let rate_limiter = rate_limiter_with_ip_networks(req_count_config(2), &["10.0.0.0/24", "172.16.0.0/16"]);

    let token = rate_limiter.allow(T0, ip("172.16.2.3"), addr(1)).unwrap().unwrap();
    assert_eq!(token.ip_net, net("172.16.0.0/16"));

    let token = rate_limiter.allow(T0, ip("10.0.0.42"), addr(2)).unwrap().unwrap();
    assert_eq!(token.ip_net, net("10.0.0.0/24"));
}

#[test]
fn subnet_suffix_renders_only_wider_subnets() {
    assert_eq!(subnet_suffix(&net("10.0.0.1/32")), "");
    assert_eq!(subnet_suffix(&net("2001:db8::1/128")), "");
    assert_eq!(subnet_suffix(&net("10.0.0.0/24")), " (subnet 10.0.0.0/24)");
    assert_eq!(subnet_suffix(&net("192.168.255.7/20")), " (subnet 192.168.255.7/20)");
    assert_eq!(subnet_suffix(&net("0.0.0.0/0")), " (subnet 0.0.0.0/0)");
    assert_eq!(subnet_suffix(&net("2001:db8::/64")), " (subnet 2001:db8::/64)");
}

fn sov_config(ip_custom_limits: Vec<(IpNetwork, Limits)>) -> SovRateLimiterConfig {
    SovRateLimiterConfig {
        max_requests_per_second: 1000,
        max_nb_of_concurrent_users_in_rate_limiter: 1000,
        default_limits: Limits {
            resources_per_bucket: 5,
            refill_rate: 1,
        },
        comfortable_gas_limit: gas(1_000_000, 1_000_000),
        address_custom_limits: Vec::new(),
        ip_custom_limits,
    }
}

#[test]
fn overlapping_subnet_config_is_refused() {
    let limits = Limits {
        resources_per_bucket: 5,
        refill_rate: 1,
    };
    let config = sov_config(vec![(net("10.0.0.0/8"), limits), (net("10.0.0.0/24"), limits)]);
    let r = SovRateLimiter::setup_error(&Some(config), Duration::from_millis(3000), 1_000_000);
    assert!(matches!(r, Some(RateLimiterSetupError::OverlappingSubnets(_))));
}

#[test]
fn overlapping_ipv4_mapped_ipv6_subnet_config_is_refused() {
    let limits = Limits {
        resources_per_bucket: 5,
        refill_rate: 1,
    };
    let config = sov_config(vec![(net("10.0.0.0/24"), limits), (net("::ffff:10.0.0.0/120"), limits)]);
    let r = SovRateLimiter::setup_error(&Some(config), Duration::from_millis(3000), 1_000_000);
    assert!(matches!(r, Some(RateLimiterSetupError::OverlappingSubnets(_))));
}

#[test]
fn setup_refuses_subsecond_batch_time_and_zero_batch_size() {
    let setup = |c: Option<SovRateLimiterConfig>, t: Duration, size: usize| SovRateLimiter::setup_error(&c, t, size);
    let r = setup(Some(sov_config(Vec::new())), Duration::from_micros(999), 1_000_000);
    assert_eq!(r, Some(RateLimiterSetupError::ZeroBatchExecutionTime));
    let r = setup(None, Duration::from_micros(999), 1_000_000);
    assert_eq!(r, Some(RateLimiterSetupError::ZeroBatchExecutionTime));
    let r = setup(Some(sov_config(Vec::new())), Duration::from_millis(3000), 0);
    assert_eq!(r, Some(RateLimiterSetupError::ZeroMaxBatchSize));
    let r = setup(Some(sov_config(Vec::new())), Duration::from_secs(10_000_000_000), 1);
    assert_eq!(r, Some(RateLimiterSetupError::TtlTooLong));
    let r = setup(Some(sov_config(Vec::new())), Duration::new(u64::MAX / 4, 0), 1);
    assert_eq!(r, Some(RateLimiterSetupError::TtlOverflow));
    assert_eq!(setup(Some(sov_config(Vec::new())), Duration::from_millis(3000), 1_000_000), None);
    assert_eq!(setup(None, Duration::from_millis(3000), 1_000_000), None);
    let r = SovRateLimiter::new(None, Duration::from_millis(3000), 1_000_000);
    assert!(r.allow(T0, ip("10.0.0.1"), addr(1)).unwrap().is_none());
}

#[test]
fn candidate_supernets_probes_only_configured_prefix_lengths() {
    let prefixes = SubnetPrefixes::from_networks(&vec![net("10.0.0.0/24"), net("172.16.0.0/16")]);

    let candidates = prefixes.candidate_supernets(ip("10.0.5.7"));

    // Only the configured prefix lengths (24, 16), longest first, truncated.
    assert_eq!(candidates, vec![net("10.0.5.0/24"), net("10.0.0.0/16")]);
}

#[test]
fn candidate_supernets_are_empty_for_other_family() {
    let prefixes = SubnetPrefixes::from_networks(&vec![net("2001:db8::/32")]);
    assert_eq!(prefixes.candidate_supernets(ip("10.0.0.1")).len(), 0);
}

#[test]
fn allow_canonicalizes_ipv4_mapped_ipv6() {
    // Generous limits so the request is allowed, and we can read back the bucket key.
    let config = RateLimiterConfig {
        max_allowed_resources: TotalResources {
            inner: Resource {
                req_counter: 100000,
                space_in_bytes: 5000,
                execution_time_micros: 100000,
                gas_used: gas(0, 0),
            },
        },
        refill_rate: RefillRatePerMillis {
            token_resource_per_ms: Resource::zero(),
        },
    };
    let rate_limiter = new_for_test(1000, Duration::from_millis(1_000_000), Some(config));

    // `::ffff:10.0.0.5` must be charged to the IPv4 host network, not a V6 /128,
    // so it cannot dodge an IPv4 subnet limit by arriving in mapped form.
    let token = rate_limiter.allow(T0, ip("::ffff:10.0.0.5"), addr(1)).unwrap().unwrap();
    assert_eq!(token.ip_net, net("10.0.0.5/32"));
}

#[test]
fn programmatic_noncanonical_ip_custom_limit_is_normalized() {
    let mut config = sov_config(vec![(
        net("10.0.0.5/24"),
        Limits {
            resources_per_bucket: 0,
            refill_rate: 0,
        },
    )]);
    config.default_limits = Limits {
        resources_per_bucket: 5,
        refill_rate: 0,
    };
    let rate_limiter = SovRateLimiter::new(Some(config), Duration::from_millis(3000), 1_000_000);

    let err = rate_limiter.allow(T0, ip("10.0.0.42"), addr(1)).unwrap_err();
    let ResourceLimitExceededError::Ip { ip_net, .. } = err else {
        panic!("expected IP rate-limit error");
    };
    assert_eq!(ip_net, net("10.0.0.0/24"));
}

#[test]
fn configured_ipv4_mapped_ipv6_subnet_is_normalized() {
    let mut config = sov_config(vec![(
        net("::ffff:10.0.0.42/120"),
        Limits {
            resources_per_bucket: 0,
            refill_rate: 0,
        },
    )]);
    config.default_limits = Limits {
        resources_per_bucket: 5,
        refill_rate: 0,
    };
    let rate_limiter = SovRateLimiter::new(Some(config), Duration::from_millis(3000), 1_000_000);

    let err = rate_limiter.allow(T0, ip("10.0.0.5"), addr(1)).unwrap_err();
    let ResourceLimitExceededError::Ip { ip_net, .. } = err else {
        panic!("expected IP rate-limit error");
    };
    assert_eq!(ip_net, net("10.0.0.0/24"));
}

#[test]
fn address_and_ip_throttlers_charge_independently() {
    // Tight custom limits on both a specific address and an IP subnet, with a
    // loose default. A single admission charges both throttlers, so either
    // side can later reject.
    let limited_addr = addr(7);
    let subnet = net("10.0.0.0/24");
    let tight = Limits {
        resources_per_bucket: 1,
        refill_rate: 0,
    };
    let loose = Limits {
        resources_per_bucket: 1000,
        refill_rate: 0,
    };
    let config = SovRateLimiterConfig {
        max_requests_per_second: 1000,
        max_nb_of_concurrent_users_in_rate_limiter: 1000,
        default_limits: loose,
        comfortable_gas_limit: gas(1_000_000, 1_000_000),
        address_custom_limits: vec![(limited_addr, tight)],
        ip_custom_limits: vec![(subnet, tight)],
    };
    let mut rate_limiter = SovRateLimiter::new(Some(config), Duration::from_millis(1000), 1_000_000);
    let ip_in_subnet = ip("10.0.0.1");

    // Both throttlers have budget; the admission charges both.
    let token = rate_limiter.allow(T0, ip_in_subnet, limited_addr).unwrap();
    rate_limiter.update(token, one_request());

    // Same custom address: address throttler is exhausted; the address-side rejects.
    let err = rate_limiter.allow(T0, ip_in_subnet, limited_addr).unwrap_err();
    let ResourceLimitExceededError::Address { address, .. } = err else {
        panic!("expected Address rejection, got {err:?}");
    };
    assert_eq!(address, limited_addr);

    // Different address (loose default) but same subnet: the IP throttler rejects.
    let err = rate_limiter.allow(T0, ip_in_subnet, addr(8)).unwrap_err();
    let ResourceLimitExceededError::Ip { ip_net, .. } = err else {
        panic!("expected Ip rejection, got {err:?}");
    };
    assert_eq!(ip_net, subnet);
}

#[test]
fn network_truncation_and_containment() {
    let n = net("10.0.0.5/24");
    assert_eq!(n.trunc(), net("10.0.0.0/24"));
    assert_eq!(n.network(), ip("10.0.0.0"));
    assert_eq!(n.broadcast(), ip("10.0.0.255"));
    assert!(net("10.0.0.0/8").contains(&net("10.0.5.0/24")));
    assert!(!net("10.0.5.0/24").contains(&net("10.0.0.0/8")));
    assert_eq!(ip("::ffff:10.0.0.5").to_canonical(), ip("10.0.0.5"));
}

#[test]
fn bucket_keys_contain_the_ip() {
    let rate_limiter = rate_limiter_with_ip_networks(req_count_config(2), &["10.0.0.0/24", "172.16.0.0/16"]);
    for s in ["10.0.0.7", "172.16.200.1", "192.0.2.1", "2001:db8::5"] {
        let a = ip(s);
        let token = rate_limiter.allow(T0, a, addr(1)).unwrap().unwrap();
        assert!(token.ip_net.contains(&IpNetwork::from_addr(a)), "{s}");
    }
}

#[test]
fn canonical_networks_stay_canonical() {
    for s in ["10.0.0.5/24", "::ffff:10.0.0.42/120", "2001:db8::1/64", "::ffff:10.0.0.42/80"] {
        let once = canonicalize_ip_net(net(s));
        assert_eq!(canonicalize_ip_net(once), once, "{s}");
    }
    assert_eq!(canonicalize_ip_net(net("::ffff:10.0.0.42/120")), net("10.0.0.0/24"));
}

#[test]
fn waiting_never_hurts() {
    let max = TotalResources {
        inner: Resource {
            req_counter: 10,
            ..Resource::max()
        },
    };
    let rate = RefillRatePerMillis {
        token_resource_per_ms: Resource {
            req_counter: 1,
            ..Resource::zero()
        },
    };
    let throttler = Throttler {
        total_resource_used: TotalResources {
            inner: Resource {
                req_counter: 12,
                ..Resource::zero()
            },
        },
        last_refill_nanos: T0,
    };
    assert!(throttler.allow_request_and_refill_resource_used(T0 + ms(2), &max, &rate).is_err());
    assert!(throttler.allow_request_and_refill_resource_used(T0 + ms(3), &max, &rate).is_ok());
    assert!(throttler.allow_request_and_refill_resource_used(T0 + ms(300), &max, &rate).is_ok());
}

#[test]
fn a_fresh_limiter_admits_within_budget() {
    let rate_limiter = SovRateLimiter::new(Some(sov_config(Vec::new())), Duration::from_millis(3000), 1_000_000);
    let token = rate_limiter.allow(T0, ip("10.0.0.1"), addr(1)).unwrap().unwrap();
    assert_eq!(token.ip_net, net("10.0.0.1/32"));
    assert_eq!(token.throttler_for_addr.last_refill_nanos, T0);
    assert_eq!(token.throttler_for_addr.total_resource_used, TotalResources::zero());
}

#[test]
fn ip_bucket_is_the_most_specific_configured_subnet() {
    let config = RateLimiterConfig {
        max_allowed_resources: max_allowed_resources(),
        refill_rate: refill_rate(),
    };
    let limiter = rate_limiter_with_ip_networks(config, &["10.0.0.0/8", "10.1.0.0/16", "2001:db8::/32"]);
    let inner = limiter.inner.as_ref().unwrap();
    assert_eq!(inner.ip_key(ip("10.1.2.3")), net("10.1.0.0/16"));
    assert_eq!(inner.ip_key(ip("10.2.0.1")), net("10.0.0.0/8"));
    assert_eq!(inner.ip_key(ip("11.0.0.1")), net("11.0.0.1/32"));
    assert_eq!(inner.ip_key(ip("2001:db8::5")), net("2001:db8::/32"));
    assert_eq!(inner.ip_key(ip("2001:db9::5")), net("2001:db9::5/128"));
}
