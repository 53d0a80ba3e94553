use sov_sequencer::rate_limiter::resource::{GasUnit, LimitExceeded, Resource};

fn resource(req_counter: u64, space_in_bytes: u64, execution_time_micros: u64, gas_used: GasUnit) -> Resource {
    Resource {
        req_counter,
        space_in_bytes,
        execution_time_micros,
        gas_used,
    }
}

fn from(n: u64) -> Resource {
    resource(n, n, n, GasUnit::from_dims(n, n))
}

#[test]
fn test_resouce_saturating_sub() {
    {
        let zero = Resource::zero();
        let r1 = from(1);
        let r2 = from(2);

        assert_eq!(r1.saturating_sub(&r2), zero);
    }

    {
        let r1 = from(5);
        let r2 = from(2);

        assert_eq!(r1.saturating_sub(&r2), from(3));
    }
}

#[test]
fn test_resouce_addition() {
    let r1 = from(1);
    {
        let r2 = from(2);
        assert_eq!(r1.checked_add(&r2), Some(from(3)));
    }

    {
        let max = from(u64::MAX);
        assert_eq!(r1.checked_add(&max), None);
    }
}

#[test]
fn test_resouce_multiplication() {
    let r1 = from(3);

    assert_eq!(r1.saturating_mul_by_scalar(2), from(6));

    assert_eq!(r1.saturating_mul_by_scalar(u64::MAX), from(u64::MAX));
}

#[test]
fn test_resouce_exceeding() {
    let r1 = from(1);
    let r2 = from(2);

    assert!(r1.err_if_exceeding(&r2).is_ok());
    assert!(r2.err_if_exceeding(&r1).is_err());

    {
        let r1 = resource(5, 5, 7, GasUnit::from_dims(8, 9));
        let r2 = Resource { ..r1 };
        assert!(r2.err_if_exceeding(&r1).is_ok());
    }

    {
        let r1 = resource(100, 101, 102, GasUnit::from_dims(103, 104));
        let r2 = Resource {
            req_counter: 1,
            ..r1
        };
        assert_eq!(
            r1.err_if_exceeding(&r2),
            Err(LimitExceeded::RequestCount {
                total_accumulated: r1.req_counter,
                max_allowed: r2.req_counter,
            })
        );
    }

    {
        let r1 = resource(100, 101, 102, GasUnit::from_dims(103, 104));
        let r2 = Resource {
            space_in_bytes: 1,
            ..r1
        };
        assert_eq!(
            r1.err_if_exceeding(&r2),
            Err(LimitExceeded::Space {
                total_accumulated: r1.space_in_bytes,
                max_allowed: r2.space_in_bytes,
            })
        );
    }

    {
        let r1 = resource(100, 101, 102, GasUnit::from_dims(103, 104));
        let r2 = Resource {
            execution_time_micros: 1,
            ..r1
        };
        assert_eq!(
            r1.err_if_exceeding(&r2),
            Err(LimitExceeded::ExecutionTime {
                total_accumulated: r1.execution_time_micros,
                max_allowed: r2.execution_time_micros,
            })
        );
    }
}

#[test]
fn reaching_a_budget_spends_it() {
    // A budget counts as spent once usage reaches it, so a zero budget blocks everything.
    let r = resource(5, 5, 7, GasUnit::from_dims(8, 9));
    assert_eq!(
        r.err_if_reaching(&r),
        Err(LimitExceeded::RequestCount {
            total_accumulated: 5,
            max_allowed: 5,
        })
    );
    assert!(Resource::zero().err_if_reaching(&Resource::zero()).is_err());
    assert!(resource(4, 4, 6, GasUnit::from_dims(8, 9)).err_if_reaching(&r).is_ok());
    let r1 = resource(100, 101, 102, GasUnit::from_dims(103, 104));
    assert_eq!(
        r1.err_if_reaching(&Resource { req_counter: 1000, space_in_bytes: 101, ..r1 }),
        Err(LimitExceeded::Space {
            total_accumulated: 101,
            max_allowed: 101,
        })
    );
}

#[test]
fn gas_is_not_checked() {
    let r1 = resource(1, 1, 1, GasUnit::from_dims(103, 104));
    let r2 = resource(2, 2, 2, GasUnit::from_dims(0, 0));
    assert_eq!(r1.err_if_exceeding(&r2), Ok(()));
}

#[test]
fn division_by_scalar_rounds_down() {
    assert_eq!(from(7).div_by_scalar(2), from(3));
}
