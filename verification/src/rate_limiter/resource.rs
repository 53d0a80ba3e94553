//! Multidimensional resources that the rate limiter accounts for.
use vstd::prelude::*;

verus! {

/// Saturating subtraction on naturals bounded by `u64`.
pub open spec fn sat_sub(a: u64, b: u64) -> u64 {
    if a >= b {
        (a - b) as u64
    } else {
        0
    }
}

/// Saturating multiplication on `u64`.
pub open spec fn sat_mul(a: u64, b: u64) -> u64 {
    if a * b <= u64::MAX {
        (a * b) as u64
    } else {
        u64::MAX
    }
}

/// A two-dimensional gas amount: one `u64` per gas dimension.
#[derive(Debug, Clone, Copy, PartialEq, Eq, Structural)]
pub struct GasUnit {
    pub dim0: u64,
    pub dim1: u64,
}

impl GasUnit {
    /// The gas amount with every dimension set to the given values.
    pub fn from_dims(dim0: u64, dim1: u64) -> (g: GasUnit)
        ensures
            g.dim0 == dim0,
            g.dim1 == dim1,
    {
        GasUnit { dim0, dim1 }
    }

    pub open spec fn spec_zero() -> GasUnit {
        GasUnit { dim0: 0, dim1: 0 }
    }

    pub open spec fn spec_max() -> GasUnit {
        GasUnit { dim0: u64::MAX, dim1: u64::MAX }
    }

    /// Per-dimension subtraction; `None` when some dimension would go below zero.
    pub open spec fn spec_checked_sub(self, other: GasUnit) -> Option<GasUnit> {
        if self.dim0 >= other.dim0 && self.dim1 >= other.dim1 {
            Some(GasUnit { dim0: (self.dim0 - other.dim0) as u64, dim1: (self.dim1 - other.dim1) as u64 })
        } else {
            None
        }
    }

    /// Per-dimension addition; `None` when some dimension overflows.
    pub open spec fn spec_checked_combine(self, other: GasUnit) -> Option<GasUnit> {
        if self.dim0 + other.dim0 <= u64::MAX && self.dim1 + other.dim1 <= u64::MAX {
            Some(GasUnit { dim0: (self.dim0 + other.dim0) as u64, dim1: (self.dim1 + other.dim1) as u64 })
        } else {
            None
        }
    }

    /// Per-dimension product with a scalar; `None` when some dimension overflows.
    pub open spec fn spec_checked_scalar_product(self, scalar: u64) -> Option<GasUnit> {
        if self.dim0 * scalar <= u64::MAX && self.dim1 * scalar <= u64::MAX {
            Some(GasUnit { dim0: (self.dim0 * scalar) as u64, dim1: (self.dim1 * scalar) as u64 })
        } else {
            None
        }
    }

    /// Per-dimension integer division by a non-zero scalar.
    pub open spec fn spec_scalar_division(self, scalar: u64) -> GasUnit
        recommends
            scalar > 0,
    {
        GasUnit { dim0: self.dim0 / scalar, dim1: self.dim1 / scalar }
    }

    /// Every dimension of `self` is at most the matching dimension of `other`.
    pub open spec fn spec_dim_is_less_or_eq(self, other: GasUnit) -> bool {
        self.dim0 <= other.dim0 && self.dim1 <= other.dim1
    }

    pub fn zero() -> (g: GasUnit)
        ensures
            g == GasUnit::spec_zero(),
    {
        GasUnit { dim0: 0, dim1: 0 }
    }

    pub fn max() -> (g: GasUnit)
        ensures
            g == GasUnit::spec_max(),
    {
        GasUnit { dim0: u64::MAX, dim1: u64::MAX }
    }

    pub fn checked_sub(&self, other: &GasUnit) -> (r: Option<GasUnit>)
        ensures
            r == self.spec_checked_sub(*other),
    {
        match (self.dim0.checked_sub(other.dim0), self.dim1.checked_sub(other.dim1)) {
            (Some(dim0), Some(dim1)) => Some(GasUnit { dim0, dim1 }),
            _ => None,
        }
    }

    pub fn checked_combine(&self, other: &GasUnit) -> (r: Option<GasUnit>)
        ensures
            r == self.spec_checked_combine(*other),
    {
        match (self.dim0.checked_add(other.dim0), self.dim1.checked_add(other.dim1)) {
            (Some(dim0), Some(dim1)) => Some(GasUnit { dim0, dim1 }),
            _ => None,
        }
    }

    pub fn checked_scalar_product(&self, scalar: u64) -> (r: Option<GasUnit>)
        ensures
            r == self.spec_checked_scalar_product(scalar),
    {
        match (self.dim0.checked_mul(scalar), self.dim1.checked_mul(scalar)) {
            (Some(dim0), Some(dim1)) => Some(GasUnit { dim0, dim1 }),
            _ => None,
        }
    }

    pub fn scalar_division(&self, scalar: u64) -> (r: GasUnit)
        requires
            scalar > 0,
        ensures
            r == self.spec_scalar_division(scalar),
    {
        GasUnit { dim0: self.dim0 / scalar, dim1: self.dim1 / scalar }
    }

    pub fn dim_is_less_or_eq(&self, other: &GasUnit) -> (r: bool)
        ensures
            r == self.spec_dim_is_less_or_eq(*other),
    {
        self.dim0 <= other.dim0 && self.dim1 <= other.dim1
    }
}

/// Reason why the rate limit was exceeded.
#[allow(inconsistent_fields)]
#[derive(Debug, Clone, Copy, PartialEq, Eq, Structural)]
pub enum LimitExceeded {
    RequestCount { total_accumulated: u64, max_allowed: u64 },
    Space { total_accumulated: u64, max_allowed: u64 },
    ExecutionTime { total_accumulated: u64, max_allowed: u64 },
    Gas { total_accumulated: GasUnit, max_allowed: GasUnit },
    TooManyConcurrentUsers { nb_of_users: u64, max_allowed: u64 },
}

/// A resource that requires rate limiting.
#[derive(Debug, Clone, Copy, PartialEq, Eq, Structural)]
pub struct Resource {
    pub req_counter: u64,
    pub space_in_bytes: u64,
    pub execution_time_micros: u64,
    pub gas_used: GasUnit,
}

impl Resource {
    pub open spec fn spec_zero() -> Resource {
        Resource {
            req_counter: 0,
            space_in_bytes: 0,
            execution_time_micros: 0,
            gas_used: GasUnit::spec_zero(),
        }
    }

    pub open spec fn spec_max() -> Resource {
        Resource {
            req_counter: u64::MAX,
            space_in_bytes: u64::MAX,
            execution_time_micros: u64::MAX,
            gas_used: GasUnit::spec_max(),
        }
    }

    /// Dimension-wise saturating difference; gas that would underflow becomes zero.
    pub open spec fn spec_saturating_sub(self, tokens: Resource) -> Resource {
        Resource {
            req_counter: sat_sub(self.req_counter, tokens.req_counter),
            space_in_bytes: sat_sub(self.space_in_bytes, tokens.space_in_bytes),
            execution_time_micros: sat_sub(self.execution_time_micros, tokens.execution_time_micros),
            gas_used: match self.gas_used.spec_checked_sub(tokens.gas_used) {
                Some(g) => g,
                None => GasUnit::spec_zero(),
            },
        }
    }

    /// Dimension-wise sum; `None` when any dimension overflows.
    pub open spec fn spec_checked_add(self, other: Resource) -> Option<Resource> {
        if self.req_counter + other.req_counter <= u64::MAX
            && self.space_in_bytes + other.space_in_bytes <= u64::MAX
            && self.execution_time_micros + other.execution_time_micros <= u64::MAX
            && self.gas_used.spec_checked_combine(other.gas_used) is Some
        {
            Some(Resource {
                req_counter: (self.req_counter + other.req_counter) as u64,
                space_in_bytes: (self.space_in_bytes + other.space_in_bytes) as u64,
                execution_time_micros: (self.execution_time_micros + other.execution_time_micros) as u64,
                gas_used: self.gas_used.spec_checked_combine(other.gas_used)->0,
            })
        } else {
            None
        }
    }

    /// Dimension-wise saturating product; gas that overflows becomes the maximum gas.
    pub open spec fn spec_saturating_mul_by_scalar(self, scalar: u64) -> Resource {
        Resource {
            req_counter: sat_mul(self.req_counter, scalar),
            space_in_bytes: sat_mul(self.space_in_bytes, scalar),
            execution_time_micros: sat_mul(self.execution_time_micros, scalar),
            gas_used: match self.gas_used.spec_checked_scalar_product(scalar) {
                Some(g) => g,
                None => GasUnit::spec_max(),
            },
        }
    }

    /// Dimension-wise integer division by a non-zero scalar.
    pub open spec fn spec_div_by_scalar(self, scalar: u64) -> Resource
        recommends
            scalar > 0,
    {
        Resource {
            req_counter: self.req_counter / scalar,
            space_in_bytes: self.space_in_bytes / scalar,
            execution_time_micros: self.execution_time_micros / scalar,
            gas_used: self.gas_used.spec_scalar_division(scalar),
        }
    }

    /// The first dimension whose accumulated amount is above the maximum,
    /// checked in the order request count, space, execution time. An amount
    /// equal to its maximum is within it. Gas is not part of the check.
    pub open spec fn spec_err_if_exceeding(self, other: Resource) -> Result<(), LimitExceeded> {
        if self.req_counter > other.req_counter {
            Err(LimitExceeded::RequestCount {
                total_accumulated: self.req_counter,
                max_allowed: other.req_counter,
            })
        } else if self.space_in_bytes > other.space_in_bytes {
            Err(LimitExceeded::Space {
                total_accumulated: self.space_in_bytes,
                max_allowed: other.space_in_bytes,
            })
        } else if self.execution_time_micros > other.execution_time_micros {
            Err(LimitExceeded::ExecutionTime {
                total_accumulated: self.execution_time_micros,
                max_allowed: other.execution_time_micros,
            })
        } else {
            Ok(())
        }
    }

    /// The first exhausted dimension, checked in the order request count,
    /// space, execution time. A dimension is exhausted when the accumulated
    /// amount reaches the maximum (so a zero maximum blocks everything).
    /// Gas is not part of the check.
    pub open spec fn spec_err_if_reaching(self, other: Resource) -> Result<(), LimitExceeded> {
        if self.req_counter >= other.req_counter {
            Err(LimitExceeded::RequestCount {
                total_accumulated: self.req_counter,
                max_allowed: other.req_counter,
            })
        } else if self.space_in_bytes >= other.space_in_bytes {
            Err(LimitExceeded::Space {
                total_accumulated: self.space_in_bytes,
                max_allowed: other.space_in_bytes,
            })
        } else if self.execution_time_micros >= other.execution_time_micros {
            Err(LimitExceeded::ExecutionTime {
                total_accumulated: self.execution_time_micros,
                max_allowed: other.execution_time_micros,
            })
        } else {
            Ok(())
        }
    }

    pub fn zero() -> (r: Resource)
        ensures
            r == Resource::spec_zero(),
    {
        Resource {
            req_counter: 0,
            space_in_bytes: 0,
            execution_time_micros: 0,
            gas_used: GasUnit::zero(),
        }
    }

    pub fn max() -> (r: Resource)
        ensures
            r == Resource::spec_max(),
    {
        Resource {
            req_counter: u64::MAX,
            space_in_bytes: u64::MAX,
            execution_time_micros: u64::MAX,
            gas_used: GasUnit::max(),
        }
    }

    pub fn saturating_sub(&self, tokens: &Resource) -> (r: Resource)
        ensures
            r == self.spec_saturating_sub(*tokens),
    {
        Resource {
            req_counter: self.req_counter.saturating_sub(tokens.req_counter),
            space_in_bytes: self.space_in_bytes.saturating_sub(tokens.space_in_bytes),
            execution_time_micros: self.execution_time_micros.saturating_sub(
                tokens.execution_time_micros,
            ),
            gas_used: match self.gas_used.checked_sub(&tokens.gas_used) {
                Some(gas) => gas,
                None => GasUnit::zero(),
            },
        }
    }

    pub fn checked_add(&self, other: &Resource) -> (r: Option<Resource>)
        ensures
            r == self.spec_checked_add(*other),
    {
        let req_counter = match self.req_counter.checked_add(other.req_counter) {
            Some(v) => v,
            None => return None,
        };
        let space_in_bytes = match self.space_in_bytes.checked_add(other.space_in_bytes) {
            Some(v) => v,
            None => return None,
        };
        let execution_time_micros = match self.execution_time_micros.checked_add(
            other.execution_time_micros,
        ) {
            Some(v) => v,
            None => return None,
        };
        let gas_used = match self.gas_used.checked_combine(&other.gas_used) {
            Some(v) => v,
            None => return None,
        };
        Some(Resource { req_counter, space_in_bytes, execution_time_micros, gas_used })
    }

    pub fn saturating_mul_by_scalar(&self, scalar: u64) -> (r: Resource)
        ensures
            r == self.spec_saturating_mul_by_scalar(scalar),
    {
        let gas_used = match self.gas_used.checked_scalar_product(scalar) {
            Some(g) => g,
            None => GasUnit::max(),
        };
        Resource {
            req_counter: saturating_mul_u64(self.req_counter, scalar),
            space_in_bytes: saturating_mul_u64(self.space_in_bytes, scalar),
            execution_time_micros: saturating_mul_u64(self.execution_time_micros, scalar),
            gas_used,
        }
    }

    pub fn div_by_scalar(&self, scalar: u64) -> (r: Resource)
        requires
            scalar > 0,
        ensures
            r == self.spec_div_by_scalar(scalar),
    {
        let gas_used = self.gas_used.scalar_division(scalar);
        Resource {
            req_counter: self.req_counter / scalar,
            space_in_bytes: self.space_in_bytes / scalar,
            execution_time_micros: self.execution_time_micros / scalar,
            gas_used,
        }
    }

    /// The first dimension of `self` above `other`.
    pub fn err_if_exceeding(&self, other: &Resource) -> (r: Result<(), LimitExceeded>)
        ensures
            r == self.spec_err_if_exceeding(*other),
    {
        if self.req_counter > other.req_counter {
            return Err(
                LimitExceeded::RequestCount {
                    total_accumulated: self.req_counter,
                    max_allowed: other.req_counter,
                },
            );
        }
        if self.space_in_bytes > other.space_in_bytes {
            return Err(
                LimitExceeded::Space {
                    total_accumulated: self.space_in_bytes,
                    max_allowed: other.space_in_bytes,
                },
            );
        }
        if self.execution_time_micros > other.execution_time_micros {
            return Err(
                LimitExceeded::ExecutionTime {
                    total_accumulated: self.execution_time_micros,
                    max_allowed: other.execution_time_micros,
                },
            );
        }
        Ok(())
    }

    /// The first exhausted dimension of `self` against the budget `other`.
    pub fn err_if_reaching(&self, other: &Resource) -> (r: Result<(), LimitExceeded>)
        ensures
            r == self.spec_err_if_reaching(*other),
    {
        if self.req_counter >= other.req_counter {
            return Err(
                LimitExceeded::RequestCount {
                    total_accumulated: self.req_counter,
                    max_allowed: other.req_counter,
                },
            );
        }
        if self.space_in_bytes >= other.space_in_bytes {
            return Err(
                LimitExceeded::Space {
                    total_accumulated: self.space_in_bytes,
                    max_allowed: other.space_in_bytes,
                },
            );
        }
        if self.execution_time_micros >= other.execution_time_micros {
            return Err(
                LimitExceeded::ExecutionTime {
                    total_accumulated: self.execution_time_micros,
                    max_allowed: other.execution_time_micros,
                },
            );
        }
        Ok(())
    }
}

/// `u64` multiplication that saturates at `u64::MAX`.
pub fn saturating_mul_u64(a: u64, b: u64) -> (r: u64)
    ensures
        r == sat_mul(a, b),
{
    match a.checked_mul(b) {
        Some(v) => v,
        None => u64::MAX,
    }
}

} // verus!
