//! Assembling the sequencer's configuration before it starts.
use vstd::prelude::*;

use crate::address::Address;

verus! {

/// Holds the DA service and the configuration the sequencer is built from.
#[derive(Debug)]
pub struct Builder<Da, Config> {
    da: Da,
    config: Config,
}

impl<Da, Config> Builder<Da, Config> {
    pub closed spec fn spec_da(&self) -> Da {
        self.da
    }

    pub closed spec fn spec_config(&self) -> Config {
        self.config
    }

    /// Creates a new builder.
    pub fn new(da: Da, config: Config) -> (b: Self)
        ensures
            b.spec_da() == da,
            b.spec_config() == config,
    {
        Builder { da, config }
    }

    /// The DA service and the configuration, handed over for building.
    pub fn into_parts(self) -> (r: (Da, Config))
        ensures
            r.0 == self.spec_da(),
            r.1 == self.spec_config(),
    {
        (self.da, self.config)
    }
}

/// Whether `a` occurs in `s`.
pub fn contains_address(s: &Vec<Address>, a: &Address) -> (r: bool)
    ensures
        r == s@.contains(*a),
{
    let mut i: usize = 0;
    while i < s.len()
        invariant
            i <= s@.len(),
            forall|j: int| 0 <= j < i ==> s@[j] != *a,
        decreases s@.len() - i,
    {
        if s[i].same(a) {
            proof {
                assert(s@[i as int] == *a);
            }
            return true;
        }
        i = i + 1;
    }
    false
}

/// Adds the timing oracle's address, if an oracle is configured, to the
/// admin addresses when it is not already one of them.
pub fn maybe_add_oracle_to_admins(admins: &mut Vec<Address>, oracle: Option<Address>)
    ensures
        match oracle {
            Some(o) => if old(admins)@.contains(o) {
                final(admins)@ == old(admins)@
            } else {
                final(admins)@ == old(admins)@.push(o)
            },
            None => final(admins)@ == old(admins)@,
        },
{
    match oracle {
        Some(o) => {
            if !contains_address(admins, &o) {
                admins.push(o);
            }
        },
        None => {},
    }
}

} // verus!
