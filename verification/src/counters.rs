//! Shared progress accounting for a search run.
//!
//! Two unsigned 64-bit counters, with the invariant that the number of
//! matches never exceeds the number of generated candidates. Increments
//! saturate rather than wrap, as a defensive choice for effectively
//! unbounded runs.

use vstd::prelude::*;

verus! {

/// Saturating increment of an unsigned 64-bit counter.
pub open spec fn sat_inc(v: u64) -> u64 {
    if v == u64::MAX {
        v
    } else {
        (v + 1) as u64
    }
}

/// The two shared counters of a search run.
pub struct SearchCounters {
    generated: u64,
    matched: u64,
}

impl SearchCounters {
    #[verifier::type_invariant]
    spec fn inv(self) -> bool {
        self.matched <= self.generated
    }

    /// How many candidates have been generated.
    pub closed spec fn spec_generated(self) -> u64 {
        self.generated
    }

    /// How many candidates have matched.
    pub closed spec fn spec_matched(self) -> u64 {
        self.matched
    }

    /// Fresh counters: nothing generated, nothing matched.
    pub fn new() -> (c: Self)
        ensures
            c.spec_generated() == 0,
            c.spec_matched() == 0,
    {
        SearchCounters { generated: 0, matched: 0 }
    }

    /// Accounts one generated candidate, saturating at the maximum.
    pub fn note_generated(&mut self)
        ensures
            final(self).spec_generated() == sat_inc(old(self).spec_generated()),
            final(self).spec_matched() == old(self).spec_matched(),
    {
        proof {
            use_type_invariant(&*self);
        }
        if self.generated < u64::MAX {
            self.generated = self.generated + 1;
        }
    }

    /// Accounts one matched candidate. The count saturates against the
    /// generated total, so a match can never be recorded ahead of its
    /// candidate.
    pub fn note_match(&mut self)
        ensures
            final(self).spec_matched() == if old(self).spec_matched() < old(
                self,
            ).spec_generated() {
                (old(self).spec_matched() + 1) as u64
            } else {
                old(self).spec_matched()
            },
            final(self).spec_generated() == old(self).spec_generated(),
    {
        proof {
            use_type_invariant(&*self);
        }
        if self.matched < self.generated {
            self.matched = self.matched + 1;
        }
    }

    /// Reads both counters in one call. Law: whenever the counters are
    /// sampled, the match count is at most the generated count.
    pub fn snapshot(&self) -> (r: (u64, u64))
        ensures
            r.0 == self.spec_generated(),
            r.1 == self.spec_matched(),
            r.1 <= r.0,
    {
        proof {
            use_type_invariant(self);
        }
        (self.generated, self.matched)
    }
}

} // verus!
