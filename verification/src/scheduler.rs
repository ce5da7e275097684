//! The per-candidate search step.
//!
//! A worker's whole unit of work: generate one candidate, account it,
//! test it against the shared matcher, and on a hit account the match
//! and hand the keypair out for recording. The surrounding thread pool,
//! the progress timer and the file append live outside the library; they
//! drive this step and persist what it returns.

use vstd::prelude::*;

use crate::addresses::spec_is_canonical_address;
use crate::counters::sat_inc;
use crate::counters::SearchCounters;
use crate::generator::generate_eth_address;
use crate::patterns::PatternMatcher;

verus! {

/// Runs one generate-and-test iteration. The generated counter always
/// advances by one (saturating); the matched counter advances exactly
/// when the candidate matches, and the matched keypair is returned so
/// the caller can record it durably. One candidate address is drawn
/// either way, and the step returns a hit if and only if the matcher
/// accepts that address — a hit is never swallowed, and never invented.
pub fn search_step(matcher: &PatternMatcher, counters: &mut SearchCounters) -> (r: Option<
    (String, String),
>)
    ensures
        final(counters).spec_generated() == sat_inc(old(counters).spec_generated()),
        r is Some ==> {
            let hit = r->0;
            &&& matcher.spec_matches_any(hit.0@)
            &&& spec_is_canonical_address(hit.0@)
            &&& final(counters).spec_matched() == if old(counters).spec_matched() < sat_inc(
                old(counters).spec_generated(),
            ) {
                (old(counters).spec_matched() + 1) as u64
            } else {
                old(counters).spec_matched()
            }
        },
        r is None ==> final(counters).spec_matched() == old(counters).spec_matched(),
        exists|a: Seq<char>|
            {
                &&& #[trigger] spec_is_canonical_address(a)
                &&& (r is Some <==> matcher.spec_matches_any(a))
                &&& (r is Some ==> {
                    let hit = r->0;
                    hit.0@ == a
                })
            },
{
    let (address, private_key) = generate_eth_address();
    let ghost a = address@;
    counters.note_generated();
    if matcher.matches_any(address.as_str()) {
        counters.note_match();
        let r = Some((address, private_key));
        proof {
            assert(spec_is_canonical_address(a) && (r is Some <==> matcher.spec_matches_any(a))
                && ({
                let hit = r->0;
                hit.0@ == a
            }));
        }
        r
    } else {
        proof {
            assert(spec_is_canonical_address(a) && !matcher.spec_matches_any(a));
        }
        None
    }
}

} // verus!
