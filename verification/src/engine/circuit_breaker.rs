//! Circuit breaker: force approval once a session has been blocked too often.

use crate::config::CircuitBreakerConfig;
use crate::engine::state::{ReviewView, SessionState, SessionView};
use vstd::prelude::*;

verus! {

/// The breaker is open: it has tripped before, or the blocks have reached the limit.
pub open spec fn breaker_open(review: ReviewView, max_blocks: u32) -> bool {
    review.circuit_breaker_tripped || review.block_count >= max_blocks
}

/// `review` once the breaker has tripped: review is switched off and the trip is remembered.
pub open spec fn tripped(review: ReviewView) -> ReviewView {
    ReviewView { circuit_breaker_tripped: true, enabled: false, ..review }
}

/// Whether the circuit breaker has tripped or should trip now.
pub fn should_trip(state: &SessionState, config: &CircuitBreakerConfig) -> (r: bool)
    ensures
        r == breaker_open(state@.review, config.max_blocks),
{
    if state.review.circuit_breaker_tripped {
        return true;
    }
    state.review.block_count >= config.max_blocks
}

/// Trips the circuit breaker.
pub fn trip(state: &mut SessionState)
    ensures
        final(state)@ == (SessionView { review: tripped(old(state)@.review), ..old(state)@ }),
{
    state.review.circuit_breaker_tripped = true;
    state.review.enabled = false;
}

} // verus!
