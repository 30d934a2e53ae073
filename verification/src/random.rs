use vstd::prelude::*;
use rand::rngs::ThreadRng;
use rand::Rng;

verus! {

/// The thread-local generator of the rand crate, `rand::rngs::ThreadRng`.
/// Nothing is known of what a value of it holds: it is only handed on to the
/// call that draws from it.
#[verifier::external_type_specification]
#[verifier::external_body]
pub struct ExThreadRng(ThreadRng);

/// Draws a seed with `Rng::gen_range` of the rand crate, over the whole range
/// of `u32`, which is never empty, so the call does not panic. The outcome is
/// random: nothing is claimed of it, nor of the state the generator is left
/// in.
#[verifier::external_body]
pub(crate) fn draw_seed(rng: &mut ThreadRng) -> (seed: u32) {
    rng.gen_range(u32::MIN..=u32::MAX)
}

} // verus!
