use vstd::prelude::*;

verus! {

/// Relies on `rand::Rng::gen_range` over `thread_rng()`: a uniform draw in
/// `0..bound`, which panics only on an empty range.
#[verifier::external_body]
fn rand_below(bound: u16) -> (r: u16)
    requires
        bound >= 1,
    ensures
        r < bound,
{
    rand::Rng::gen_range(&mut rand::thread_rng(), 0..bound)
}

/// A random draw below `max(1, bound)`: the game's dice.
pub fn rand_int(bound: u16) -> (r: u16)
    ensures
        r < if bound == 0 { 1 } else { bound },
{
    rand_below(if bound == 0 { 1 } else { bound })
}

} // verus!
