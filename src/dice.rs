//! The dice: four binary draws, summed.

use vstd::prelude::*;

use rand::Rng;

verus! {

/// The number of `true` draws among `draws`.
pub open spec fn count_true(draws: Seq<bool>) -> int
    decreases draws.len(),
{
    if draws.len() == 0 {
        0
    } else {
        count_true(draws.drop_last()) + if draws.last() { 1int } else { 0int }
    }
}

/// One fair binary draw.
///
/// Relies on `rand::Rng::gen_range` of the thread-local generator
/// (`rand::thread_rng`): the value lies in `[low, high)`, here 0 or 1.
#[verifier::external_body]
pub(crate) fn draw_binary() -> (r: i8)
    ensures
        0 <= r <= 1,
{
    rand::thread_rng().gen_range(0, 2)
}

/// The dice value given by four binary draws: how many of them came up 1.
pub fn sum_draws(draws: [bool; 4]) -> (r: i8)
    ensures
        r as int == count_true(draws@),
        0 <= r <= 4,
{
    let mut total: i8 = 0;
    let mut j: usize = 0;
    while j < 4
        invariant
            0 <= j <= 4,
            total as int == count_true(draws@.subrange(0, j as int)),
            0 <= total <= j,
        decreases 4 - j,
    {
        assert(draws@.subrange(0, j as int + 1).drop_last() == draws@.subrange(0, j as int));
        if draws[j] {
            total = total + 1;
        }
        j = j + 1;
    }
    assert(draws@.subrange(0, 4) == draws@);
    total
}

} // verus!
