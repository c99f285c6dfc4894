//! The random draws that one generation consumes, and the calls that
//! produce them.

use vstd::prelude::*;
use crate::color::{HUE_TURN, LEVEL_MAX};
use crate::theory::ColorTheories;

verus! {

/// Everything random in one generation, drawn ahead of the computation so
/// that the computation itself is a function of its arguments.
#[derive(Clone, Copy, Debug)]
pub struct Noise {
    /// Hue of the drawn anchor colour, used when no block is locked.
    pub anchor_hue: u32,
    /// Saturation of the drawn anchor colour.
    pub anchor_sat: u32,
    /// Value of the drawn anchor colour.
    pub anchor_val: u32,
    /// Hue jitter by logical position, in jitter steps.
    pub hue: [i32; 9],
    /// Saturation variation by logical position, in ten-thousandths.
    pub sat: [i32; 9],
    /// Value variation by logical position, in ten-thousandths.
    pub val: [i32; 9],
}

/// The square theory draws the anchor's saturation from this level on.
pub const SQUARE_SAT_LOW: u32 = 5500;

/// The square theory draws the anchor's saturation below this level.
pub const SQUARE_SAT_HIGH: u32 = 8000;

/// The square theory draws the anchor's value from this level on.
pub const SQUARE_VAL_LOW: u32 = 5000;

/// The square theory draws the anchor's value below this level.
pub const SQUARE_VAL_HIGH: u32 = 7500;

/// `x` lies in `-bound .. bound`, or is zero where the bound is zero.
pub open spec fn within(x: int, bound: int) -> bool {
    if bound <= 0 {
        x == 0
    } else {
        -bound <= x < bound
    }
}

/// The ranges that drawn noise keeps for `theory`: the anchor hue below a
/// full turn; the anchor levels at most one, and inside the square theory's
/// bands for that theory; each hue jitter inside the theory's bound; each
/// saturation and value variation inside the analogous theory's variation,
/// and zero for every other theory.
pub open spec fn noise_fits(theory: ColorTheories, locked: bool, noise: Noise) -> bool {
    &&& noise.anchor_hue < HUE_TURN
    &&& noise.anchor_sat <= LEVEL_MAX
    &&& noise.anchor_val <= LEVEL_MAX
    &&& theory == ColorTheories::Square ==> {
        &&& SQUARE_SAT_LOW <= noise.anchor_sat < SQUARE_SAT_HIGH
        &&& SQUARE_VAL_LOW <= noise.anchor_val < SQUARE_VAL_HIGH
    }
    &&& forall|p: int|
        0 <= p < 9 ==> within(#[trigger] noise.hue@[p] as int, theory.spec_jitter_bound() as int)
    &&& forall|p: int|
        0 <= p < 9 ==> within(
            #[trigger] noise.sat@[p] as int,
            if theory == ColorTheories::Analogous {
                theory.spec_variation(locked).0 as int
            } else {
                0
            },
        )
    &&& forall|p: int|
        0 <= p < 9 ==> within(
            #[trigger] noise.val@[p] as int,
            if theory == ColorTheories::Analogous {
                theory.spec_variation(locked).1 as int
            } else {
                0
            },
        )
}

/// The thread-local generator of the `rand` crate.
#[verifier::external_type_specification]
#[verifier::external_body]
pub struct ExThreadRng(rand::rngs::ThreadRng);

/// `rand::rng` hands out a handle to the thread's generator. Nothing is
/// claimed of it.
pub assume_specification[ rand::rng ]() -> (generator: rand::rngs::ThreadRng);

/// `rand::Rng::random_range` on the half-open range `low .. high`: the
/// result lies in the range. The call panics on an empty range, which the
/// precondition excludes. Which value comes is not said.
#[verifier::external_body]
fn random_range(generator: &mut rand::rngs::ThreadRng, low: i32, high: i32) -> (r: i32)
    requires
        low < high,
    ensures
        low <= r < high,
{
    rand::Rng::random_range(generator, low..high)
}

/// One draw from `-bound .. bound`; zero without a draw where the bound is
/// not positive.
fn draw_within(generator: &mut rand::rngs::ThreadRng, bound: i32) -> (r: i32)
    ensures
        within(r as int, bound as int),
{
    if bound <= 0 {
        0
    } else {
        random_range(generator, -bound, bound)
    }
}

/// One draw from `low .. high` of unsigned levels.
fn draw_level(generator: &mut rand::rngs::ThreadRng, low: u32, high: u32) -> (r: u32)
    requires
        low < high <= 1_000_000,
    ensures
        low <= r < high,
{
    let drawn: i32 = random_range(generator, low as i32, high as i32);
    drawn as u32
}

impl Noise {
    /// Noise without any variation around the given anchor colour.
    pub fn still(anchor_hue: u32, anchor_sat: u32, anchor_val: u32) -> (noise: Noise)
        ensures
            noise.anchor_hue == anchor_hue,
            noise.anchor_sat == anchor_sat,
            noise.anchor_val == anchor_val,
            forall|p: int| 0 <= p < 9 ==> #[trigger] noise.hue@[p] == 0,
            forall|p: int| 0 <= p < 9 ==> #[trigger] noise.sat@[p] == 0,
            forall|p: int| 0 <= p < 9 ==> #[trigger] noise.val@[p] == 0,
    {
        Noise { anchor_hue, anchor_sat, anchor_val, hue: [0; 9], sat: [0; 9], val: [0; 9] }
    }

    /// Draws the noise of one generation with `theory`; `locked` says
    /// whether any block is locked.
    pub fn draw(theory: ColorTheories, locked: bool) -> (noise: Noise)
        ensures
            noise_fits(theory, locked, noise),
    {
        let mut generator = rand::rng();
        let bound = theory.jitter_bound();
        let (sat_bound, val_bound) = match theory {
            ColorTheories::Analogous => theory.variation(locked),
            _ => (0u32, 0u32),
        };
        let anchor_hue = draw_level(&mut generator, 0, HUE_TURN);
        let (anchor_sat, anchor_val) = match theory {
            ColorTheories::Square => (
                draw_level(&mut generator, SQUARE_SAT_LOW, SQUARE_SAT_HIGH),
                draw_level(&mut generator, SQUARE_VAL_LOW, SQUARE_VAL_HIGH),
            ),
            _ => (
                draw_level(&mut generator, 0, LEVEL_MAX + 1),
                draw_level(&mut generator, 0, LEVEL_MAX + 1),
            ),
        };
        let mut noise = Noise::still(anchor_hue, anchor_sat, anchor_val);
        let mut p: usize = 0;
        while p < 9
            invariant
                0 <= p <= 9,
                bound == theory.spec_jitter_bound(),
                sat_bound == (if theory == ColorTheories::Analogous {
                    theory.spec_variation(locked).0
                } else {
                    0u32
                }),
                val_bound == (if theory == ColorTheories::Analogous {
                    theory.spec_variation(locked).1
                } else {
                    0u32
                }),
                noise.anchor_hue == anchor_hue,
                noise.anchor_sat == anchor_sat,
                noise.anchor_val == anchor_val,
                forall|q: int|
                    0 <= q < p ==> within(#[trigger] noise.hue@[q] as int, bound as int),
                forall|q: int|
                    0 <= q < p ==> within(#[trigger] noise.sat@[q] as int, sat_bound as int),
                forall|q: int|
                    0 <= q < p ==> within(#[trigger] noise.val@[q] as int, val_bound as int),
            decreases 9 - p,
        {
            let hue = draw_within(&mut generator, bound);
            let sat = draw_within(&mut generator, sat_bound as i32);
            let val = draw_within(&mut generator, val_bound as i32);
            noise.hue[p] = hue;
            noise.sat[p] = sat;
            noise.val[p] = val;
            p += 1;
        }
        noise
    }
}

} // verus!
