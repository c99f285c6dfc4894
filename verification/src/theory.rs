//! The colour-harmony theories and the constants each one works with.

use vstd::prelude::*;

verus! {

/// The harmony rule that a generation applies.
#[derive(Copy, Clone, Debug, PartialEq, Eq, Structural)]
pub enum ColorTheories {
    Analogous,
    Complementary,
    Triad,
    Square,
    Tetrad,
    Hexad,
    Monochrome,
    Shadows,
    Lights,
    Neutrals,
}

/// Number of theories.
pub const THEORY_COUNT: usize = 10;

/// The theories in the order in which a selector lists them.
pub open spec fn spec_theories() -> Seq<ColorTheories> {
    seq![
        ColorTheories::Analogous,
        ColorTheories::Complementary,
        ColorTheories::Triad,
        ColorTheories::Square,
        ColorTheories::Tetrad,
        ColorTheories::Hexad,
        ColorTheories::Monochrome,
        ColorTheories::Shadows,
        ColorTheories::Lights,
        ColorTheories::Neutrals,
    ]
}

impl ColorTheories {
    /// Number of base hues that the theory spreads evenly over the wheel;
    /// zero for the theories that do not work in groups.
    pub open spec fn spec_group_size(self) -> usize {
        match self {
            ColorTheories::Complementary => 2,
            ColorTheories::Triad => 3,
            ColorTheories::Square => 4,
            ColorTheories::Tetrad => 4,
            ColorTheories::Hexad => 6,
            _ => 0,
        }
    }

    /// Hue jitter is drawn from `-bound .. bound`, in jitter steps.
    pub open spec fn spec_jitter_bound(self) -> i32 {
        match self {
            ColorTheories::Analogous => 3,
            ColorTheories::Square => 8,
            ColorTheories::Monochrome => 2,
            ColorTheories::Shadows => 0,
            ColorTheories::Lights => 0,
            ColorTheories::Neutrals => 0,
            _ => 4,
        }
    }

    /// Hue units in one jitter step: a degree, but three tenths of a degree
    /// for monochrome.
    pub open spec fn spec_jitter_step(self) -> i64 {
        match self {
            ColorTheories::Monochrome => 300,
            _ => 1000,
        }
    }

    /// Saturation and value of the anchor when no block is locked, for the
    /// theories that fix them; the others take them from the drawn colour.
    pub open spec fn spec_base_levels(self) -> Option<(u32, u32)> {
        match self {
            ColorTheories::Analogous => Some((6500u32, 6500u32)),
            ColorTheories::Complementary => Some((7000u32, 6500u32)),
            ColorTheories::Triad => Some((7200u32, 6800u32)),
            ColorTheories::Tetrad => Some((6800u32, 6300u32)),
            ColorTheories::Hexad => Some((6500u32, 6000u32)),
            _ => None,
        }
    }

    /// Half-width of the saturation and of the value variation: within a
    /// group for the grouped theories, of the random draw for analogous.
    pub open spec fn spec_variation(self, locked: bool) -> (u32, u32) {
        match self {
            ColorTheories::Analogous => if locked {
                (500u32, 500u32)
            } else {
                (1000u32, 1000u32)
            },
            ColorTheories::Complementary => if locked {
                (1200u32, 1500u32)
            } else {
                (1800u32, 2200u32)
            },
            ColorTheories::Triad => if locked {
                (1200u32, 1500u32)
            } else {
                (1800u32, 2200u32)
            },
            ColorTheories::Tetrad => if locked {
                (1200u32, 1500u32)
            } else {
                (1600u32, 2000u32)
            },
            ColorTheories::Hexad => if locked {
                (1000u32, 1200u32)
            } else {
                (1400u32, 1800u32)
            },
            _ => (0u32, 0u32),
        }
    }

    /// With locked blocks, these theories take saturation and value from the
    /// first locked block; the others average over all locked blocks.
    pub open spec fn spec_reads_first_locked(self) -> bool {
        match self {
            ColorTheories::Monochrome => true,
            ColorTheories::Shadows => true,
            ColorTheories::Lights => true,
            ColorTheories::Neutrals => true,
            _ => false,
        }
    }

    /// Number of base hues of a grouped theory, zero for the others.
    pub fn group_size(self) -> (g: usize)
        ensures
            g == self.spec_group_size(),
    {
        match self {
            ColorTheories::Complementary => 2,
            ColorTheories::Triad => 3,
            ColorTheories::Square => 4,
            ColorTheories::Tetrad => 4,
            ColorTheories::Hexad => 6,
            _ => 0,
        }
    }

    /// Bound of the hue jitter, in jitter steps.
    pub fn jitter_bound(self) -> (b: i32)
        ensures
            b == self.spec_jitter_bound(),
    {
        match self {
            ColorTheories::Analogous => 3,
            ColorTheories::Square => 8,
            ColorTheories::Monochrome => 2,
            ColorTheories::Shadows => 0,
            ColorTheories::Lights => 0,
            ColorTheories::Neutrals => 0,
            _ => 4,
        }
    }

    /// Hue units in one jitter step.
    pub fn jitter_step(self) -> (s: i64)
        ensures
            s == self.spec_jitter_step(),
    {
        match self {
            ColorTheories::Monochrome => 300,
            _ => 1000,
        }
    }

    /// The fixed anchor saturation and value, for the theories that have them.
    pub fn base_levels(self) -> (l: Option<(u32, u32)>)
        ensures
            l == self.spec_base_levels(),
    {
        match self {
            ColorTheories::Analogous => Some((6500u32, 6500u32)),
            ColorTheories::Complementary => Some((7000u32, 6500u32)),
            ColorTheories::Triad => Some((7200u32, 6800u32)),
            ColorTheories::Tetrad => Some((6800u32, 6300u32)),
            ColorTheories::Hexad => Some((6500u32, 6000u32)),
            _ => None,
        }
    }

    /// Half-width of the saturation and of the value variation.
    pub fn variation(self, locked: bool) -> (v: (u32, u32))
        ensures
            v == self.spec_variation(locked),
    {
        match self {
            ColorTheories::Analogous => if locked {
                (500u32, 500u32)
            } else {
                (1000u32, 1000u32)
            },
            ColorTheories::Complementary => if locked {
                (1200u32, 1500u32)
            } else {
                (1800u32, 2200u32)
            },
            ColorTheories::Triad => if locked {
                (1200u32, 1500u32)
            } else {
                (1800u32, 2200u32)
            },
            ColorTheories::Tetrad => if locked {
                (1200u32, 1500u32)
            } else {
                (1600u32, 2000u32)
            },
            ColorTheories::Hexad => if locked {
                (1000u32, 1200u32)
            } else {
                (1400u32, 1800u32)
            },
            _ => (0u32, 0u32),
        }
    }

    /// Whether the first locked block alone gives the anchor's levels.
    pub fn reads_first_locked(self) -> (b: bool)
        ensures
            b == self.spec_reads_first_locked(),
    {
        match self {
            ColorTheories::Monochrome => true,
            ColorTheories::Shadows => true,
            ColorTheories::Lights => true,
            ColorTheories::Neutrals => true,
            _ => false,
        }
    }

    /// The theories in the order in which a selector lists them.
    pub fn all() -> (r: Vec<ColorTheories>)
        ensures
            r@ == spec_theories(),
            r@.len() == THEORY_COUNT,
    {
        vec![
            ColorTheories::Analogous,
            ColorTheories::Complementary,
            ColorTheories::Triad,
            ColorTheories::Square,
            ColorTheories::Tetrad,
            ColorTheories::Hexad,
            ColorTheories::Monochrome,
            ColorTheories::Shadows,
            ColorTheories::Lights,
            ColorTheories::Neutrals,
        ]
    }

    /// The theory at place `index` of the selector's list.
    pub fn from_index(index: usize) -> (t: Option<ColorTheories>)
        ensures
            t == (if index < THEORY_COUNT {
                Some(spec_theories()[index as int])
            } else {
                None
            }),
    {
        match index {
            0 => Some(ColorTheories::Analogous),
            1 => Some(ColorTheories::Complementary),
            2 => Some(ColorTheories::Triad),
            3 => Some(ColorTheories::Square),
            4 => Some(ColorTheories::Tetrad),
            5 => Some(ColorTheories::Hexad),
            6 => Some(ColorTheories::Monochrome),
            7 => Some(ColorTheories::Shadows),
            8 => Some(ColorTheories::Lights),
            9 => Some(ColorTheories::Neutrals),
            _ => None,
        }
    }
}

} // verus!
