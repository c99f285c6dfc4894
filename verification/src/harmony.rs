//! The harmony engine: the anchor of a generation and the colour that each
//! theory gives to an unlocked block at a logical position.

use vstd::prelude::*;
use crate::color::{normalized, Color, HUE_TURN, LEVEL_MAX};
use crate::noise::{noise_fits, Noise};
use crate::store::{
    block_count, colors_wf, first_locked_from, lemma_first_locked, lemma_locked_first,
    lemma_locked_upto, lemma_occupied_upto, locked_blocks, rank, ColorBlock, Palette, SLOT_COUNT,
};
use vstd::arithmetic::div_mod::{lemma_div_is_ordered, lemma_hoist_over_denominator};
use crate::theory::ColorTheories;

verus! {

/// Hue units between neighbouring logical positions of the analogous theory.
pub const ANALOGOUS_STEP: u32 = 10_000;

/// Where the monochrome saturation sweep starts.
pub const MONO_SAT_LOW: u32 = 1000;

/// Where the monochrome saturation sweep ends.
pub const MONO_SAT_HIGH: u32 = 9000;

/// Where the monochrome value sweep starts.
pub const MONO_VAL_LOW: u32 = 2000;

/// Where the monochrome value sweep ends.
pub const MONO_VAL_HIGH: u32 = 9000;

/// Half-width of the band around the anchor's value that neutrals keep to.
pub const NEUTRAL_BAND: u32 = 500;

/// Half-width of the value curve of the neutrals theory.
pub const NEUTRAL_CURVE: u32 = 250;

/// The reference of one generation.
#[derive(Clone, Copy, Debug)]
pub struct Anchor {
    /// The reference hue, saturation and value.
    pub color: Color,
    /// Whether any block is locked.
    pub locked: bool,
    /// The logical position that the progressions are centred on: that of
    /// the first locked block; without a lock, the middle for the analogous
    /// theory and the first position for the others.
    pub position: usize,
    /// Number of occupied blocks.
    pub total: usize,
}

/// `x` scaled by the fraction `num / den`, rounded down.
pub open spec fn spec_part(x: int, num: int, den: int) -> int {
    x * num / den
}

/// `x` brought into `lo ..= hi`.
pub open spec fn clamp_level(x: int, lo: int, hi: int) -> int {
    if x < lo {
        lo
    } else if x > hi {
        hi
    } else {
        x
    }
}

/// A hue brought into one turn. Negative numbers wrap upwards.
pub open spec fn spec_wrap_hue(x: int) -> int {
    x % (HUE_TURN as int)
}

/// The way from hue `first` to hue `hue` along the shorter arc, signed,
/// from minus a half turn up to but not including a half turn.
pub open spec fn hue_gap(hue: int, first: int) -> int {
    (hue - first + 540_000) % 360_000 - 180_000
}

/// The distance between two hues along the shorter arc, at most half a
/// turn.
pub open spec fn hue_distance(a: int, b: int) -> int {
    if hue_gap(a, b) < 0 {
        -hue_gap(a, b)
    } else {
        hue_gap(a, b)
    }
}

/// Sum of the hue gaps between the first block and each block below `end`.
pub open spec fn gap_sum(blocks: Seq<ColorBlock>, end: int) -> int
    decreases end,
{
    if end <= 0 {
        0
    } else {
        gap_sum(blocks, end - 1) + hue_gap(
            blocks[end - 1].color.hue as int,
            blocks[0].color.hue as int,
        )
    }
}

/// Sum of the saturations of the blocks below `end`.
pub open spec fn sat_sum(blocks: Seq<ColorBlock>, end: int) -> int
    decreases end,
{
    if end <= 0 {
        0
    } else {
        sat_sum(blocks, end - 1) + blocks[end - 1].color.sat
    }
}

/// Sum of the values of the blocks below `end`.
pub open spec fn val_sum(blocks: Seq<ColorBlock>, end: int) -> int
    decreases end,
{
    if end <= 0 {
        0
    } else {
        val_sum(blocks, end - 1) + blocks[end - 1].color.val
    }
}

/// The mean hue of the blocks, safe across the wrap at a full turn: the
/// hue of the first block plus the mean of the signed gaps from it to each
/// block, wrapped into one turn. Zero for no blocks.
pub open spec fn mean_hue(blocks: Seq<ColorBlock>) -> int {
    if blocks.len() == 0 {
        0
    } else {
        spec_wrap_hue(blocks[0].color.hue + gap_sum(blocks, blocks.len() as int) / (blocks.len() as int))
    }
}

/// The mean saturation of the blocks, rounded down. Zero for no blocks.
pub open spec fn mean_sat(blocks: Seq<ColorBlock>) -> int {
    if blocks.len() == 0 {
        0
    } else {
        sat_sum(blocks, blocks.len() as int) / (blocks.len() as int)
    }
}

/// The mean value of the blocks, rounded down. Zero for no blocks.
pub open spec fn mean_val(blocks: Seq<ColorBlock>) -> int {
    if blocks.len() == 0 {
        0
    } else {
        val_sum(blocks, blocks.len() as int) / (blocks.len() as int)
    }
}

/// The anchor colour when nothing is locked: the drawn hue, with the
/// theory's fixed levels where it has them and the drawn levels otherwise.
pub open spec fn free_anchor_color(theory: ColorTheories, noise: Noise) -> Color {
    let drawn = normalized(noise.anchor_hue, noise.anchor_sat, noise.anchor_val);
    match theory.spec_base_levels() {
        Some((sat, val)) => Color { hue: drawn.hue, sat, val },
        None => drawn,
    }
}

/// The anchor colour taken from the locked blocks: their mean hue, with
/// the levels of the first locked block or the mean levels, by theory.
pub open spec fn locked_anchor_color(theory: ColorTheories, locked: Seq<ColorBlock>) -> Color {
    if theory.spec_reads_first_locked() {
        Color { hue: mean_hue(locked) as u32, sat: locked[0].color.sat, val: locked[0].color.val }
    } else {
        Color {
            hue: mean_hue(locked) as u32,
            sat: mean_sat(locked) as u32,
            val: mean_val(locked) as u32,
        }
    }
}

/// The anchor of a generation over `slots`.
pub open spec fn spec_anchor(
    slots: Seq<Option<ColorBlock>>,
    theory: ColorTheories,
    noise: Noise,
) -> Anchor {
    let locked = locked_blocks(slots);
    let total = block_count(slots);
    if locked.len() > 0 {
        Anchor {
            color: locked_anchor_color(theory, locked),
            locked: true,
            position: rank(slots, first_locked_from(slots, 0)) as usize,
            total: total as usize,
        }
    } else {
        Anchor {
            color: free_anchor_color(theory, noise),
            locked: false,
            position: if theory == ColorTheories::Analogous {
                (total / 2) as usize
            } else {
                0
            },
            total: total as usize,
        }
    }
}

/// The hue `base + offset`, jittered by `jitter` steps of the theory and
/// wrapped into one turn.
pub open spec fn jittered_hue(theory: ColorTheories, base: int, offset: int, jitter: int) -> u32 {
    spec_wrap_hue(base + offset + jitter * theory.spec_jitter_step()) as u32
}

/// `base` moved inside `base - range ..= base + range` in proportion to
/// where `step` lies in `0 ..= span`, rounded down.
pub open spec fn spec_spread(base: int, range: int, step: int, span: int) -> int {
    (base * span + (2 * step - span) * range) / span
}

/// A grouped theory: the hue of the group `p mod g`, saturation and value
/// spread over the group's members by `p / g`.
pub open spec fn spec_grouped_color(theory: ColorTheories, a: Anchor, p: int, noise: Noise) -> Color {
    let g = theory.spec_group_size() as int;
    let span = (a.total + g - 1) / g - 1;
    let (sat_range, val_range) = theory.spec_variation(a.locked);
    Color {
        hue: jittered_hue(
            theory,
            a.color.hue as int,
            (p % g) * (HUE_TURN as int / g),
            noise.hue@[p] as int,
        ),
        sat: if span > 0 {
            clamp_level(
                spec_spread(a.color.sat as int, sat_range as int, p / g, span),
                0,
                LEVEL_MAX as int,
            ) as u32
        } else {
            a.color.sat
        },
        val: if span > 0 {
            clamp_level(
                spec_spread(a.color.val as int, val_range as int, p / g, span),
                0,
                LEVEL_MAX as int,
            ) as u32
        } else {
            a.color.val
        },
    }
}

/// The analogous theory: ten degrees of hue per position away from the
/// centre, saturation and value varied by the noise around the anchor's.
pub open spec fn spec_analogous_color(a: Anchor, p: int, noise: Noise) -> Color {
    Color {
        hue: jittered_hue(
            ColorTheories::Analogous,
            a.color.hue as int,
            (p - a.position) * ANALOGOUS_STEP,
            noise.hue@[p] as int,
        ),
        sat: clamp_level(a.color.sat + noise.sat@[p], 0, LEVEL_MAX as int) as u32,
        val: clamp_level(a.color.val + noise.val@[p], 0, LEVEL_MAX as int) as u32,
    }
}

/// The place of position `p` on a sweep from `low` to `high` over all
/// positions.
pub open spec fn spec_sweep(low: int, high: int, p: int, total: int) -> int {
    if total > 1 {
        low + spec_part(high - low, p, total - 1)
    } else {
        low
    }
}

/// Seven parts of the sweep and three parts of the anchor's level, kept
/// inside the sweep's ends.
pub open spec fn spec_blend(sweep: int, anchor: int, low: int, high: int) -> int {
    clamp_level((7 * sweep + 3 * anchor) / 10, low, high)
}

/// The monochrome theory: the anchor's hue with a slight jitter, saturation
/// and value swept over the positions and, with a lock, blended with the
/// anchor's levels.
pub open spec fn spec_monochrome_color(a: Anchor, p: int, noise: Noise) -> Color {
    let sat = spec_sweep(MONO_SAT_LOW as int, MONO_SAT_HIGH as int, p, a.total as int);
    let val = spec_sweep(MONO_VAL_LOW as int, MONO_VAL_HIGH as int, p, a.total as int);
    Color {
        hue: jittered_hue(ColorTheories::Monochrome, a.color.hue as int, 0, noise.hue@[p] as int),
        sat: if a.locked {
            spec_blend(sat, a.color.sat as int, MONO_SAT_LOW as int, MONO_SAT_HIGH as int) as u32
        } else {
            sat as u32
        },
        val: if a.locked {
            spec_blend(val, a.color.val as int, MONO_VAL_LOW as int, MONO_VAL_HIGH as int) as u32
        } else {
            val as u32
        },
    }
}

/// A level that rises from zero at the first position to `level` at the
/// anchor and falls from there to zero at the last position.
pub open spec fn spec_peak(level: int, a: Anchor, p: int) -> int {
    if p < a.position {
        spec_part(level, p, a.position as int)
    } else if p == a.position {
        level
    } else {
        level - spec_part(level, p - a.position, a.total - a.position - 1)
    }
}

/// The value of the shadows and lights theories. Towards black (shadows):
/// from white at the first position down to the anchor's value, and from
/// there in even steps that stop one step above black. Towards white
/// (lights): from black up to the anchor's value, and from there in even
/// steps that stop one step below white.
pub open spec fn spec_shade_value(to_light: bool, a: Anchor, p: int) -> int {
    let v = a.color.val as int;
    let k = a.position as int;
    let after = a.total - a.position;
    if p < k {
        if to_light {
            spec_part(v, p, k)
        } else {
            LEVEL_MAX - spec_part(LEVEL_MAX - v, p, k)
        }
    } else if p == k {
        v
    } else if to_light {
        v + spec_part(LEVEL_MAX - v, p - k, after)
    } else {
        v - spec_part(v, p - k, after)
    }
}

/// The shadows theory (`to_light` false) and the lights theory (`to_light`
/// true): the anchor's hue; the value by `spec_shade_value`; the anchor's
/// saturation for shadows, a saturation that peaks at the anchor for
/// lights.
pub open spec fn spec_shade_color(to_light: bool, a: Anchor, p: int) -> Color {
    Color {
        hue: a.color.hue,
        sat: if to_light {
            spec_peak(a.color.sat as int, a, p) as u32
        } else {
            a.color.sat
        },
        val: spec_shade_value(to_light, a, p) as u32,
    }
}

/// The value of the neutrals theory: the anchor's value moved along a
/// slight curve over the positions, inside a narrow band around it.
pub open spec fn spec_neutral_value(a: Anchor, p: int) -> int {
    let v = a.color.val as int;
    let low = if v < NEUTRAL_BAND { 0 } else { v - NEUTRAL_BAND };
    let high = if v + NEUTRAL_BAND > LEVEL_MAX { LEVEL_MAX as int } else { v + NEUTRAL_BAND };
    if a.total > 1 {
        clamp_level(spec_spread(v, NEUTRAL_CURVE as int, p, a.total - 1), low, high)
    } else {
        clamp_level(v - NEUTRAL_CURVE, low, high)
    }
}

/// The neutrals theory: the anchor's hue, a saturation that peaks at the
/// anchor and falls to zero on both sides, a value near the anchor's.
pub open spec fn spec_neutral_color(a: Anchor, p: int) -> Color {
    Color {
        hue: a.color.hue,
        sat: spec_peak(a.color.sat as int, a, p) as u32,
        val: spec_neutral_value(a, p) as u32,
    }
}

/// The colour that a generation gives to the unlocked block at logical
/// position `p`. A lone block without any lock keeps the anchor colour.
pub open spec fn spec_slot_color(theory: ColorTheories, a: Anchor, p: int, noise: Noise) -> Color {
    if a.total == 1 && !a.locked {
        a.color
    } else {
        match theory {
            ColorTheories::Analogous => spec_analogous_color(a, p, noise),
            ColorTheories::Monochrome => spec_monochrome_color(a, p, noise),
            ColorTheories::Shadows => spec_shade_color(false, a, p),
            ColorTheories::Lights => spec_shade_color(true, a, p),
            ColorTheories::Neutrals => spec_neutral_color(a, p),
            _ => spec_grouped_color(theory, a, p, noise),
        }
    }
}

/// The cells after a generation: every unlocked block recoloured by its
/// logical position, every locked block and every empty cell as before.
pub open spec fn spec_generate(
    slots: Seq<Option<ColorBlock>>,
    theory: ColorTheories,
    noise: Noise,
) -> Seq<Option<ColorBlock>> {
    let a = spec_anchor(slots, theory, noise);
    Seq::new(
        slots.len(),
        |i: int|
            if slots[i] is Some && !slots[i]->0.locked {
                Some(
                    ColorBlock {
                        color: spec_slot_color(theory, a, rank(slots, i) as int, noise),
                        locked: false,
                    },
                )
            } else {
                slots[i]
            },
    )
}

/// The product of two small numbers.
fn times(a: i64, b: i64) -> (r: i64)
    requires
        -0x4000_0000 <= a <= 0x4000_0000,
        -0x4000_0000 <= b <= 0x4000_0000,
    ensures
        r == a * b,
{
    assert(-0x1000_0000_0000_0000 <= a * b <= 0x1000_0000_0000_0000) by (nonlinear_arith)
        requires
            -0x4000_0000 <= a <= 0x4000_0000,
            -0x4000_0000 <= b <= 0x4000_0000,
    ;
    a * b
}

/// `x` scaled by `num / den`, rounded down.
fn part(x: u32, num: usize, den: usize) -> (r: u32)
    requires
        0 < den <= SLOT_COUNT,
        num <= den,
    ensures
        r == spec_part(x as int, num as int, den as int),
        r <= x,
{
    assert(0 <= x * num <= x * den && x * den <= 0xFFFF_FFFF * 9) by (nonlinear_arith)
        requires
            0 <= x <= 0xFFFF_FFFF,
            0 <= num <= den <= 9,
    ;
    assert((x * num) / (den as int) <= x) by (nonlinear_arith)
        requires
            0 <= x * num <= x * den,
            den > 0,
    ;
    let product: u64 = (x as u64) * (num as u64);
    (product / (den as u64)) as u32
}

/// A hue brought into one turn.
fn wrap_hue(x: i64) -> (r: u32)
    requires
        -4_000_000_000_000 <= x <= 4_000_000_000_000,
    ensures
        r == spec_wrap_hue(x as int),
        r < HUE_TURN,
{
    let lifted: u64 = (x + 4_320_000_000_000) as u64;
    (lifted % 360_000) as u32
}

/// `num / den` rounded down and brought into `lo ..= hi`.
fn clamp_div(num: i64, den: i64, lo: u32, hi: u32) -> (r: u32)
    requires
        den > 0,
        lo <= hi,
    ensures
        r == clamp_level(num as int / den as int, lo as int, hi as int),
{
    if num < 0 {
        assert((num as int) / (den as int) < 0) by (nonlinear_arith)
            requires
                num < 0,
                den > 0,
        ;
        lo
    } else {
        let q: u64 = (num as u64) / (den as u64);
        if q < lo as u64 {
            lo
        } else if q > hi as u64 {
            hi
        } else {
            q as u32
        }
    }
}

/// `base` spread by `range` in proportion to `step` in `0 ..= span`, brought
/// into `lo ..= hi`.
fn spread(base: u32, range: u32, step: usize, span: usize, lo: u32, hi: u32) -> (r: u32)
    requires
        base <= LEVEL_MAX,
        range <= LEVEL_MAX,
        step <= span,
        0 < span <= SLOT_COUNT,
        lo <= hi,
    ensures
        r == clamp_level(
            spec_spread(base as int, range as int, step as int, span as int),
            lo as int,
            hi as int,
        ),
{
    let lean: i64 = 2 * (step as i64) - (span as i64);
    assert(0 <= base * span <= 90_000 && -90_000 <= lean * range <= 90_000) by (nonlinear_arith)
        requires
            0 <= base <= 10_000,
            0 <= range <= 10_000,
            0 < span <= 9,
            -9 <= lean <= 9,
    ;
    let num: i64 = times(base as i64, span as i64) + times(lean, range as i64);
    clamp_div(num, span as i64, lo, hi)
}

/// The jittered hue of one block.
fn jitter_hue(theory: ColorTheories, base: u32, offset: i64, jitter: i32) -> (r: u32)
    requires
        base < HUE_TURN,
        -1_000_000 <= offset <= 1_000_000,
    ensures
        r == jittered_hue(theory, base as int, offset as int, jitter as int),
        r < HUE_TURN,
{
    let step: i64 = theory.jitter_step();
    wrap_hue(base as i64 + offset + (jitter as i64) * step)
}

/// Where position `p` of `total` falls among groups of `g`: its group is
/// below `g` and its place in the group is inside the span.
pub proof fn lemma_group_bounds(p: int, total: int, g: int)
    requires
        g == 2 || g == 3 || g == 4 || g == 6,
        0 <= p < total <= 9,
    ensures
        0 <= p % g < g,
        0 <= p / g <= (total + g - 1) / g - 1 <= 4,
        0 < 360_000int / g <= 180_000,
        (360_000int / g) * g == 360_000,
{
    if g == 2 {
        assert(0 <= p % 2 < 2 && 0 <= p / 2 <= (total + 2 - 1) / 2 - 1 <= 4);
    } else if g == 3 {
        assert(0 <= p % 3 < 3 && 0 <= p / 3 <= (total + 3 - 1) / 3 - 1 <= 4);
    } else if g == 4 {
        assert(0 <= p % 4 < 4 && 0 <= p / 4 <= (total + 4 - 1) / 4 - 1 <= 4);
    } else {
        assert(0 <= p % 6 < 6 && 0 <= p / 6 <= (total + 6 - 1) / 6 - 1 <= 4);
    }
}

/// The colour of a grouped theory at logical position `p`.
pub fn grouped_color(theory: ColorTheories, a: &Anchor, p: usize, noise: &Noise) -> (c: Color)
    requires
        theory.spec_group_size() > 0,
        a.color.wf(),
        p < a.total <= SLOT_COUNT,
    ensures
        c == spec_grouped_color(theory, *a, p as int, *noise),
        c.wf(),
{
    let base_colors: usize = theory.group_size();
    let colors_per_group: usize = (a.total + base_colors - 1) / base_colors;
    let color_group: usize = p % base_colors;
    let variation_index: usize = p / base_colors;
    let span: usize = colors_per_group - 1;
    let (sat_range, val_range) = theory.variation(a.locked);
    let sector: i64 = (HUE_TURN as usize / base_colors) as i64;
    proof {
        lemma_group_bounds(p as int, a.total as int, base_colors as int);
    }
    let offset: i64 = times(color_group as i64, sector);
    assert(0 <= offset <= 1_000_000) by (nonlinear_arith)
        requires
            offset == color_group * sector,
            0 <= color_group < 6,
            0 <= sector <= 180_000,
    ;
    let hue = jitter_hue(theory, a.color.hue, offset, noise.hue[p]);
    let sat = if span > 0 {
        spread(a.color.sat, sat_range, variation_index, span, 0, LEVEL_MAX)
    } else {
        a.color.sat
    };
    let val = if span > 0 {
        spread(a.color.val, val_range, variation_index, span, 0, LEVEL_MAX)
    } else {
        a.color.val
    };
    Color { hue, sat, val }
}

/// The anchor's level moved by a drawn variation and kept inside zero and
/// one.
fn vary(level: u32, variation: i32) -> (r: u32)
    requires
        level <= LEVEL_MAX,
    ensures
        r == clamp_level(level + variation, 0, LEVEL_MAX as int),
{
    clamp_div(level as i64 + variation as i64, 1, 0, LEVEL_MAX)
}

/// The colour of the analogous theory at logical position `p`.
pub fn analogous_color(a: &Anchor, p: usize, noise: &Noise) -> (c: Color)
    requires
        a.color.wf(),
        p < a.total <= SLOT_COUNT,
        a.position <= SLOT_COUNT,
    ensures
        c == spec_analogous_color(*a, p as int, *noise),
        c.wf(),
{
    let offset: i64 = times(p as i64 - a.position as i64, ANALOGOUS_STEP as i64);
    Color {
        hue: jitter_hue(ColorTheories::Analogous, a.color.hue, offset, noise.hue[p]),
        sat: vary(a.color.sat, noise.sat[p]),
        val: vary(a.color.val, noise.val[p]),
    }
}

/// The place of position `p` on a sweep from `low` to `high`.
fn sweep(low: u32, high: u32, p: usize, total: usize) -> (r: u32)
    requires
        low <= high <= LEVEL_MAX,
        p < total <= SLOT_COUNT,
    ensures
        r == spec_sweep(low as int, high as int, p as int, total as int),
        low <= r <= high,
{
    if total > 1 {
        low + part(high - low, p, total - 1)
    } else {
        low
    }
}

/// Seven parts of the sweep and three parts of the anchor's level.
fn blend(sweep: u32, anchor: u32, low: u32, high: u32) -> (r: u32)
    requires
        sweep <= LEVEL_MAX,
        anchor <= LEVEL_MAX,
        low <= high,
    ensures
        r == spec_blend(sweep as int, anchor as int, low as int, high as int),
        low <= r <= high,
{
    clamp_div(7 * (sweep as i64) + 3 * (anchor as i64), 10, low, high)
}

/// The colour of the monochrome theory at logical position `p`.
pub fn monochrome_color(a: &Anchor, p: usize, noise: &Noise) -> (c: Color)
    requires
        a.color.wf(),
        p < a.total <= SLOT_COUNT,
    ensures
        c == spec_monochrome_color(*a, p as int, *noise),
        c.wf(),
{
    let sat = sweep(MONO_SAT_LOW, MONO_SAT_HIGH, p, a.total);
    let val = sweep(MONO_VAL_LOW, MONO_VAL_HIGH, p, a.total);
    Color {
        hue: jitter_hue(ColorTheories::Monochrome, a.color.hue, 0, noise.hue[p]),
        sat: if a.locked {
            blend(sat, a.color.sat, MONO_SAT_LOW, MONO_SAT_HIGH)
        } else {
            sat
        },
        val: if a.locked {
            blend(val, a.color.val, MONO_VAL_LOW, MONO_VAL_HIGH)
        } else {
            val
        },
    }
}

/// A level that peaks at the anchor and is zero at both ends.
fn peak(level: u32, a: &Anchor, p: usize) -> (r: u32)
    requires
        p < a.total <= SLOT_COUNT,
        a.position < a.total,
    ensures
        r == spec_peak(level as int, *a, p as int),
        r <= level,
{
    if p < a.position {
        part(level, p, a.position)
    } else if p == a.position {
        level
    } else {
        level - part(level, p - a.position, a.total - a.position - 1)
    }
}

/// The value of the shadows and lights theories at logical position `p`.
fn shade_value(to_light: bool, a: &Anchor, p: usize) -> (r: u32)
    requires
        a.color.wf(),
        p < a.total <= SLOT_COUNT,
        a.position < a.total,
    ensures
        r == spec_shade_value(to_light, *a, p as int),
        r <= LEVEL_MAX,
{
    let anchor_val: u32 = a.color.val;
    let blocks_after_anchor: usize = a.total - a.position;
    if p < a.position {
        if to_light {
            part(anchor_val, p, a.position)
        } else {
            LEVEL_MAX - part(LEVEL_MAX - anchor_val, p, a.position)
        }
    } else if p == a.position {
        anchor_val
    } else if to_light {
        anchor_val + part(LEVEL_MAX - anchor_val, p - a.position, blocks_after_anchor)
    } else {
        anchor_val - part(anchor_val, p - a.position, blocks_after_anchor)
    }
}

/// The colour of the shadows or lights theory at logical position `p`.
pub fn shade_color(to_light: bool, a: &Anchor, p: usize) -> (c: Color)
    requires
        a.color.wf(),
        p < a.total <= SLOT_COUNT,
        a.position < a.total,
    ensures
        c == spec_shade_color(to_light, *a, p as int),
        c.wf(),
{
    Color {
        hue: a.color.hue,
        sat: if to_light {
            peak(a.color.sat, a, p)
        } else {
            a.color.sat
        },
        val: shade_value(to_light, a, p),
    }
}

/// The colour of the neutrals theory at logical position `p`.
pub fn neutral_color(a: &Anchor, p: usize) -> (c: Color)
    requires
        a.color.wf(),
        p < a.total <= SLOT_COUNT,
        a.position < a.total,
    ensures
        c == spec_neutral_color(*a, p as int),
        c.wf(),
{
    let anchor_val: u32 = a.color.val;
    let low: u32 = if anchor_val < NEUTRAL_BAND {
        0
    } else {
        anchor_val - NEUTRAL_BAND
    };
    let high: u32 = if anchor_val + NEUTRAL_BAND > LEVEL_MAX {
        LEVEL_MAX
    } else {
        anchor_val + NEUTRAL_BAND
    };
    let val = if a.total > 1 {
        spread(anchor_val, NEUTRAL_CURVE, p, a.total - 1, low, high)
    } else {
        clamp_div(anchor_val as i64 - NEUTRAL_CURVE as i64, 1, low, high)
    };
    Color { hue: a.color.hue, sat: peak(a.color.sat, a, p), val }
}

/// The colour that a generation with `theory` gives to the unlocked block
/// at logical position `p`.
pub fn slot_color(theory: ColorTheories, a: &Anchor, p: usize, noise: &Noise) -> (c: Color)
    requires
        a.color.wf(),
        p < a.total <= SLOT_COUNT,
        a.position < a.total,
    ensures
        c == spec_slot_color(theory, *a, p as int, *noise),
        c.wf(),
{
    if a.total == 1 && !a.locked {
        a.color
    } else {
        match theory {
            ColorTheories::Analogous => analogous_color(a, p, noise),
            ColorTheories::Monochrome => monochrome_color(a, p, noise),
            ColorTheories::Shadows => shade_color(false, a, p),
            ColorTheories::Lights => shade_color(true, a, p),
            ColorTheories::Neutrals => neutral_color(a, p),
            _ => grouped_color(theory, a, p, noise),
        }
    }
}

/// The sums of levels stay below the number of blocks times the full
/// level, and the sum of gaps within half a turn for each block.
pub proof fn lemma_sums(blocks: Seq<ColorBlock>, end: int)
    requires
        0 <= end <= blocks.len(),
        forall|j: int| 0 <= j < blocks.len() ==> (#[trigger] blocks[j]).color.wf(),
    ensures
        0 <= sat_sum(blocks, end) <= end * LEVEL_MAX,
        0 <= val_sum(blocks, end) <= end * LEVEL_MAX,
        -180_000 * end <= gap_sum(blocks, end) < 180_000 * end || end == 0,
        end == 0 ==> gap_sum(blocks, end) == 0,
    decreases end,
{
    if end > 0 {
        lemma_sums(blocks, end - 1);
        assert(blocks[end - 1].color.wf());
        assert(blocks[0].color.wf());
    }
}

/// The means of well-formed colours are the levels and the hue of a
/// well-formed colour.
pub proof fn lemma_means(blocks: Seq<ColorBlock>)
    requires
        forall|j: int| 0 <= j < blocks.len() ==> (#[trigger] blocks[j]).color.wf(),
    ensures
        0 <= mean_hue(blocks) < HUE_TURN,
        0 <= mean_sat(blocks) <= LEVEL_MAX,
        0 <= mean_val(blocks) <= LEVEL_MAX,
{
    let n = blocks.len() as int;
    if n > 0 {
        lemma_sums(blocks, n);
        assert((n * LEVEL_MAX) / n == LEVEL_MAX) by (nonlinear_arith)
            requires
                n > 0,
        ;
        assert(0int / n == 0) by (nonlinear_arith)
            requires
                n > 0,
        ;
        lemma_div_is_ordered(sat_sum(blocks, n), n * LEVEL_MAX, n);
        lemma_div_is_ordered(val_sum(blocks, n), n * LEVEL_MAX, n);
        lemma_div_is_ordered(0, sat_sum(blocks, n), n);
        lemma_div_is_ordered(0, val_sum(blocks, n), n);
    }
}

/// Over well-formed cells the anchor is well formed: its colour is, it
/// counts the occupied blocks, and its position is one of theirs.
pub proof fn lemma_anchor_wf(slots: Seq<Option<ColorBlock>>, theory: ColorTheories, noise: Noise)
    requires
        slots.len() == SLOT_COUNT,
        colors_wf(slots),
    ensures
        ({
            let a = spec_anchor(slots, theory, noise);
            &&& a.color.wf()
            &&& a.total == block_count(slots)
            &&& a.total <= SLOT_COUNT
            &&& a.total > 0 ==> a.position < a.total
            &&& a.locked <==> locked_blocks(slots).len() > 0
        }),
{
    let locked = locked_blocks(slots);
    lemma_locked_upto(slots, SLOT_COUNT as int);
    lemma_locked_first(slots, SLOT_COUNT as int);
    lemma_first_locked(slots, 0);
    lemma_occupied_upto(slots, SLOT_COUNT as int);
    lemma_means(locked);
    if locked.len() > 0 {
        assert(locked[0].color.wf());
        assert(slots[first_locked_from(slots, 0)] is Some);
    }
}

impl ColorBlock {
    /// The mean hue of the blocks, safe across the wrap at a full turn.
    pub fn get_avg_hue(blocks: &Vec<ColorBlock>) -> (h: u32)
        requires
            forall|j: int| 0 <= j < blocks@.len() ==> (#[trigger] blocks@[j]).color.wf(),
        ensures
            h == mean_hue(blocks@),
            h < HUE_TURN,
    {
        let n: usize = blocks.len();
        if n == 0 {
            return 0;
        }
        let first: u32 = blocks[0].color.hue;
        let mut lifted: u128 = 0;
        let mut i: usize = 0;
        while i < n
            invariant
                0 <= i <= n,
                n == blocks@.len(),
                first == blocks@[0].color.hue,
                first < HUE_TURN,
                forall|j: int| 0 <= j < blocks@.len() ==> (#[trigger] blocks@[j]).color.wf(),
                lifted == gap_sum(blocks@, i as int) + 180_000 * i,
                0 <= lifted <= 360_000 * i,
            decreases n - i,
        {
            assert(blocks@[i as int].color.wf());
            let hue: u32 = blocks[i].color.hue;
            let turned: u32 = (hue + 540_000 - first) % 360_000;
            lifted = lifted + turned as u128;
            i += 1;
        }
        let mean: u128 = lifted / (n as u128);
        proof {
            let sum = gap_sum(blocks@, n as int);
            lemma_hoist_over_denominator(sum, 180_000, n as nat);
            assert((sum + 180_000 * n) / (n as int) == sum / (n as int) + 180_000);
            lemma_div_is_ordered(lifted as int, 360_000 * n, n as int);
            assert((360_000 * n) / (n as int) == 360_000) by (nonlinear_arith)
                requires
                    n > 0,
            ;
        }
        ((first as u64 + 180_000 + mean as u64) % 360_000) as u32
    }

    /// The mean saturation of the blocks, rounded down.
    pub fn get_avg_saturation(blocks: &Vec<ColorBlock>) -> (s: u32)
        requires
            forall|j: int| 0 <= j < blocks@.len() ==> (#[trigger] blocks@[j]).color.wf(),
        ensures
            s == mean_sat(blocks@),
            s <= LEVEL_MAX,
    {
        let n: usize = blocks.len();
        if n == 0 {
            return 0;
        }
        let mut sum: u128 = 0;
        let mut i: usize = 0;
        while i < n
            invariant
                0 <= i <= n,
                n == blocks@.len(),
                forall|j: int| 0 <= j < blocks@.len() ==> (#[trigger] blocks@[j]).color.wf(),
                sum == sat_sum(blocks@, i as int),
                0 <= sum <= 10_000 * i,
            decreases n - i,
        {
            assert(blocks@[i as int].color.wf());
            sum = sum + blocks[i].color.sat as u128;
            i += 1;
        }
        proof {
            lemma_div_is_ordered(sum as int, 10_000 * n, n as int);
            assert((10_000 * n) / (n as int) == 10_000) by (nonlinear_arith)
                requires
                    n > 0,
            ;
        }
        (sum / (n as u128)) as u32
    }

    /// The mean value of the blocks, rounded down.
    pub fn get_avg_value(blocks: &Vec<ColorBlock>) -> (v: u32)
        requires
            forall|j: int| 0 <= j < blocks@.len() ==> (#[trigger] blocks@[j]).color.wf(),
        ensures
            v == mean_val(blocks@),
            v <= LEVEL_MAX,
    {
        let n: usize = blocks.len();
        if n == 0 {
            return 0;
        }
        let mut sum: u128 = 0;
        let mut i: usize = 0;
        while i < n
            invariant
                0 <= i <= n,
                n == blocks@.len(),
                forall|j: int| 0 <= j < blocks@.len() ==> (#[trigger] blocks@[j]).color.wf(),
                sum == val_sum(blocks@, i as int),
                0 <= sum <= 10_000 * i,
            decreases n - i,
        {
            assert(blocks@[i as int].color.wf());
            sum = sum + blocks[i].color.val as u128;
            i += 1;
        }
        proof {
            lemma_div_is_ordered(sum as int, 10_000 * n, n as int);
            assert((10_000 * n) / (n as int) == 10_000) by (nonlinear_arith)
                requires
                    n > 0,
            ;
        }
        (sum / (n as u128)) as u32
    }
}

impl Palette {
    /// The logical position of the first locked block, or nothing when no
    /// block is locked.
    pub fn first_locked_position(&self) -> (r: Option<usize>)
        requires
            self.wf(),
        ensures
            r is Some <==> first_locked_from(self@, 0) < SLOT_COUNT,
            r is Some ==> r->0 == rank(self@, first_locked_from(self@, 0)) && r->0 < block_count(
                self@,
            ),
    {
        proof {
            lemma_first_locked(self@, 0);
        }
        let mut i: usize = 0;
        let mut p: usize = 0;
        while i < SLOT_COUNT
            invariant
                0 <= i <= SLOT_COUNT,
                self.wf(),
                p == rank(self@, i as int),
                p <= i,
                first_locked_from(self@, i as int) == first_locked_from(self@, 0),
            decreases SLOT_COUNT - i,
        {
            match self.get_block(i) {
                Some(block) => {
                    if block.locked {
                        proof {
                            lemma_occupied_upto(self@, SLOT_COUNT as int);
                            assert(self@[i as int] is Some);
                        }
                        return Some(p);
                    }
                    p += 1;
                },
                None => {},
            }
            i += 1;
        }
        None
    }

    /// The anchor of a generation with `theory`: from the locked blocks
    /// when there are any, else from the colour that the noise holds.
    pub fn anchor(&self, theory: ColorTheories, noise: &Noise) -> (a: Anchor)
        requires
            self.wf(),
        ensures
            a == spec_anchor(self@, theory, *noise),
            a.color.wf(),
            a.total == block_count(self@),
            a.total <= SLOT_COUNT,
            a.total > 0 ==> a.position < a.total,
            a.locked <==> locked_blocks(self@).len() > 0,
    {
        let locked_blocks = self.get_locked_blocks();
        let total = self.block_count();
        proof {
            lemma_locked_upto(self@, SLOT_COUNT as int);
            lemma_locked_first(self@, SLOT_COUNT as int);
        }
        if locked_blocks.len() > 0 {
            let base_hue = ColorBlock::get_avg_hue(&locked_blocks);
            let (base_sat, base_val) = if theory.reads_first_locked() {
                (locked_blocks[0].color.sat, locked_blocks[0].color.val)
            } else {
                (
                    ColorBlock::get_avg_saturation(&locked_blocks),
                    ColorBlock::get_avg_value(&locked_blocks),
                )
            };
            let position = match self.first_locked_position() {
                Some(p) => p,
                None => 0,
            };
            Anchor {
                color: Color { hue: base_hue, sat: base_sat, val: base_val },
                locked: true,
                position,
                total,
            }
        } else {
            let drawn = Color::new(noise.anchor_hue, noise.anchor_sat, noise.anchor_val);
            let color = match theory.base_levels() {
                Some((sat, val)) => Color { hue: drawn.hue, sat, val },
                None => drawn,
            };
            let position = match theory {
                ColorTheories::Analogous => total / 2,
                _ => 0,
            };
            Anchor { color, locked: false, position, total }
        }
    }

    /// Recolours every unlocked block by `theory`, with the random draws
    /// taken from `noise`. Locked blocks and empty cells stay as they are.
    pub fn generate_with(&mut self, theory: ColorTheories, noise: &Noise)
        requires
            old(self).wf(),
        ensures
            final(self).wf(),
            final(self)@ == spec_generate(old(self)@, theory, *noise),
            final(self).selected() == old(self).selected(),
            forall|i: int|
                0 <= i < SLOT_COUNT && (#[trigger] old(self)@[i]) is Some && old(self)@[i]->0.locked
                    ==> final(self)@[i] == old(self)@[i],
            forall|i: int|
                0 <= i < SLOT_COUNT ==> ((#[trigger] final(self)@[i]) is Some) == (old(
                    self,
                )@[i] is Some),
    {
        let a = self.anchor(theory, noise);
        let ghost before = self@;
        let ghost target = spec_generate(before, theory, *noise);
        proof {
            lemma_occupied_upto(before, SLOT_COUNT as int);
        }
        let mut i: usize = 0;
        let mut p: usize = 0;
        while i < SLOT_COUNT
            invariant
                0 <= i <= SLOT_COUNT,
                self.wf(),
                self.selected() == old(self).selected(),
                before == old(self)@,
                before.len() == SLOT_COUNT,
                target == spec_generate(before, theory, *noise),
                a == spec_anchor(before, theory, *noise),
                a.color.wf(),
                a.total == block_count(before),
                a.total <= SLOT_COUNT,
                a.total > 0 ==> a.position < a.total,
                p == rank(before, i as int),
                forall|j: int|
                    0 <= j < SLOT_COUNT && (#[trigger] before[j]) is Some ==> rank(before, j)
                        < block_count(before),
                forall|j: int| 0 <= j < i ==> self@[j] == #[trigger] target[j],
                forall|j: int| i <= j < SLOT_COUNT ==> #[trigger] self@[j] == before[j],
            decreases SLOT_COUNT - i,
        {
            match self.get_block(i) {
                Some(block) => {
                    assert(before[i as int] is Some);
                    if !block.locked {
                        let color = slot_color(theory, &a, p, noise);
                        self.paint(i, color);
                    }
                    p += 1;
                },
                None => {},
            }
            i += 1;
        }
        assert(self@ =~= target);
    }

    /// The analogous theory: hues ten degrees apart around the centre.
    pub fn generate_analogous(&mut self, noise: &Noise)
        requires
            old(self).wf(),
        ensures
            final(self).wf(),
            final(self)@ == spec_generate(old(self)@, ColorTheories::Analogous, *noise),
            final(self).selected() == old(self).selected(),
    {
        self.generate_with(ColorTheories::Analogous, noise)
    }

    /// The complementary theory: two hues half a turn apart.
    pub fn generate_complementary(&mut self, noise: &Noise)
        requires
            old(self).wf(),
        ensures
            final(self).wf(),
            final(self)@ == spec_generate(old(self)@, ColorTheories::Complementary, *noise),
            final(self).selected() == old(self).selected(),
    {
        self.generate_with(ColorTheories::Complementary, noise)
    }

    /// The triad theory: three hues a third of a turn apart.
    pub fn generate_triad(&mut self, noise: &Noise)
        requires
            old(self).wf(),
        ensures
            final(self).wf(),
            final(self)@ == spec_generate(old(self)@, ColorTheories::Triad, *noise),
            final(self).selected() == old(self).selected(),
    {
        self.generate_with(ColorTheories::Triad, noise)
    }

    /// The square theory: four hues a quarter turn apart, with the wider
    /// jitter and without variation inside a group.
    pub fn generate_square(&mut self, noise: &Noise)
        requires
            old(self).wf(),
        ensures
            final(self).wf(),
            final(self)@ == spec_generate(old(self)@, ColorTheories::Square, *noise),
            final(self).selected() == old(self).selected(),
    {
        self.generate_with(ColorTheories::Square, noise)
    }

    /// The tetrad theory: four hues a quarter turn apart.
    pub fn generate_tetrad(&mut self, noise: &Noise)
        requires
            old(self).wf(),
        ensures
            final(self).wf(),
            final(self)@ == spec_generate(old(self)@, ColorTheories::Tetrad, *noise),
            final(self).selected() == old(self).selected(),
    {
        self.generate_with(ColorTheories::Tetrad, noise)
    }

    /// The hexad theory: six hues a sixth of a turn apart.
    pub fn generate_hexad(&mut self, noise: &Noise)
        requires
            old(self).wf(),
        ensures
            final(self).wf(),
            final(self)@ == spec_generate(old(self)@, ColorTheories::Hexad, *noise),
            final(self).selected() == old(self).selected(),
    {
        self.generate_with(ColorTheories::Hexad, noise)
    }

    /// The monochrome theory: one hue, saturation and value swept over the
    /// positions.
    pub fn generate_monochrome(&mut self, noise: &Noise)
        requires
            old(self).wf(),
        ensures
            final(self).wf(),
            final(self)@ == spec_generate(old(self)@, ColorTheories::Monochrome, *noise),
            final(self).selected() == old(self).selected(),
    {
        self.generate_with(ColorTheories::Monochrome, noise)
    }

    /// The lights theory when `to_light` holds, the shadows theory when it
    /// does not.
    pub fn generate_shades(&mut self, to_light: bool, noise: &Noise)
        requires
            old(self).wf(),
        ensures
            final(self).wf(),
            final(self)@ == spec_generate(
                old(self)@,
                if to_light {
                    ColorTheories::Lights
                } else {
                    ColorTheories::Shadows
                },
                *noise,
            ),
            final(self).selected() == old(self).selected(),
    {
        if to_light {
            self.generate_with(ColorTheories::Lights, noise)
        } else {
            self.generate_with(ColorTheories::Shadows, noise)
        }
    }

    /// The neutrals theory: one hue, desaturating away from the anchor.
    pub fn generate_neutrals(&mut self, noise: &Noise)
        requires
            old(self).wf(),
        ensures
            final(self).wf(),
            final(self)@ == spec_generate(old(self)@, ColorTheories::Neutrals, *noise),
            final(self).selected() == old(self).selected(),
    {
        self.generate_with(ColorTheories::Neutrals, noise)
    }

    /// Draws the noise of one generation and recolours every unlocked block
    /// by `theory`. Whatever is drawn, the result is that of `generate_with`
    /// for some noise inside the theory's ranges; locked blocks keep their
    /// colour and no cell changes between empty and occupied.
    pub fn generate(&mut self, theory: ColorTheories)
        requires
            old(self).wf(),
        ensures
            final(self).wf(),
            final(self).selected() == old(self).selected(),
            exists|noise: Noise|
                noise_fits(theory, locked_blocks(old(self)@).len() > 0, noise) && final(self)@
                    == #[trigger] spec_generate(old(self)@, theory, noise),
            forall|i: int|
                0 <= i < SLOT_COUNT && (#[trigger] old(self)@[i]) is Some && old(self)@[i]->0.locked
                    ==> final(self)@[i] == old(self)@[i],
            forall|i: int|
                0 <= i < SLOT_COUNT ==> ((#[trigger] final(self)@[i]) is Some) == (old(
                    self,
                )@[i] is Some),
    {
        let locked = self.get_locked_blocks().len() > 0;
        let noise = Noise::draw(theory, locked);
        match theory {
            ColorTheories::Analogous => self.generate_analogous(&noise),
            ColorTheories::Complementary => self.generate_complementary(&noise),
            ColorTheories::Triad => self.generate_triad(&noise),
            ColorTheories::Square => self.generate_square(&noise),
            ColorTheories::Tetrad => self.generate_tetrad(&noise),
            ColorTheories::Hexad => self.generate_hexad(&noise),
            ColorTheories::Monochrome => self.generate_monochrome(&noise),
            ColorTheories::Shadows => self.generate_shades(false, &noise),
            ColorTheories::Lights => self.generate_shades(true, &noise),
            ColorTheories::Neutrals => self.generate_neutrals(&noise),
        }
        assert(self@ == spec_generate(old(self)@, theory, noise));
    }
}

} // verus!
