//! What holds of every generation: locked blocks stay, and the hues and
//! values that the theories produce keep their stated distances and order.

use vstd::prelude::*;
use vstd::arithmetic::div_mod::{lemma_div_is_ordered, lemma_hoist_over_denominator};
use crate::color::{Color, LEVEL_MAX};
use crate::harmony::{
    hue_distance, hue_gap, spec_anchor, spec_generate, spec_part, spec_shade_value,
    spec_slot_color, spec_wrap_hue, Anchor,
};
use crate::noise::{noise_fits, Noise};
use crate::store::{
    block_count, colors_wf, first_locked_from, lemma_all_occupied, lemma_count_update,
    lemma_first_empty, lemma_first_locked, lemma_locked_first, lemma_occupied_upto,
    locked_blocks, occupied, rank, spec_add, spec_del, ColorBlock, MIN_BLOCKS, SLOT_COUNT,
};
use crate::theory::ColorTheories;

verus! {

/// One change of the number of blocks: adding a block, or removing the
/// block at a logical position.
pub enum StoreOp {
    Add,
    Remove(usize),
}

/// The cells after a run of additions and removals, applied in order.
pub open spec fn apply_ops(slots: Seq<Option<ColorBlock>>, ops: Seq<StoreOp>) -> Seq<
    Option<ColorBlock>,
>
    decreases ops.len(),
{
    if ops.len() == 0 {
        slots
    } else {
        let before = apply_ops(slots, ops.drop_last());
        match ops.last() {
            StoreOp::Add => spec_add(before),
            StoreOp::Remove(pos) => spec_del(before, pos as nat),
        }
    }
}

/// Adding occupies one more cell unless all nine are occupied, and then
/// changes nothing.
pub proof fn lemma_add_count(slots: Seq<Option<ColorBlock>>)
    requires
        slots.len() == SLOT_COUNT,
    ensures
        spec_add(slots).len() == SLOT_COUNT,
        block_count(slots) <= SLOT_COUNT,
        block_count(slots) < SLOT_COUNT ==> block_count(spec_add(slots)) == block_count(slots) + 1,
        block_count(slots) == SLOT_COUNT ==> spec_add(slots) == slots,
{
    let at = crate::store::first_empty_from(slots, 0);
    lemma_first_empty(slots, 0);
    lemma_occupied_upto(slots, SLOT_COUNT as int);
    if at < SLOT_COUNT {
        let fresh = Some(ColorBlock { color: Color::spec_neutral(), locked: false });
        lemma_count_update(slots, at, fresh, SLOT_COUNT as int);
        lemma_occupied_upto(slots.update(at, fresh), SLOT_COUNT as int);
    } else {
        lemma_all_occupied(slots, SLOT_COUNT as int);
    }
}

/// Removing empties one cell when more than three are occupied and the
/// position exists, and else changes nothing.
pub proof fn lemma_del_count(slots: Seq<Option<ColorBlock>>, pos: nat)
    requires
        slots.len() == SLOT_COUNT,
    ensures
        spec_del(slots, pos).len() == SLOT_COUNT,
        block_count(slots) > MIN_BLOCKS && pos < block_count(slots) ==> block_count(
            spec_del(slots, pos),
        ) == block_count(slots) - 1,
        block_count(slots) <= MIN_BLOCKS || pos >= block_count(slots) ==> spec_del(slots, pos)
            == slots,
{
    lemma_occupied_upto(slots, SLOT_COUNT as int);
    if block_count(slots) > MIN_BLOCKS && pos < block_count(slots) {
        lemma_count_update(slots, occupied(slots)[pos as int], None, SLOT_COUNT as int);
    }
}

/// From three to nine occupied blocks, any run of additions and removals,
/// in any order and at any positions, leaves from three to nine occupied
/// blocks.
pub proof fn lemma_count_stays(slots: Seq<Option<ColorBlock>>, ops: Seq<StoreOp>)
    requires
        slots.len() == SLOT_COUNT,
        MIN_BLOCKS <= block_count(slots) <= SLOT_COUNT,
    ensures
        apply_ops(slots, ops).len() == SLOT_COUNT,
        MIN_BLOCKS <= block_count(apply_ops(slots, ops)) <= SLOT_COUNT,
    decreases ops.len(),
{
    if ops.len() > 0 {
        lemma_count_stays(slots, ops.drop_last());
        let before = apply_ops(slots, ops.drop_last());
        match ops.last() {
            StoreOp::Add => lemma_add_count(before),
            StoreOp::Remove(pos) => lemma_del_count(before, pos as nat),
        }
    }
}

/// The colour at logical position `p` after a generation. Only meaningful
/// for positions below the number of occupied blocks.
pub open spec fn color_at(
    slots: Seq<Option<ColorBlock>>,
    theory: ColorTheories,
    noise: Noise,
    p: int,
) -> Color {
    spec_generate(slots, theory, noise)[occupied(slots)[p]]->0.color
}

/// A locked block has the same colour and lock after a generation as
/// before it, whatever the theory and the noise.
pub proof fn lemma_locked_kept(
    slots: Seq<Option<ColorBlock>>,
    theory: ColorTheories,
    noise: Noise,
    i: int,
)
    requires
        0 <= i < slots.len(),
        slots[i] is Some,
        slots[i]->0.locked,
    ensures
        spec_generate(slots, theory, noise)[i] == slots[i],
{
}

/// A generation leaves at each logical position the block that was there
/// when it is locked, and else an unlocked block with the colour that the
/// theory gives to that position.
pub proof fn lemma_generate_at(
    slots: Seq<Option<ColorBlock>>,
    theory: ColorTheories,
    noise: Noise,
    p: int,
)
    requires
        slots.len() == SLOT_COUNT,
        0 <= p < block_count(slots),
    ensures
        ({
            let i = occupied(slots)[p];
            let a = spec_anchor(slots, theory, noise);
            &&& 0 <= i < SLOT_COUNT
            &&& slots[i] is Some
            &&& rank(slots, i) == p
            &&& spec_generate(slots, theory, noise)[i] == (if slots[i]->0.locked {
                slots[i]
            } else {
                Some(ColorBlock { color: spec_slot_color(theory, a, p, noise), locked: false })
            })
        }),
{
    lemma_occupied_upto(slots, SLOT_COUNT as int);
}

/// Where no block is locked, no occupied cell holds a locked block.
pub proof fn lemma_no_lock(slots: Seq<Option<ColorBlock>>)
    requires
        locked_blocks(slots).len() == 0,
    ensures
        forall|i: int| 0 <= i < slots.len() && (#[trigger] slots[i]) is Some ==> !slots[i]->0.locked,
{
    lemma_first_locked(slots, 0);
    lemma_locked_first(slots, slots.len() as int);
}

/// A hue that is `jitter` away from `centre`, wrapped into one turn, has
/// that signed gap to the wrapped centre, for a jitter below half a turn.
pub proof fn lemma_jitter_gap(centre: int, jitter: int)
    requires
        -180_000 <= jitter < 180_000,
    ensures
        hue_gap(spec_wrap_hue(centre + jitter), spec_wrap_hue(centre)) == jitter,
{
    let c = centre % 360_000;
    assert((centre + jitter) % 360_000 == (c + jitter) % 360_000);
}

/// Two hues that are `first` and `second` away from centres half a turn
/// apart are half a turn less the difference of the two apart.
pub proof fn lemma_opposite_gap(centre: int, first: int, second: int)
    requires
        -90_000 <= first < 90_000,
        -90_000 <= second < 90_000,
    ensures
        hue_distance(spec_wrap_hue(centre + 180_000 + second), spec_wrap_hue(centre + first))
            == 180_000 - (if second - first < 0 {
            first - second
        } else {
            second - first
        }),
{
    let c = centre % 360_000;
    assert((centre + first) % 360_000 == (c + first) % 360_000);
    assert((centre + 180_000 + second) % 360_000 == (c + 180_000 + second) % 360_000);
}

/// Dividing by a number that is known is dividing by that number.
pub proof fn lemma_known_divisor(x: int, d: int, known: int)
    requires
        d == known,
        known > 0,
    ensures
        x % d == x % known,
        x / d == x / known,
{
}

/// Complementary over exactly two blocks, none locked: each hue lies within
/// the jitter of four degrees of its base, the first base being the drawn
/// anchor hue and the second half a turn from it; the two hues are half a
/// turn apart less the difference of their jitters, which is below eight
/// degrees, so that they are within four degrees of half a turn whenever
/// the two jitters differ by no more than four; and both blocks take the
/// theory's base saturation and value.
pub proof fn lemma_complementary_pair(slots: Seq<Option<ColorBlock>>, noise: Noise)
    requires
        slots.len() == SLOT_COUNT,
        block_count(slots) == 2,
        locked_blocks(slots).len() == 0,
        noise_fits(ColorTheories::Complementary, false, noise),
    ensures
        ({
            let first = color_at(slots, ColorTheories::Complementary, noise, 0);
            let second = color_at(slots, ColorTheories::Complementary, noise, 1);
            let base = noise.anchor_hue as int;
            let lean = noise.hue@[1] - noise.hue@[0];
            &&& hue_gap(first.hue as int, base) == 1000 * noise.hue@[0]
            &&& hue_gap(second.hue as int, spec_wrap_hue(base + 180_000)) == 1000 * noise.hue@[1]
            &&& hue_distance(first.hue as int, base) <= 4000
            &&& hue_distance(second.hue as int, spec_wrap_hue(base + 180_000)) <= 4000
            &&& hue_distance(second.hue as int, first.hue as int) == 180_000 - 1000 * (if lean
                < 0 {
                -lean
            } else {
                lean
            })
            &&& 173_000 <= hue_distance(second.hue as int, first.hue as int) <= 180_000
            &&& -4 <= lean <= 4 ==> hue_distance(second.hue as int, first.hue as int) >= 176_000
            &&& first.sat == 7000 && first.val == 6500
            &&& second.sat == 7000 && second.val == 6500
        }),
{
    let theory = ColorTheories::Complementary;
    let a = spec_anchor(slots, theory, noise);
    let base = noise.anchor_hue as int;
    let j0 = 1000 * noise.hue@[0];
    let j1 = 1000 * noise.hue@[1];
    lemma_no_lock(slots);
    lemma_generate_at(slots, theory, noise, 0);
    lemma_generate_at(slots, theory, noise, 1);
    assert(a.total == 2 && !a.locked && a.color.hue == base);
    assert(a.color.sat == 7000 && a.color.val == 6500);
    let first = spec_slot_color(theory, a, 0, noise);
    let second = spec_slot_color(theory, a, 1, noise);
    assert(color_at(slots, theory, noise, 0) == first);
    assert(color_at(slots, theory, noise, 1) == second);
    assert(first == crate::harmony::spec_grouped_color(theory, a, 0, noise));
    assert(second == crate::harmony::spec_grouped_color(theory, a, 1, noise));
    assert(-4000 <= j0 < 4000 && -4000 <= j1 < 4000);
    assert(theory.spec_group_size() == 2 && theory.spec_jitter_step() == 1000);
    let g = theory.spec_group_size() as int;
    lemma_known_divisor(0, g, 2);
    lemma_known_divisor(1, g, 2);
    lemma_known_divisor(360_000, g, 2);
    lemma_known_divisor(a.total + g - 1, g, 2);
    assert(0int % g == 0 && 1int % g == 1 && 360_000int / g == 180_000);
    assert((a.total + g - 1) / g - 1 == 0);
    assert((0int % g) * (360_000int / g) == 0 && (1int % g) * (360_000int / g) == 180_000)
        by (nonlinear_arith)
        requires
            0int % g == 0 && 1int % g == 1 && 360_000int / g == 180_000,
    ;
    assert(noise.hue@[0] * theory.spec_jitter_step() == j0);
    assert(noise.hue@[1] * theory.spec_jitter_step() == j1);
    assert(first.hue == crate::harmony::jittered_hue(theory, base, 0, noise.hue@[0] as int));
    assert(second.hue == crate::harmony::jittered_hue(
        theory,
        base,
        180_000,
        noise.hue@[1] as int,
    ));
    assert(0 <= spec_wrap_hue(base + j0) < 360_000);
    assert(0 <= spec_wrap_hue(base + 180_000 + j1) < 360_000);
    assert(first.hue == spec_wrap_hue(base + j0));
    assert(second.hue == spec_wrap_hue(base + 180_000 + j1));
    lemma_jitter_gap(base, j0);
    lemma_jitter_gap(base + 180_000, j1);
    lemma_opposite_gap(base, j0, j1);
    assert(spec_wrap_hue(base) == base);
}

/// Analogous over exactly five blocks, none locked: the centre is the
/// third block, and the hue at each position lies within the jitter of
/// three degrees of the drawn anchor hue moved by ten degrees for each
/// position away from the centre.
pub proof fn lemma_analogous_five(slots: Seq<Option<ColorBlock>>, noise: Noise, p: int)
    requires
        slots.len() == SLOT_COUNT,
        block_count(slots) == 5,
        locked_blocks(slots).len() == 0,
        noise_fits(ColorTheories::Analogous, false, noise),
        0 <= p < 5,
    ensures
        ({
            let hue = color_at(slots, ColorTheories::Analogous, noise, p).hue as int;
            let even = spec_wrap_hue(noise.anchor_hue + (p - 2) * 10_000);
            &&& spec_anchor(slots, ColorTheories::Analogous, noise).position == 2
            &&& hue_gap(hue, even) == 1000 * noise.hue@[p]
            &&& -3000 <= hue_gap(hue, even) < 3000
            &&& hue_distance(hue, even) <= 3000
        }),
{
    let theory = ColorTheories::Analogous;
    let a = spec_anchor(slots, theory, noise);
    let base = noise.anchor_hue as int;
    let jitter = 1000 * noise.hue@[p];
    lemma_no_lock(slots);
    lemma_generate_at(slots, theory, noise, p);
    assert(a.total == 5 && !a.locked && a.color.hue == base && a.position == 2);
    let color = spec_slot_color(theory, a, p, noise);
    assert(color_at(slots, theory, noise, p) == color);
    assert(color == crate::harmony::spec_analogous_color(a, p, noise));
    assert(-3000 <= jitter < 3000);
    assert(theory.spec_jitter_step() == 1000);
    assert((p - a.position) * crate::harmony::ANALOGOUS_STEP == (p - 2) * 10_000);
    assert(noise.hue@[p] * theory.spec_jitter_step() == jitter);
    assert(color.hue == crate::harmony::jittered_hue(
        theory,
        base,
        (p - 2) * 10_000,
        noise.hue@[p] as int,
    ));
    assert(0 <= spec_wrap_hue(base + (p - 2) * 10_000 + jitter) < 360_000);
    assert(color.hue == spec_wrap_hue(base + (p - 2) * 10_000 + jitter));
    lemma_jitter_gap(base + (p - 2) * 10_000, jitter);
}

/// Scaling by a larger fraction of the same denominator gives at least one
/// more, when the scaled number is at least the denominator.
pub proof fn lemma_part_grows(x: int, fewer: int, more: int, den: int)
    requires
        0 < den <= x,
        0 <= fewer < more,
    ensures
        spec_part(x, fewer, den) < spec_part(x, more, den),
{
    assert(x * more >= x * fewer + den) by (nonlinear_arith)
        requires
            0 < den <= x,
            0 <= fewer < more,
    ;
    lemma_hoist_over_denominator(x * fewer, 1, den as nat);
    lemma_div_is_ordered(x * fewer + 1 * den, x * more, den);
}

/// Scaling by a proper fraction of a positive multiple leaves less than
/// the whole, and scaling by nothing leaves nothing.
pub proof fn lemma_part_bounds(x: int, num: int, den: int)
    requires
        0 <= x,
        0 <= num < den,
    ensures
        0 <= spec_part(x, num, den) <= x,
        x > 0 ==> spec_part(x, num, den) < x,
        spec_part(x, 0, den) == 0,
{
    assert(0 <= x * num / den <= x) by (nonlinear_arith)
        requires
            0 <= x,
            0 <= num < den,
    ;
    if x > 0 {
        assert(x * num / den < x) by (nonlinear_arith)
            requires
                0 < x,
                0 <= num < den,
        ;
    }
    assert(x * 0 == 0);
}

/// The shadows theory after the anchor: the value falls strictly from one
/// position to any later one, provided the anchor's value is at least one
/// unit for each block from the anchor on. It stays above black to the
/// last position.
pub proof fn lemma_shadows_fall(a: Anchor, p: int, q: int)
    requires
        a.color.wf(),
        a.position <= p < q < a.total,
        a.color.val >= a.total - a.position,
    ensures
        spec_shade_value(false, a, q) < spec_shade_value(false, a, p),
        0 < spec_shade_value(false, a, q),
        spec_shade_value(false, a, p) <= a.color.val,
{
    let v = a.color.val as int;
    let k = a.position as int;
    let after = a.total - a.position;
    lemma_part_grows(v, p - k, q - k, after);
    lemma_part_bounds(v, q - k, after);
    lemma_part_bounds(v, p - k, after);
}

/// The shadows theory before the anchor: the first position is white, and
/// the value falls strictly from one position to any later one up to the
/// anchor, provided the anchor's value is at least one unit below white for
/// each block before the anchor.
pub proof fn lemma_shadows_rise(a: Anchor, p: int, q: int)
    requires
        a.color.wf(),
        0 <= p < q <= a.position < a.total,
        LEVEL_MAX - a.color.val >= a.position,
    ensures
        spec_shade_value(false, a, q) < spec_shade_value(false, a, p),
        a.color.val <= spec_shade_value(false, a, q),
        spec_shade_value(false, a, p) <= LEVEL_MAX,
        spec_shade_value(false, a, 0) == LEVEL_MAX,
{
    let v = a.color.val as int;
    let k = a.position as int;
    let up = LEVEL_MAX - v;
    lemma_part_bounds(up, p, k);
    lemma_part_bounds(up, 0, k);
    if q < k {
        lemma_part_grows(up, p, q, k);
        lemma_part_bounds(up, q, k);
    } else {
        assert(spec_part(up, p, k) < up);
    }
}

/// The shadows theory in its last position leaves one step of the even
/// descent from the anchor's value: the value there, times the number of
/// blocks from the anchor on, is the anchor's value rounded up to a
/// multiple of that number.
pub proof fn lemma_shadows_last(a: Anchor)
    requires
        a.color.wf(),
        a.position < a.total,
    ensures
        ({
            let after = a.total - a.position;
            let last = spec_shade_value(false, a, a.total - 1);
            a.color.val <= last * after < a.color.val + after
        }),
{
    let v = a.color.val as int;
    let after = a.total - a.position;
    if after > 1 {
        let q = v * (after - 1) / after;
        assert(v <= (v - q) * after < v + after) by (nonlinear_arith)
            requires
                q == v * (after - 1) / after,
                after > 1,
                v >= 0,
        ;
    } else {
        assert(v * 1 == v);
    }
}

/// Shadows over a palette with exactly one locked block, at logical
/// position `k` with value `v`, for any two positions `p` before `q`. From
/// the anchor on the values fall strictly and stay above black, when `v` is
/// at least one unit for each block from the anchor on. Up to the anchor
/// they fall strictly too, that is they rise towards the first position,
/// which is white, when `v` is at least `k` units below white. The last
/// position is one step of the even descent above black: its value, times
/// the number of blocks from the anchor on, is `v` rounded up to a multiple
/// of that number.
pub proof fn lemma_shadows_order(slots: Seq<Option<ColorBlock>>, noise: Noise, p: int, q: int)
    requires
        slots.len() == SLOT_COUNT,
        colors_wf(slots),
        locked_blocks(slots).len() == 1,
        0 <= p < q < block_count(slots),
    ensures
        ({
            let k = rank(slots, first_locked_from(slots, 0)) as int;
            let v = locked_blocks(slots)[0].color.val as int;
            let n = block_count(slots) as int;
            let before = color_at(slots, ColorTheories::Shadows, noise, p).val;
            let behind = color_at(slots, ColorTheories::Shadows, noise, q).val;
            let last = color_at(slots, ColorTheories::Shadows, noise, n - 1).val;
            &&& 0 <= k < n
            &&& color_at(slots, ColorTheories::Shadows, noise, k).val == v
            &&& k <= p && v >= n - k ==> behind < before && behind > 0
            &&& q <= k && LEVEL_MAX - v >= k ==> behind < before
            &&& k > 0 ==> color_at(slots, ColorTheories::Shadows, noise, 0).val == LEVEL_MAX
            &&& v <= last * (n - k) < v + (n - k)
        }),
{
    let theory = ColorTheories::Shadows;
    let a = spec_anchor(slots, theory, noise);
    let f = first_locked_from(slots, 0);
    let k = rank(slots, f) as int;
    lemma_first_locked(slots, 0);
    lemma_locked_first(slots, SLOT_COUNT as int);
    lemma_occupied_upto(slots, SLOT_COUNT as int);
    lemma_one_lock(slots, SLOT_COUNT as int);
    crate::harmony::lemma_anchor_wf(slots, theory, noise);
    assert(slots[f] is Some);
    assert(occupied(slots)[k] == f);
    assert(a.locked && a.position == k);
    assert(a.color.val == slots[f]->0.color.val);
    lemma_generate_at(slots, theory, noise, p);
    lemma_generate_at(slots, theory, noise, q);
    lemma_generate_at(slots, theory, noise, k);
    assert(spec_shade_value(false, a, k) == a.color.val);
    assert(color_at(slots, theory, noise, k).val == a.color.val);
    let n = block_count(slots) as int;
    lemma_generate_at(slots, theory, noise, n - 1);
    lemma_shadows_last(a);
    if k < n - 1 {
        lemma_part_bounds(a.color.val as int, n - 1 - k, n - k);
        assert(color_at(slots, theory, noise, n - 1).val == spec_shade_value(false, a, n - 1));
    }
    if k > 0 {
        lemma_generate_at(slots, theory, noise, 0);
        lemma_part_bounds(LEVEL_MAX - a.color.val, 0, k);
        assert(spec_shade_value(false, a, 0) == LEVEL_MAX);
        assert(color_at(slots, theory, noise, 0).val == spec_shade_value(false, a, 0));
    }
    if k <= p && a.color.val >= a.total - a.position {
        lemma_shadows_fall(a, p, q);
        assert(color_at(slots, theory, noise, q).val == spec_shade_value(false, a, q));
        assert(color_at(slots, theory, noise, p).val == spec_shade_value(false, a, p));
    }
    if q <= k && LEVEL_MAX - a.color.val >= k {
        lemma_shadows_rise(a, p, q);
        assert(color_at(slots, theory, noise, q).val == spec_shade_value(false, a, q));
        assert(color_at(slots, theory, noise, p).val == spec_shade_value(false, a, p));
    }
}

/// With exactly one locked block, every occupied cell but the lowest
/// locked one is unlocked.
pub proof fn lemma_one_lock(slots: Seq<Option<ColorBlock>>, end: int)
    requires
        0 <= end <= slots.len(),
        crate::store::locked_upto(slots, end).len() <= 1,
    ensures
        forall|i: int|
            0 <= i < end && i != first_locked_from(slots, 0) && (#[trigger] slots[i]) is Some
                ==> !slots[i]->0.locked,
    decreases end,
{
    lemma_first_locked(slots, 0);
    if end > 0 {
        lemma_locked_first(slots, end - 1);
        lemma_one_lock(slots, end - 1);
    }
}

} // verus!
