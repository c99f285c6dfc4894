//! The slot store: nine storage cells that each hold nothing or a colour
//! with a lock flag, the dense ordering of the occupied cells, and the
//! tracked selection.

use vstd::prelude::*;
use crate::color::{hsv2hex, normalized, spec_hex2hsv, spec_hsv2hex, Color};

verus! {

/// Number of storage cells.
pub const SLOT_COUNT: usize = 9;

/// Removal is refused once no more than this many cells are occupied.
pub const MIN_BLOCKS: usize = 3;

/// Number of cells that a default palette occupies.
pub const DEFAULT_BLOCKS: usize = 5;

/// The content of an occupied cell.
#[derive(Clone, Copy, Debug, PartialEq, Eq, Structural)]
pub struct ColorBlock {
    pub color: Color,
    /// A locked block is never recoloured by generation.
    pub locked: bool,
}

impl ColorBlock {
    /// An unlocked block with the colour of the three raw numbers, the hue
    /// wrapped and the levels capped.
    pub fn new(hue: u32, sat: u32, val: u32) -> (block: ColorBlock)
        ensures
            block.color == normalized(hue, sat, val),
            block.color.wf(),
            !block.locked,
    {
        ColorBlock { color: Color::new(hue, sat, val), locked: false }
    }

    /// Gives the block the colour of the three raw numbers, the hue wrapped
    /// and the levels capped. The lock flag stays.
    pub fn change_color(&mut self, hue: u32, sat: u32, val: u32)
        ensures
            final(self).color == normalized(hue, sat, val),
            final(self).color.wf(),
            final(self).locked == old(self).locked,
    {
        self.color = Color::new(hue, sat, val);
    }

    /// Hue, saturation and value of the block.
    pub fn get_hsv_values(&self) -> (t: (u32, u32, u32))
        ensures
            t == (self.color.hue, self.color.sat, self.color.val),
    {
        (self.color.hue, self.color.sat, self.color.val)
    }

    /// The six hexadecimal digits of the block's colour.
    pub fn get_hex(&self) -> (text: String)
        requires
            self.color.wf(),
        ensures
            text@ == spec_hsv2hex(self.color),
    {
        hsv2hex(&self.color)
    }
}

/// Storage indices of the occupied cells below `end`, ascending. The place
/// of an index in this sequence is its logical position.
pub open spec fn occupied_upto(slots: Seq<Option<ColorBlock>>, end: int) -> Seq<int>
    decreases end,
{
    if end <= 0 {
        Seq::empty()
    } else if slots[end - 1] is Some {
        occupied_upto(slots, end - 1).push(end - 1)
    } else {
        occupied_upto(slots, end - 1)
    }
}

/// Storage indices of all occupied cells, ascending.
pub open spec fn occupied(slots: Seq<Option<ColorBlock>>) -> Seq<int> {
    occupied_upto(slots, slots.len() as int)
}

/// Number of occupied cells below storage index `i`: the logical position
/// of cell `i` when it is occupied.
pub open spec fn rank(slots: Seq<Option<ColorBlock>>, i: int) -> nat {
    occupied_upto(slots, i).len()
}

/// Number of occupied cells.
pub open spec fn block_count(slots: Seq<Option<ColorBlock>>) -> nat {
    occupied(slots).len()
}

/// The locked blocks below `end`, in storage order.
pub open spec fn locked_upto(slots: Seq<Option<ColorBlock>>, end: int) -> Seq<ColorBlock>
    decreases end,
{
    if end <= 0 {
        Seq::empty()
    } else if slots[end - 1] is Some && slots[end - 1]->0.locked {
        locked_upto(slots, end - 1).push(slots[end - 1]->0)
    } else {
        locked_upto(slots, end - 1)
    }
}

/// All locked blocks, in storage order.
pub open spec fn locked_blocks(slots: Seq<Option<ColorBlock>>) -> Seq<ColorBlock> {
    locked_upto(slots, slots.len() as int)
}

/// The lowest empty storage index at or above `start`, or the length when
/// every cell from `start` on is occupied.
pub open spec fn first_empty_from(slots: Seq<Option<ColorBlock>>, start: int) -> int
    decreases slots.len() - start,
{
    if start >= slots.len() {
        slots.len() as int
    } else if slots[start] is None {
        start
    } else {
        first_empty_from(slots, start + 1)
    }
}

/// The lowest storage index at or above `start` that holds a locked block,
/// or the length when there is none.
pub open spec fn first_locked_from(slots: Seq<Option<ColorBlock>>, start: int) -> int
    decreases slots.len() - start,
{
    if start >= slots.len() {
        slots.len() as int
    } else if slots[start] is Some && slots[start]->0.locked {
        start
    } else {
        first_locked_from(slots, start + 1)
    }
}

/// The selection clamped into the occupied range of `count` blocks.
pub open spec fn clamp_selection(selected: nat, count: nat) -> nat {
    if count == 0 {
        0
    } else if selected >= count {
        (count - 1) as nat
    } else {
        selected
    }
}

/// What `add_block` leaves: a neutral unlocked block in the lowest empty
/// cell, or the same cells when none is empty.
pub open spec fn spec_add(slots: Seq<Option<ColorBlock>>) -> Seq<Option<ColorBlock>> {
    let at = first_empty_from(slots, 0);
    if at < slots.len() {
        slots.update(at, Some(ColorBlock { color: Color::spec_neutral(), locked: false }))
    } else {
        slots
    }
}

/// What `del_block` leaves: the cell at logical position `pos` emptied, when
/// more than the minimum is occupied and the position exists.
pub open spec fn spec_del(slots: Seq<Option<ColorBlock>>, pos: nat) -> Seq<Option<ColorBlock>> {
    if block_count(slots) > MIN_BLOCKS && pos < block_count(slots) {
        slots.update(occupied(slots)[pos as int], None)
    } else {
        slots
    }
}

/// The block at storage index `i` with its lock flag flipped, when there is
/// one there.
pub open spec fn spec_toggle(slots: Seq<Option<ColorBlock>>, i: int) -> Seq<Option<ColorBlock>> {
    if 0 <= i < slots.len() && slots[i] is Some {
        let b = slots[i]->0;
        slots.update(i, Some(ColorBlock { color: b.color, locked: !b.locked }))
    } else {
        slots
    }
}

/// The block at storage index `i` recoloured, its lock flag kept, when there
/// is one there.
pub open spec fn spec_paint(slots: Seq<Option<ColorBlock>>, i: int, color: Color) -> Seq<
    Option<ColorBlock>,
> {
    if 0 <= i < slots.len() && slots[i] is Some {
        slots.update(i, Some(ColorBlock { color, locked: slots[i]->0.locked }))
    } else {
        slots
    }
}

/// Every stored colour is well formed.
pub open spec fn colors_wf(slots: Seq<Option<ColorBlock>>) -> bool {
    forall|i: int| 0 <= i < slots.len() && (#[trigger] slots[i]) is Some ==> slots[i]->0.color.wf()
}

/// The indices in `occupied_upto` are ascending, below `end`, occupied, and
/// every occupied index below `end` is among them at its rank.
pub proof fn lemma_occupied_upto(slots: Seq<Option<ColorBlock>>, end: int)
    requires
        0 <= end <= slots.len(),
    ensures
        occupied_upto(slots, end).len() <= end,
        forall|p: int|
            0 <= p < occupied_upto(slots, end).len() ==> {
                let i = #[trigger] occupied_upto(slots, end)[p];
                &&& 0 <= i < end
                &&& slots[i] is Some
                &&& rank(slots, i) == p
            },
        forall|i: int|
            0 <= i < end && (#[trigger] slots[i]) is Some ==> {
                &&& rank(slots, i) < occupied_upto(slots, end).len()
                &&& occupied_upto(slots, end)[rank(slots, i) as int] == i
            },
        forall|i: int| 0 <= i <= end ==> #[trigger] rank(slots, i) <= occupied_upto(slots, end).len(),
    decreases end,
{
    if end > 0 {
        lemma_occupied_upto(slots, end - 1);
    }
}

/// Cells at or above `end` do not affect `occupied_upto`, nor does a change
/// that keeps every cell's occupancy.
pub proof fn lemma_occupied_same(
    a: Seq<Option<ColorBlock>>,
    b: Seq<Option<ColorBlock>>,
    end: int,
)
    requires
        0 <= end <= a.len(),
        end <= b.len(),
        forall|i: int| 0 <= i < end ==> (a[i] is Some) == (b[i] is Some),
    ensures
        occupied_upto(a, end) == occupied_upto(b, end),
    decreases end,
{
    if end > 0 {
        lemma_occupied_same(a, b, end - 1);
    }
}

/// How the number of occupied cells below `end` changes when one cell is
/// overwritten.
pub proof fn lemma_count_update(
    slots: Seq<Option<ColorBlock>>,
    at: int,
    v: Option<ColorBlock>,
    end: int,
)
    requires
        0 <= at < slots.len(),
        0 <= end <= slots.len(),
    ensures
        rank(slots.update(at, v), end) == rank(slots, end) + (if at < end && v is Some
            && slots[at] is None {
            1int
        } else if at < end && v is None && slots[at] is Some {
            -1int
        } else {
            0int
        }),
    decreases end,
{
    if end > 0 {
        lemma_count_update(slots, at, v, end - 1);
    }
}

/// `first_empty_from` finds an empty cell exactly when one exists at or
/// above `start`, and every cell between is occupied.
pub proof fn lemma_first_empty(slots: Seq<Option<ColorBlock>>, start: int)
    requires
        0 <= start <= slots.len(),
    ensures
        start <= first_empty_from(slots, start) <= slots.len(),
        first_empty_from(slots, start) < slots.len() ==> slots[first_empty_from(slots, start)]
            is None,
        forall|j: int| start <= j < first_empty_from(slots, start) ==> (#[trigger] slots[j]) is Some,
    decreases slots.len() - start,
{
    if start < slots.len() && slots[start] is Some {
        lemma_first_empty(slots, start + 1);
    }
}

/// When every cell below `end` is occupied, all of them count.
pub proof fn lemma_all_occupied(slots: Seq<Option<ColorBlock>>, end: int)
    requires
        0 <= end <= slots.len(),
        forall|j: int| 0 <= j < end ==> (#[trigger] slots[j]) is Some,
    ensures
        rank(slots, end) == end,
    decreases end,
{
    if end > 0 {
        lemma_all_occupied(slots, end - 1);
    }
}

/// `first_locked_from` finds a locked block exactly when one exists at or
/// above `start`, and no cell between holds one.
pub proof fn lemma_first_locked(slots: Seq<Option<ColorBlock>>, start: int)
    requires
        0 <= start <= slots.len(),
    ensures
        start <= first_locked_from(slots, start) <= slots.len(),
        first_locked_from(slots, start) < slots.len() ==> {
            &&& slots[first_locked_from(slots, start)] is Some
            &&& slots[first_locked_from(slots, start)]->0.locked
        },
        forall|j: int|
            start <= j < first_locked_from(slots, start) ==> !((#[trigger] slots[j]) is Some
                && slots[j]->0.locked),
    decreases slots.len() - start,
{
    if start < slots.len() && !(slots[start] is Some && slots[start]->0.locked) {
        lemma_first_locked(slots, start + 1);
    }
}

/// The locked blocks are locked, are no more than the cells, and are well
/// formed where the cells are.
pub proof fn lemma_locked_upto(slots: Seq<Option<ColorBlock>>, end: int)
    requires
        0 <= end <= slots.len(),
    ensures
        locked_upto(slots, end).len() <= end,
        forall|j: int|
            0 <= j < locked_upto(slots, end).len() ==> (#[trigger] locked_upto(
                slots,
                end,
            )[j]).locked,
        colors_wf(slots) ==> forall|j: int|
            0 <= j < locked_upto(slots, end).len() ==> (#[trigger] locked_upto(
                slots,
                end,
            )[j]).color.wf(),
    decreases end,
{
    if end > 0 {
        lemma_locked_upto(slots, end - 1);
    }
}

/// The first of the locked blocks is the block in the lowest locked cell;
/// there is none exactly when no cell below `end` is locked.
pub proof fn lemma_locked_first(slots: Seq<Option<ColorBlock>>, end: int)
    requires
        0 <= end <= slots.len(),
    ensures
        first_locked_from(slots, 0) >= end ==> locked_upto(slots, end).len() == 0,
        first_locked_from(slots, 0) < end ==> {
            &&& locked_upto(slots, end).len() > 0
            &&& locked_upto(slots, end)[0] == slots[first_locked_from(slots, 0)]->0
        },
    decreases end,
{
    lemma_first_locked(slots, 0);
    if end > 0 {
        lemma_locked_first(slots, end - 1);
    }
}

/// The palette: nine storage cells and the selected logical position.
pub struct Palette {
    color_blocks: [Option<ColorBlock>; 9],
    selected_block_id: usize,
}

impl View for Palette {
    type V = Seq<Option<ColorBlock>>;

    /// The nine cells, by storage index.
    closed spec fn view(&self) -> Seq<Option<ColorBlock>> {
        self.color_blocks@
    }
}

impl Palette {
    /// The selected logical position.
    pub closed spec fn selected(&self) -> nat {
        self.selected_block_id as nat
    }

    /// Nine cells, well-formed colours, and a selection inside the occupied
    /// range (zero when nothing is occupied).
    pub open spec fn wf(&self) -> bool {
        &&& self@.len() == SLOT_COUNT
        &&& colors_wf(self@)
        &&& self.selected() == clamp_selection(self.selected(), block_count(self@))
    }

    /// A palette with no occupied cell.
    pub fn empty() -> (p: Palette)
        ensures
            p.wf(),
            p.selected() == 0,
            forall|i: int| 0 <= i < SLOT_COUNT ==> p@[i] is None,
            block_count(p@) == 0,
    {
        let p = Palette { color_blocks: [None; 9], selected_block_id: 0 };
        proof {
            lemma_none_occupied(p@, SLOT_COUNT as int);
        }
        p
    }

    /// The block at storage index `index`, if the index names a cell and the
    /// cell is occupied.
    pub fn get_block(&self, index: usize) -> (b: Option<ColorBlock>)
        requires
            self.wf(),
        ensures
            b == (if index < SLOT_COUNT { self@[index as int] } else { None }),
            b is Some ==> b->0.color.wf(),
    {
        if index < SLOT_COUNT {
            self.color_blocks[index]
        } else {
            None
        }
    }

    /// The selected logical position.
    pub fn selected_block_id(&self) -> (s: usize)
        ensures
            s == self.selected(),
    {
        self.selected_block_id
    }

    /// Storage indices of the occupied cells, ascending.
    pub fn get_existing_block_indices(&self) -> (r: Vec<usize>)
        requires
            self.wf(),
        ensures
            r@.len() == block_count(self@),
            r@.len() <= SLOT_COUNT,
            forall|p: int| 0 <= p < r@.len() ==> r@[p] as int == occupied(self@)[p],
    {
        let mut r: Vec<usize> = Vec::new();
        let mut i: usize = 0;
        while i < SLOT_COUNT
            invariant
                0 <= i <= SLOT_COUNT,
                self@.len() == SLOT_COUNT,
                r@.len() == rank(self@, i as int),
                r@.len() <= i,
                forall|p: int| 0 <= p < r@.len() ==> r@[p] as int == occupied_upto(self@, i as int)[p],
            decreases SLOT_COUNT - i,
        {
            if self.color_blocks[i].is_some() {
                r.push(i);
            }
            i += 1;
        }
        r
    }

    /// Number of occupied cells.
    pub fn block_count(&self) -> (n: usize)
        requires
            self.wf(),
        ensures
            n == block_count(self@),
            n <= SLOT_COUNT,
    {
        let mut n: usize = 0;
        let mut i: usize = 0;
        while i < SLOT_COUNT
            invariant
                0 <= i <= SLOT_COUNT,
                self@.len() == SLOT_COUNT,
                n == rank(self@, i as int),
                n <= i,
            decreases SLOT_COUNT - i,
        {
            if self.color_blocks[i].is_some() {
                n += 1;
            }
            i += 1;
        }
        n
    }

    /// The storage index of the block at logical position `logical_pos`, or
    /// nothing when fewer blocks are occupied.
    pub fn get_array_index_for_logical_position(&self, logical_pos: usize) -> (r: Option<usize>)
        requires
            self.wf(),
        ensures
            r is Some <==> logical_pos < block_count(self@),
            r is Some ==> r->0 as int == occupied(self@)[logical_pos as int],
            r is Some ==> r->0 < SLOT_COUNT && self@[r->0 as int] is Some && rank(
                self@,
                r->0 as int,
            ) == logical_pos,
    {
        let existing_blocks = self.get_existing_block_indices();
        proof {
            lemma_occupied_upto(self@, SLOT_COUNT as int);
        }
        if logical_pos < existing_blocks.len() {
            Some(existing_blocks[logical_pos])
        } else {
            None
        }
    }

    /// The locked blocks, in storage order.
    pub fn get_locked_blocks(&self) -> (r: Vec<ColorBlock>)
        requires
            self.wf(),
        ensures
            r@ == locked_blocks(self@),
            r@.len() <= SLOT_COUNT,
    {
        let mut r: Vec<ColorBlock> = Vec::new();
        let mut i: usize = 0;
        while i < SLOT_COUNT
            invariant
                0 <= i <= SLOT_COUNT,
                self@.len() == SLOT_COUNT,
                r@ == locked_upto(self@, i as int),
                r@.len() <= i,
            decreases SLOT_COUNT - i,
        {
            match self.color_blocks[i] {
                Some(block) => {
                    if block.locked {
                        r.push(block);
                    }
                },
                None => {},
            }
            i += 1;
        }
        r
    }

    /// Adds a neutral, unlocked block in the lowest empty cell. Does nothing
    /// when all nine cells are occupied.
    pub fn add_block(&mut self)
        requires
            old(self).wf(),
        ensures
            final(self).wf(),
            final(self)@ == spec_add(old(self)@),
            final(self).selected() == old(self).selected(),
            0 <= first_empty_from(old(self)@, 0) <= SLOT_COUNT,
            first_empty_from(old(self)@, 0) < SLOT_COUNT ==> old(self)@[first_empty_from(
                old(self)@,
                0,
            )] is None,
            forall|j: int|
                0 <= j < first_empty_from(old(self)@, 0) ==> (#[trigger] old(self)@[j]) is Some,
            block_count(old(self)@) < SLOT_COUNT ==> block_count(final(self)@) == block_count(
                old(self)@,
            ) + 1,
            block_count(old(self)@) >= SLOT_COUNT ==> final(self)@ == old(self)@,
            MIN_BLOCKS <= block_count(old(self)@) <= SLOT_COUNT ==> MIN_BLOCKS <= block_count(
                final(self)@,
            ) <= SLOT_COUNT,
    {
        proof {
            lemma_first_empty(self@, 0);
            lemma_occupied_upto(self@, SLOT_COUNT as int);
        }
        let mut i: usize = 0;
        while i < SLOT_COUNT && self.color_blocks[i].is_some()
            invariant
                0 <= i <= SLOT_COUNT,
                self@.len() == SLOT_COUNT,
                *self == *old(self),
                first_empty_from(self@, i as int) == first_empty_from(self@, 0),
            decreases SLOT_COUNT - i,
        {
            i += 1;
        }
        if i < SLOT_COUNT {
            proof {
                lemma_count_update(
                    self@,
                    i as int,
                    Some(ColorBlock { color: Color::spec_neutral(), locked: false }),
                    SLOT_COUNT as int,
                );
                lemma_occupied_upto(
                    self@.update(
                        i as int,
                        Some(ColorBlock { color: Color::spec_neutral(), locked: false }),
                    ),
                    SLOT_COUNT as int,
                );
            }
            self.color_blocks[i] = Some(ColorBlock { color: Color::neutral(), locked: false });
        } else {
            proof {
                lemma_all_occupied(self@, SLOT_COUNT as int);
            }
        }
    }

    /// Empties the cell at logical position `logical_pos` and clamps the
    /// selection into the new occupied range. Does nothing when no more than
    /// three cells are occupied or the position does not exist.
    pub fn del_block(&mut self, logical_pos: usize)
        requires
            old(self).wf(),
        ensures
            final(self).wf(),
            final(self)@ == spec_del(old(self)@, logical_pos as nat),
            final(self).selected() == clamp_selection(
                old(self).selected(),
                block_count(final(self)@),
            ),
            block_count(old(self)@) > MIN_BLOCKS && logical_pos < block_count(old(self)@)
                ==> block_count(final(self)@) == block_count(old(self)@) - 1,
            block_count(old(self)@) <= MIN_BLOCKS ==> final(self)@ == old(self)@,
            MIN_BLOCKS <= block_count(old(self)@) <= SLOT_COUNT ==> MIN_BLOCKS <= block_count(
                final(self)@,
            ) <= SLOT_COUNT,
    {
        let count = self.block_count();
        if count > MIN_BLOCKS {
            if let Some(array_idx) = self.get_array_index_for_logical_position(logical_pos) {
                proof {
                    lemma_count_update(self@, array_idx as int, None, SLOT_COUNT as int);
                }
                self.color_blocks[array_idx] = None;
                if self.selected_block_id > count - 2 {
                    self.selected_block_id = count - 2;
                }
            }
        }
    }

    /// Flips the lock of the block in the `id`-th cell, counting cells from
    /// one and ignoring the dense ordering. Does nothing when `id` names no
    /// cell or the cell is empty.
    pub fn toggle_lock(&mut self, id: usize)
        requires
            old(self).wf(),
        ensures
            final(self).wf(),
            final(self)@ == spec_toggle(old(self)@, id as int - 1),
            final(self).selected() == old(self).selected(),
    {
        if 1 <= id && id <= SLOT_COUNT {
            self.toggle_cell(id - 1);
        }
    }

    /// Flips the lock of the block at logical position `logical_pos`. Does
    /// nothing when the position does not exist.
    pub fn toggle_lock_at(&mut self, logical_pos: usize)
        requires
            old(self).wf(),
        ensures
            final(self).wf(),
            logical_pos < block_count(old(self)@) ==> final(self)@ == spec_toggle(
                old(self)@,
                occupied(old(self)@)[logical_pos as int],
            ),
            logical_pos >= block_count(old(self)@) ==> final(self)@ == old(self)@,
            final(self).selected() == old(self).selected(),
    {
        if let Some(array_idx) = self.get_array_index_for_logical_position(logical_pos) {
            self.toggle_cell(array_idx);
        }
    }

    fn toggle_cell(&mut self, index: usize)
        requires
            old(self).wf(),
            index < SLOT_COUNT,
        ensures
            final(self).wf(),
            final(self)@ == spec_toggle(old(self)@, index as int),
            final(self).selected() == old(self).selected(),
    {
        match self.color_blocks[index] {
            Some(block) => {
                let flipped = ColorBlock { color: block.color, locked: !block.locked };
                proof {
                    lemma_occupied_same(
                        self@,
                        self@.update(index as int, Some(flipped)),
                        SLOT_COUNT as int,
                    );
                }
                self.color_blocks[index] = Some(flipped);
            },
            None => {},
        }
    }

    /// Recolours the block in the cell at storage index `index`, keeping its
    /// lock flag; the colour is normalised first. Does nothing when the index
    /// names no cell or the cell is empty.
    pub fn paint(&mut self, index: usize, color: Color)
        requires
            old(self).wf(),
        ensures
            final(self).wf(),
            final(self)@ == spec_paint(
                old(self)@,
                index as int,
                normalized(color.hue, color.sat, color.val),
            ),
            final(self).selected() == old(self).selected(),
    {
        if index < SLOT_COUNT {
            match self.color_blocks[index] {
                Some(block) => {
                    let painted = ColorBlock {
                        color: Color::new(color.hue, color.sat, color.val),
                        locked: block.locked,
                    };
                    proof {
                        lemma_occupied_same(
                            self@,
                            self@.update(index as int, Some(painted)),
                            SLOT_COUNT as int,
                        );
                    }
                    self.color_blocks[index] = Some(painted);
                },
                None => {},
            }
        }
    }

    /// Recolours the block at logical position `logical_pos`, locked or not.
    /// Does nothing when the position does not exist.
    pub fn set_block_color(&mut self, logical_pos: usize, color: Color)
        requires
            old(self).wf(),
        ensures
            final(self).wf(),
            logical_pos < block_count(old(self)@) ==> final(self)@ == spec_paint(
                old(self)@,
                occupied(old(self)@)[logical_pos as int],
                normalized(color.hue, color.sat, color.val),
            ),
            logical_pos >= block_count(old(self)@) ==> final(self)@ == old(self)@,
            final(self).selected() == old(self).selected(),
    {
        if let Some(array_idx) = self.get_array_index_for_logical_position(logical_pos) {
            self.paint(array_idx, color);
        }
    }

    /// Gives the block at logical position `logical_pos` the colour that
    /// the hexadecimal digits of `hex` spell, locked or not. Does nothing
    /// when the position does not exist.
    pub fn set_color_direct(&mut self, logical_pos: usize, hex: &str)
        requires
            old(self).wf(),
        ensures
            final(self).wf(),
            logical_pos < block_count(old(self)@) ==> final(self)@ == spec_paint(
                old(self)@,
                occupied(old(self)@)[logical_pos as int],
                spec_hex2hsv(hex@),
            ),
            logical_pos >= block_count(old(self)@) ==> final(self)@ == old(self)@,
            final(self).selected() == old(self).selected(),
    {
        let color = Color::from_hex(hex);
        self.set_block_color(logical_pos, color);
    }

    /// The six hexadecimal digits of the block at logical position
    /// `logical_pos`, or nothing when the position does not exist.
    pub fn hex_at(&self, logical_pos: usize) -> (hex: Option<String>)
        requires
            self.wf(),
        ensures
            hex is Some <==> logical_pos < block_count(self@),
            hex is Some ==> hex->0@ == spec_hsv2hex(
                self@[occupied(self@)[logical_pos as int]]->0.color,
            ),
    {
        match self.get_array_index_for_logical_position(logical_pos) {
            Some(array_idx) => {
                match self.get_block(array_idx) {
                    Some(block) => Some(hsv2hex(&block.color)),
                    None => None,
                }
            },
            None => None,
        }
    }

    /// Moves the selection one block to the right, stopping at the last
    /// block.
    pub fn increment_counter(&mut self)
        requires
            old(self).wf(),
        ensures
            final(self).wf(),
            final(self)@ == old(self)@,
            final(self).selected() == clamp_selection(
                old(self).selected() + 1,
                block_count(old(self)@),
            ),
    {
        let actual_count = self.block_count();
        if actual_count > 0 {
            if self.selected_block_id + 1 < actual_count {
                self.selected_block_id = self.selected_block_id + 1;
            } else {
                self.selected_block_id = actual_count - 1;
            }
        }
    }

    /// Moves the selection one block to the left, stopping at the first
    /// block.
    pub fn decrement_counter(&mut self)
        requires
            old(self).wf(),
        ensures
            final(self).wf(),
            final(self)@ == old(self)@,
            final(self).selected() == (if old(self).selected() == 0 {
                0nat
            } else {
                (old(self).selected() - 1) as nat
            }),
    {
        if self.selected_block_id > 0 {
            self.selected_block_id = self.selected_block_id - 1;
        }
    }
}

impl Default for Palette {
    /// Five neutral, unlocked blocks in the first five cells, the first one
    /// selected.
    fn default() -> (p: Palette)
        ensures
            p.wf(),
            p.selected() == 0,
            block_count(p@) == DEFAULT_BLOCKS,
            forall|i: int|
                0 <= i < SLOT_COUNT ==> #[trigger] p@[i] == (if i < DEFAULT_BLOCKS {
                    Some(ColorBlock { color: Color::spec_neutral(), locked: false })
                } else {
                    None
                }),
    {
        let fresh = Some(ColorBlock { color: Color::neutral(), locked: false });
        let p = Palette {
            color_blocks: [fresh, fresh, fresh, fresh, fresh, None, None, None, None],
            selected_block_id: 0,
        };
        proof {
            reveal_with_fuel(occupied_upto, 10);
        }
        p
    }
}

/// When every cell below `end` is empty, none counts.
pub proof fn lemma_none_occupied(slots: Seq<Option<ColorBlock>>, end: int)
    requires
        0 <= end <= slots.len(),
        forall|j: int| 0 <= j < end ==> (#[trigger] slots[j]) is None,
    ensures
        rank(slots, end) == 0,
    decreases end,
{
    if end > 0 {
        lemma_none_occupied(slots, end - 1);
    }
}

} // verus!
