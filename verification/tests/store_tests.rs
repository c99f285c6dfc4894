use color_harmony::color::Color;
use color_harmony::store::{ColorBlock, Palette};

fn neutral_block() -> ColorBlock {
    ColorBlock { color: Color { hue: 0, sat: 0, val: 0 }, locked: false }
}

fn cells(p: &Palette) -> Vec<Option<ColorBlock>> {
    (0..9).map(|i| p.get_block(i)).collect()
}

fn filled(count: usize) -> Palette {
    let mut p = Palette::empty();
    for _ in 0..count {
        p.add_block();
    }
    p
}

#[test]
fn default_palette_has_five_neutral_unlocked_blocks() {
    let p = Palette::default();
    assert_eq!(p.block_count(), 5);
    assert_eq!(p.selected_block_id(), 0);
    for i in 0..5 {
        assert_eq!(p.get_block(i), Some(neutral_block()));
    }
    for i in 5..9 {
        assert_eq!(p.get_block(i), None);
    }
    assert_eq!(p.get_existing_block_indices(), vec![0, 1, 2, 3, 4]);
    assert!(p.get_locked_blocks().is_empty());
}

#[test]
fn empty_palette_has_no_block() {
    let p = Palette::empty();
    assert_eq!(p.block_count(), 0);
    assert_eq!(p.selected_block_id(), 0);
    assert!(cells(&p).iter().all(|c| c.is_none()));
    assert!(p.get_existing_block_indices().is_empty());
    assert_eq!(p.get_array_index_for_logical_position(0), None);
    assert_eq!(p.hex_at(0), None);
}

#[test]
fn get_block_past_the_cells_is_nothing() {
    let p = filled(9);
    assert_eq!(p.get_block(8), Some(neutral_block()));
    assert_eq!(p.get_block(9), None);
    assert_eq!(p.get_block(usize::MAX), None);
}

#[test]
fn add_fills_the_lowest_empty_cell() {
    let mut p = Palette::default();
    p.add_block();
    assert_eq!(p.block_count(), 6);
    assert_eq!(p.get_block(5), Some(neutral_block()));
    assert_eq!(p.get_block(6), None);
    p.del_block(1);
    assert_eq!(p.get_block(1), None);
    p.del_block(2);
    assert_eq!(p.get_block(3), None);
    assert_eq!(p.get_existing_block_indices(), vec![0, 2, 4, 5]);
    p.add_block();
    assert_eq!(p.get_existing_block_indices(), vec![0, 1, 2, 4, 5]);
    p.add_block();
    assert_eq!(p.get_existing_block_indices(), vec![0, 1, 2, 3, 4, 5]);
}

#[test]
fn add_on_a_full_palette_changes_nothing() {
    let mut p = filled(9);
    p.set_block_color(4, Color { hue: 120_000, sat: 5000, val: 6000 });
    p.toggle_lock_at(7);
    let before = cells(&p);
    let selected = p.selected_block_id();
    p.add_block();
    assert_eq!(p.block_count(), 9);
    assert_eq!(cells(&p), before);
    assert_eq!(p.selected_block_id(), selected);
}

#[test]
fn remove_on_three_blocks_changes_nothing() {
    let mut p = filled(3);
    p.set_block_color(1, Color { hue: 120_000, sat: 5000, val: 6000 });
    let before = cells(&p);
    for pos in 0..4 {
        p.del_block(pos);
        assert_eq!(p.block_count(), 3);
        assert_eq!(cells(&p), before);
    }
}

#[test]
fn remove_below_three_blocks_changes_nothing() {
    for count in 0..3 {
        let mut p = filled(count);
        let before = cells(&p);
        p.del_block(0);
        assert_eq!(cells(&p), before);
    }
}

#[test]
fn remove_leaves_a_hole_and_keeps_the_other_cells() {
    let mut p = Palette::default();
    for pos in 0..5 {
        p.set_block_color(pos, Color { hue: 1000 * pos as u32, sat: 10, val: 20 });
    }
    p.del_block(1);
    assert_eq!(p.block_count(), 4);
    assert_eq!(p.get_block(1), None);
    for (index, hue) in [(0usize, 0u32), (2, 2000), (3, 3000), (4, 4000)] {
        assert_eq!(p.get_block(index).unwrap().color.hue, hue);
    }
}

#[test]
fn remove_past_the_last_position_changes_nothing() {
    let mut p = Palette::default();
    let before = cells(&p);
    p.del_block(5);
    assert_eq!(cells(&p), before);
    p.del_block(usize::MAX);
    assert_eq!(cells(&p), before);
}

#[test]
fn remove_goes_by_logical_position() {
    let mut p = filled(6);
    p.del_block(1);
    assert_eq!(p.get_existing_block_indices(), vec![0, 2, 3, 4, 5]);
    p.del_block(1);
    assert_eq!(p.get_existing_block_indices(), vec![0, 3, 4, 5]);
    p.del_block(3);
    assert_eq!(p.get_existing_block_indices(), vec![0, 3, 4]);
}

#[test]
fn count_stays_between_three_and_nine() {
    let mut p = Palette::default();
    let steps: [(bool, usize); 30] = [
        (true, 0), (true, 0), (true, 0), (true, 0), (true, 0), (true, 0), (false, 8), (false, 0),
        (false, 3), (false, 3), (false, 0), (false, 0), (false, 0), (false, 0), (false, 2),
        (true, 0), (false, 1), (false, 1), (true, 0), (true, 0), (false, 9), (true, 0), (true, 0),
        (true, 0), (true, 0), (true, 0), (true, 0), (false, 4), (false, 4), (false, 4),
    ];
    for (add, pos) in steps {
        if add {
            p.add_block();
        } else {
            p.del_block(pos);
        }
        let count = p.block_count();
        assert!((3..=9).contains(&count));
        assert_eq!(p.get_existing_block_indices().len(), count);
        assert!(p.selected_block_id() < count);
    }
}

#[test]
fn logical_positions_skip_the_holes() {
    let mut p = filled(6);
    p.del_block(0);
    p.del_block(2);
    assert_eq!(p.get_existing_block_indices(), vec![1, 2, 4, 5]);
    assert_eq!(p.get_array_index_for_logical_position(0), Some(1));
    assert_eq!(p.get_array_index_for_logical_position(1), Some(2));
    assert_eq!(p.get_array_index_for_logical_position(2), Some(4));
    assert_eq!(p.get_array_index_for_logical_position(3), Some(5));
    assert_eq!(p.get_array_index_for_logical_position(4), None);
    assert_eq!(p.get_array_index_for_logical_position(usize::MAX), None);
}

#[test]
fn selection_moves_and_stops_at_both_ends() {
    let mut p = Palette::default();
    p.decrement_counter();
    assert_eq!(p.selected_block_id(), 0);
    for expected in [1, 2, 3, 4, 4, 4] {
        p.increment_counter();
        assert_eq!(p.selected_block_id(), expected);
    }
    for expected in [3, 2, 1, 0, 0] {
        p.decrement_counter();
        assert_eq!(p.selected_block_id(), expected);
    }
}

#[test]
fn selection_on_an_empty_palette_stays_at_zero() {
    let mut p = Palette::empty();
    p.increment_counter();
    assert_eq!(p.selected_block_id(), 0);
    p.decrement_counter();
    assert_eq!(p.selected_block_id(), 0);
}

#[test]
fn remove_clamps_the_selection() {
    let mut p = Palette::default();
    for _ in 0..4 {
        p.increment_counter();
    }
    assert_eq!(p.selected_block_id(), 4);
    p.del_block(4);
    assert_eq!(p.selected_block_id(), 3);
    p.del_block(0);
    assert_eq!(p.selected_block_id(), 2);
    p.del_block(0);
    assert_eq!(p.block_count(), 3);
    assert_eq!(p.selected_block_id(), 2);
}

#[test]
fn remove_keeps_a_selection_that_is_still_in_range() {
    let mut p = Palette::default();
    p.increment_counter();
    p.del_block(4);
    assert_eq!(p.selected_block_id(), 1);
}

#[test]
fn toggle_lock_by_ordinal_goes_by_storage_index() {
    let mut p = filled(6);
    p.del_block(1);
    p.toggle_lock(3);
    assert!(p.get_block(2).unwrap().locked);
    assert_eq!(p.get_locked_blocks().len(), 1);
    p.toggle_lock(3);
    assert!(!p.get_block(2).unwrap().locked);
    let before = cells(&p);
    p.toggle_lock(2);
    assert_eq!(cells(&p), before);
}

#[test]
fn toggle_lock_by_ordinal_on_an_empty_cell_changes_nothing() {
    let mut p = filled(2);
    let before = cells(&p);
    p.toggle_lock(3);
    assert_eq!(cells(&p), before);
    assert_eq!(p.block_count(), 2);
    assert!(p.get_locked_blocks().is_empty());
}

#[test]
fn toggle_lock_by_ordinal_outside_one_to_nine_changes_nothing() {
    let mut p = filled(9);
    let before = cells(&p);
    p.toggle_lock(0);
    assert_eq!(cells(&p), before);
    p.toggle_lock(10);
    assert_eq!(cells(&p), before);
    p.toggle_lock(usize::MAX);
    assert_eq!(cells(&p), before);
    p.toggle_lock(9);
    assert!(p.get_block(8).unwrap().locked);
    p.toggle_lock(1);
    assert!(p.get_block(0).unwrap().locked);
}

#[test]
fn toggle_lock_at_goes_by_logical_position() {
    let mut p = filled(6);
    p.del_block(1);
    p.toggle_lock_at(1);
    assert!(p.get_block(2).unwrap().locked);
    assert!(!p.get_block(0).unwrap().locked);
    p.toggle_lock_at(1);
    assert!(!p.get_block(2).unwrap().locked);
    let before = cells(&p);
    p.toggle_lock_at(5);
    assert_eq!(cells(&p), before);
}

#[test]
fn toggle_lock_keeps_the_colour() {
    let mut p = Palette::default();
    let c = Color { hue: 42_000, sat: 4200, val: 420 };
    p.set_block_color(3, c);
    p.toggle_lock_at(3);
    assert_eq!(p.get_block(3), Some(ColorBlock { color: c, locked: true }));
}

#[test]
fn set_color_direct_overwrites_a_locked_block() {
    let mut p = Palette::default();
    p.toggle_lock_at(2);
    p.set_color_direct(2, "ff8000");
    assert_eq!(
        p.get_block(2),
        Some(ColorBlock { color: Color { hue: 30_118, sat: 10_000, val: 10_000 }, locked: true })
    );
    assert_eq!(p.hex_at(2), Some("ff8000".to_string()));
}

#[test]
fn set_color_direct_goes_by_logical_position() {
    let mut p = filled(6);
    p.del_block(0);
    p.set_color_direct(0, "00ff00");
    assert_eq!(p.get_block(0), None);
    assert_eq!(p.get_block(1).unwrap().color, Color { hue: 120_000, sat: 10_000, val: 10_000 });
}

#[test]
fn set_color_direct_past_the_last_position_changes_nothing() {
    let mut p = Palette::default();
    let before = cells(&p);
    p.set_color_direct(5, "ff8000");
    assert_eq!(cells(&p), before);
}

#[test]
fn set_color_direct_takes_short_text() {
    let mut p = Palette::default();
    p.set_color_direct(0, "ff");
    assert_eq!(p.hex_at(0), Some("ff0000".to_string()));
    p.set_color_direct(0, "");
    assert_eq!(p.hex_at(0), Some("000000".to_string()));
}

#[test]
fn set_block_color_normalises_the_colour() {
    let mut p = Palette::default();
    p.set_block_color(0, Color { hue: 400_000, sat: 20_000, val: 10_001 });
    assert_eq!(p.get_block(0).unwrap().color, Color { hue: 40_000, sat: 10_000, val: 10_000 });
}

#[test]
fn paint_goes_by_storage_index_and_keeps_the_lock() {
    let mut p = filled(6);
    p.del_block(1);
    p.toggle_lock(3);
    let c = Color { hue: 1, sat: 2, val: 3 };
    p.paint(2, c);
    assert_eq!(p.get_block(2), Some(ColorBlock { color: c, locked: true }));
    let before = cells(&p);
    p.paint(1, c);
    assert_eq!(cells(&p), before);
    p.paint(9, c);
    assert_eq!(cells(&p), before);
}

#[test]
fn locked_blocks_come_in_storage_order() {
    let mut p = filled(6);
    for pos in 0..6 {
        p.set_block_color(pos, Color { hue: 1000 * pos as u32, sat: 0, val: 0 });
    }
    p.toggle_lock(5);
    p.toggle_lock(2);
    p.toggle_lock(4);
    let hues: Vec<u32> = p.get_locked_blocks().iter().map(|b| b.color.hue).collect();
    assert_eq!(hues, vec![1000, 3000, 4000]);
    assert!(p.get_locked_blocks().iter().all(|b| b.locked));
    assert_eq!(p.first_locked_position(), Some(1));
}

#[test]
fn first_locked_position_counts_occupied_cells_only() {
    let mut p = filled(6);
    assert_eq!(p.first_locked_position(), None);
    p.del_block(0);
    p.del_block(0);
    p.toggle_lock(4);
    assert_eq!(p.first_locked_position(), Some(1));
}

#[test]
fn hex_at_exports_six_digits() {
    let mut p = Palette::default();
    assert_eq!(p.hex_at(0), Some("000000".to_string()));
    p.set_block_color(4, Color { hue: 200_000, sat: 5000, val: 6000 });
    assert_eq!(p.hex_at(4), Some("4d8099".to_string()));
    assert_eq!(p.hex_at(5), None);
}

#[test]
fn color_block_helpers() {
    let mut b = ColorBlock::new(370_000, 20_000, 5);
    assert_eq!(b, ColorBlock { color: Color { hue: 10_000, sat: 10_000, val: 5 }, locked: false });
    b.locked = true;
    b.change_color(200_000, 5000, 6000);
    assert_eq!(b.get_hsv_values(), (200_000, 5000, 6000));
    assert!(b.locked);
    assert_eq!(b.get_hex(), "4d8099");
}
