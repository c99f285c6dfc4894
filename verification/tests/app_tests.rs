use color_harmony::app::{App, CurrentPage, Key, KeyPress, Modifier};
use color_harmony::color::Color;
use color_harmony::store::ColorBlock;
use color_harmony::theory::ColorTheories;

fn plain(code: Key) -> KeyPress {
    KeyPress { code, modifiers: Modifier::Plain }
}

fn ch(c: char) -> KeyPress {
    plain(Key::Char(c))
}

fn with(code: Key, modifiers: Modifier) -> KeyPress {
    KeyPress { code, modifiers }
}

fn cells(app: &App) -> Vec<Option<ColorBlock>> {
    (0..9).map(|i| app.palette.get_block(i)).collect()
}

fn field(app: &App) -> String {
    app.edit_color_field.iter().collect()
}

fn press_all(app: &mut App, keys: &str) {
    for c in keys.chars() {
        assert_eq!(app.handle_key_event(ch(c)), None);
    }
}

#[test]
fn default_app_starts_on_the_main_page() {
    let app = App::default();
    assert_eq!(app.current_page, CurrentPage::Main);
    assert_eq!(app.current_color_theory, ColorTheories::Analogous);
    assert_eq!(app.theory_selector_state.selected(), None);
    assert_eq!(app.palette.block_count(), 5);
    assert_eq!(app.palette.selected_block_id(), 0);
    assert!(app.edit_color_field.is_empty());
    assert!(!app.exit);
}

#[test]
fn q_on_the_main_page_asks_to_end() {
    let mut app = App::default();
    assert_eq!(app.handle_key_event(ch('q')), None);
    assert!(app.exit);
    assert_eq!(app.current_page, CurrentPage::Main);
}

#[test]
fn exit_sets_the_flag() {
    let mut app = App::default();
    app.exit();
    assert!(app.exit);
}

#[test]
fn arrows_move_the_selection() {
    let mut app = App::default();
    app.handle_key_event(plain(Key::Left));
    assert_eq!(app.palette.selected_block_id(), 0);
    for expected in [1, 2, 3, 4, 4] {
        app.handle_key_event(plain(Key::Right));
        assert_eq!(app.palette.selected_block_id(), expected);
    }
    app.handle_key_event(with(Key::Left, Modifier::Control));
    assert_eq!(app.palette.selected_block_id(), 3);
}

#[test]
fn a_adds_and_d_removes_the_selected_block() {
    let mut app = App::default();
    app.handle_key_event(ch('a'));
    assert_eq!(app.palette.block_count(), 6);
    app.handle_key_event(plain(Key::Right));
    app.handle_key_event(ch('d'));
    assert_eq!(app.palette.get_existing_block_indices(), vec![0, 2, 3, 4, 5]);
    assert_eq!(app.palette.selected_block_id(), 1);
    app.handle_key_event(ch('d'));
    assert_eq!(app.palette.get_existing_block_indices(), vec![0, 3, 4, 5]);
    app.handle_key_event(ch('d'));
    assert_eq!(app.palette.get_existing_block_indices(), vec![0, 4, 5]);
    app.handle_key_event(ch('d'));
    assert_eq!(app.palette.get_existing_block_indices(), vec![0, 4, 5]);
    for _ in 0..10 {
        app.handle_key_event(ch('a'));
    }
    assert_eq!(app.palette.block_count(), 9);
}

#[test]
fn d_on_the_last_block_clamps_the_selection() {
    let mut app = App::default();
    for _ in 0..4 {
        app.handle_key_event(plain(Key::Right));
    }
    app.handle_key_event(ch('d'));
    assert_eq!(app.palette.block_count(), 4);
    assert_eq!(app.palette.selected_block_id(), 3);
}

#[test]
fn l_flips_the_lock_of_the_selected_block() {
    let mut app = App::default();
    app.handle_key_event(plain(Key::Right));
    app.handle_key_event(plain(Key::Right));
    app.handle_key_event(ch('l'));
    assert!(app.palette.get_block(2).unwrap().locked);
    assert_eq!(app.palette.get_locked_blocks().len(), 1);
    app.handle_key_event(ch('l'));
    assert!(!app.palette.get_block(2).unwrap().locked);
}

#[test]
fn alt_with_a_digit_flips_the_lock_of_that_cell() {
    let mut app = App::default();
    app.handle_key_event(with(Key::Char('3'), Modifier::Alt));
    assert!(app.palette.get_block(2).unwrap().locked);
    app.handle_key_event(with(Key::Char('1'), Modifier::Alt));
    assert!(app.palette.get_block(0).unwrap().locked);
    let before = cells(&app);
    app.handle_key_event(with(Key::Char('9'), Modifier::Alt));
    assert_eq!(cells(&app), before);
    app.handle_key_event(with(Key::Char('0'), Modifier::Alt));
    assert_eq!(cells(&app), before);
    app.handle_key_event(with(Key::Char('3'), Modifier::Alt));
    assert!(!app.palette.get_block(2).unwrap().locked);
}

#[test]
fn a_digit_without_alt_alone_does_nothing() {
    let mut app = App::default();
    let before = cells(&app);
    for modifiers in [Modifier::Plain, Modifier::Control, Modifier::Other] {
        app.handle_key_event(with(Key::Char('3'), modifiers));
        assert_eq!(cells(&app), before);
    }
}

#[test]
fn letters_act_whatever_the_modifier() {
    let mut app = App::default();
    app.handle_key_event(with(Key::Char('a'), Modifier::Alt));
    assert_eq!(app.palette.block_count(), 6);
    app.handle_key_event(with(Key::Char('l'), Modifier::Control));
    assert!(app.palette.get_block(0).unwrap().locked);
    app.handle_key_event(with(Key::Char('q'), Modifier::Other));
    assert!(app.exit);
}

#[test]
fn c_hands_out_the_digits_of_the_selected_block() {
    let mut app = App::default();
    assert_eq!(app.handle_key_event(ch('c')), Some("000000".to_string()));
    app.palette.set_block_color(1, Color { hue: 200_000, sat: 5000, val: 6000 });
    app.handle_key_event(plain(Key::Right));
    assert_eq!(app.handle_key_event(ch('c')), Some("4d8099".to_string()));
    assert_eq!(app.current_page, CurrentPage::Main);
}

#[test]
fn other_keys_on_the_main_page_do_nothing() {
    let mut app = App::default();
    let before = cells(&app);
    for key in [
        plain(Key::Up),
        plain(Key::Down),
        plain(Key::Enter),
        plain(Key::Esc),
        plain(Key::Backspace),
        plain(Key::Other),
        ch('y'),
        ch('Q'),
        ch('A'),
    ] {
        assert_eq!(app.handle_key_event(key), None);
        assert_eq!(cells(&app), before);
        assert_eq!(app.current_page, CurrentPage::Main);
        assert!(!app.exit);
        assert_eq!(app.palette.selected_block_id(), 0);
    }
}

#[test]
fn space_generates_with_the_current_theory() {
    let mut app = App::default();
    app.current_color_theory = ColorTheories::Monochrome;
    app.handle_key_event(with(Key::Char('3'), Modifier::Alt));
    let locked = app.palette.get_block(2);
    assert_eq!(app.handle_key_event(ch(' ')), None);
    assert_eq!(app.palette.get_block(2), locked);
    let sat: Vec<u32> =
        (0..5).map(|i| app.palette.get_block(i).unwrap().color.sat).collect();
    assert_eq!(sat, vec![1000, 2100, 0, 4900, 6300]);
    assert_eq!(app.current_page, CurrentPage::Main);
    assert_eq!(app.current_color_theory, ColorTheories::Monochrome);
}

#[test]
fn x_opens_the_selector_on_its_first_item() {
    let mut app = App::default();
    app.handle_key_event(ch('x'));
    assert_eq!(app.current_page, CurrentPage::TheorySelector);
    assert_eq!(app.theory_selector_state.selected(), Some(0));
}

#[test]
fn selector_moves_with_the_arrows() {
    let mut app = App::default();
    app.handle_key_event(ch('x'));
    app.handle_key_event(plain(Key::Down));
    assert_eq!(app.theory_selector_state.selected(), Some(1));
    app.handle_key_event(plain(Key::Down));
    assert_eq!(app.theory_selector_state.selected(), Some(2));
    app.handle_key_event(plain(Key::Up));
    assert_eq!(app.theory_selector_state.selected(), Some(1));
    app.handle_key_event(plain(Key::Up));
    app.handle_key_event(plain(Key::Up));
    assert_eq!(app.theory_selector_state.selected(), Some(0));
    app.handle_key_event(plain(Key::Right));
    assert_eq!(app.theory_selector_state.selected(), Some(usize::MAX));
    app.handle_key_event(plain(Key::Down));
    assert_eq!(app.theory_selector_state.selected(), Some(usize::MAX));
    app.handle_key_event(plain(Key::Up));
    assert_eq!(app.theory_selector_state.selected(), Some(usize::MAX - 1));
    app.handle_key_event(plain(Key::Left));
    assert_eq!(app.theory_selector_state.selected(), Some(0));
    assert_eq!(app.current_page, CurrentPage::TheorySelector);
}

#[test]
fn selector_steps_from_nothing_selected() {
    let mut app = App::default();
    app.current_page = CurrentPage::TheorySelector;
    app.handle_key_event(plain(Key::Down));
    assert_eq!(app.theory_selector_state.selected(), Some(0));
    let mut app = App::default();
    app.current_page = CurrentPage::TheorySelector;
    app.handle_key_event(plain(Key::Up));
    assert_eq!(app.theory_selector_state.selected(), Some(usize::MAX));
}

#[test]
fn enter_applies_the_selected_theory() {
    let all = ColorTheories::all();
    for (steps, theory) in all.iter().enumerate() {
        let mut app = App::default();
        app.handle_key_event(ch('x'));
        for _ in 0..steps {
            app.handle_key_event(plain(Key::Down));
        }
        app.handle_key_event(plain(Key::Enter));
        assert_eq!(app.current_color_theory, *theory);
        assert_eq!(app.current_page, CurrentPage::Main);
    }
}

#[test]
fn space_applies_the_selected_theory_too() {
    let mut app = App::default();
    app.handle_key_event(ch('x'));
    app.handle_key_event(plain(Key::Down));
    app.handle_key_event(ch(' '));
    assert_eq!(app.current_color_theory, ColorTheories::Complementary);
    assert_eq!(app.current_page, CurrentPage::Main);
    assert_eq!(cells(&app), cells(&App::default()));
}

#[test]
fn an_index_past_the_list_stands_for_the_last_theory() {
    let mut app = App::default();
    app.handle_key_event(ch('x'));
    app.handle_key_event(plain(Key::Right));
    app.handle_key_event(plain(Key::Enter));
    assert_eq!(app.current_color_theory, ColorTheories::Neutrals);
    assert_eq!(app.current_page, CurrentPage::Main);
}

#[test]
fn enter_with_nothing_selected_does_nothing() {
    let mut app = App::default();
    app.current_page = CurrentPage::TheorySelector;
    app.handle_key_event(plain(Key::Enter));
    assert_eq!(app.current_page, CurrentPage::TheorySelector);
    assert_eq!(app.current_color_theory, ColorTheories::Analogous);
    app.apply_theory_selection();
    assert_eq!(app.current_page, CurrentPage::TheorySelector);
}

#[test]
fn selector_closes_without_a_change() {
    for key in [ch('x'), ch('q'), plain(Key::Esc)] {
        let mut app = App::default();
        app.handle_key_event(ch('x'));
        app.handle_key_event(plain(Key::Down));
        app.handle_key_event(key);
        assert_eq!(app.current_page, CurrentPage::Main);
        assert_eq!(app.current_color_theory, ColorTheories::Analogous);
        assert!(!app.exit);
    }
}

#[test]
fn selector_leaves_the_palette_alone() {
    let mut app = App::default();
    app.handle_key_event(ch('x'));
    let before = cells(&app);
    for key in [ch('a'), ch('d'), ch('l'), ch('c'), ch('z'), plain(Key::Backspace), plain(Key::Other)] {
        assert_eq!(app.handle_key_event(key), None);
        assert_eq!(cells(&app), before);
        assert_eq!(app.current_page, CurrentPage::TheorySelector);
    }
}

#[test]
fn z_opens_the_editor_and_z_or_q_closes_it() {
    for key in [ch('z'), ch('q')] {
        let mut app = App::default();
        app.handle_key_event(ch('z'));
        assert_eq!(app.current_page, CurrentPage::EditColor);
        press_all(&mut app, "ab");
        app.handle_key_event(key);
        assert_eq!(app.current_page, CurrentPage::Main);
        assert_eq!(field(&app), "ab");
        assert!(!app.exit);
    }
}

#[test]
fn editor_takes_up_to_six_hex_digits() {
    let mut app = App::default();
    app.handle_key_event(ch('z'));
    press_all(&mut app, "fF8g0 0-1x");
    assert_eq!(field(&app), "fF8001");
    press_all(&mut app, "23");
    assert_eq!(field(&app), "fF8001");
}

#[test]
fn backspace_removes_the_last_digit() {
    let mut app = App::default();
    app.handle_key_event(ch('z'));
    press_all(&mut app, "abc");
    app.handle_key_event(plain(Key::Backspace));
    assert_eq!(field(&app), "ab");
    app.handle_key_event(with(Key::Backspace, Modifier::Alt));
    assert_eq!(field(&app), "a");
    app.handle_key_event(plain(Key::Backspace));
    app.handle_key_event(plain(Key::Backspace));
    assert_eq!(field(&app), "");
}

#[test]
fn control_backspace_empties_the_field() {
    let mut app = App::default();
    app.handle_key_event(ch('z'));
    press_all(&mut app, "abcdef");
    app.handle_key_event(with(Key::Backspace, Modifier::Control));
    assert_eq!(field(&app), "");
    app.handle_key_event(with(Key::Backspace, Modifier::Control));
    assert_eq!(field(&app), "");
}

#[test]
fn enter_in_the_editor_recolours_the_selected_block() {
    let mut app = App::default();
    app.handle_key_event(plain(Key::Right));
    app.handle_key_event(ch('l'));
    app.handle_key_event(ch('z'));
    press_all(&mut app, "ff8000");
    app.handle_key_event(plain(Key::Enter));
    assert_eq!(field(&app), "");
    assert_eq!(app.current_page, CurrentPage::EditColor);
    assert_eq!(
        app.palette.get_block(1),
        Some(ColorBlock { color: Color { hue: 30_118, sat: 10_000, val: 10_000 }, locked: true })
    );
    assert_eq!(app.palette.get_block(0), Some(ColorBlock { color: Color::neutral(), locked: false }));
}

#[test]
fn enter_in_the_editor_with_a_short_field() {
    let mut app = App::default();
    app.handle_key_event(ch('z'));
    press_all(&mut app, "ff");
    app.handle_key_event(plain(Key::Enter));
    assert_eq!(app.palette.hex_at(0), Some("ff0000".to_string()));
    app.handle_key_event(plain(Key::Enter));
    assert_eq!(app.palette.hex_at(0), Some("000000".to_string()));
}

#[test]
fn enter_in_the_editor_without_a_block_keeps_the_field() {
    let mut app = App::default();
    app.palette = color_harmony::store::Palette::empty();
    app.handle_key_event(ch('z'));
    press_all(&mut app, "ff");
    app.handle_key_event(plain(Key::Enter));
    assert_eq!(field(&app), "ff");
    app.apply_edit();
    assert_eq!(field(&app), "ff");
}

#[test]
fn editor_leaves_the_rest_alone() {
    let mut app = App::default();
    app.handle_key_event(ch('z'));
    let before = cells(&app);
    for key in [
        plain(Key::Left),
        plain(Key::Right),
        plain(Key::Up),
        plain(Key::Down),
        plain(Key::Esc),
        plain(Key::Other),
        ch('x'),
        ch('l'),
        ch(' '),
    ] {
        assert_eq!(app.handle_key_event(key), None);
        assert_eq!(cells(&app), before);
        assert_eq!(app.current_page, CurrentPage::EditColor);
        assert_eq!(field(&app), "");
        assert_eq!(app.palette.selected_block_id(), 0);
    }
}
