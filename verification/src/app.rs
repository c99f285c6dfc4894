//! The palette controller: which page is shown, what a key press does on
//! it, and what the press asks of the world outside.

use vstd::prelude::*;
use crate::color::{
    digits2rgb, is_hex, is_hex_char, rgb2hsv, spec_hex2hsv, spec_hsv2hex, Color,
};
use crate::harmony::spec_generate;
use crate::noise::{noise_fits, Noise};
use crate::store::{
    block_count, clamp_selection, locked_blocks, occupied, spec_add, spec_del, spec_paint,
    spec_toggle, ColorBlock, Palette, DEFAULT_BLOCKS, SLOT_COUNT,
};
use crate::theory::{spec_theories, ColorTheories, THEORY_COUNT};
use ratatui::widgets::ListState;

verus! {

/// The page that the keys act on.
#[derive(Debug, PartialEq, Eq, Copy, Clone, Structural)]
pub enum CurrentPage {
    Main,
    TheorySelector,
    EditColor,
}

/// The key of a key press, as far as the controller tells keys apart.
#[derive(Debug, PartialEq, Eq, Copy, Clone, Structural)]
pub enum Key {
    Char(char),
    Left,
    Right,
    Up,
    Down,
    Enter,
    Esc,
    Backspace,
    Other,
}

/// The modifier keys held with a key: none, Alt alone, Control alone, or
/// any other set.
#[derive(Debug, PartialEq, Eq, Copy, Clone, Structural)]
pub enum Modifier {
    Plain,
    Alt,
    Control,
    Other,
}

/// One key press.
#[derive(Debug, PartialEq, Eq, Copy, Clone, Structural)]
pub struct KeyPress {
    pub code: Key,
    pub modifiers: Modifier,
}

/// Most characters that the colour field takes.
pub const FIELD_LIMIT: usize = 6;

/// The selection state of the list widget of the `ratatui` crate.
#[verifier::external_type_specification]
#[verifier::external_body]
pub struct ExListState(ListState);

/// The index that a list state holds as selected.
pub uninterp spec fn list_selected(state: ListState) -> Option<usize>;

/// `ListState::default`: nothing is selected.
pub assume_specification[ <ListState as core::default::Default>::default ]() -> (state: ListState)
    ensures
        list_selected(state) is None,
;

/// `ListState::selected` returns the selected index.
pub assume_specification[ ListState::selected ](state: &ListState) -> (index: Option<usize>)
    ensures
        index == list_selected(*state),
;

/// `ListState::select_first` selects index zero.
pub assume_specification[ ListState::select_first ](state: &mut ListState)
    ensures
        list_selected(*final(state)) == Some(0usize),
;

/// `ListState::select_last` selects the largest index there is; the widget
/// brings it down to the last item when it next draws.
pub assume_specification[ ListState::select_last ](state: &mut ListState)
    ensures
        list_selected(*final(state)) == Some(usize::MAX),
;

/// `ListState::select_next` selects the index after the selected one,
/// stopping at the largest index there is, and index zero when nothing was
/// selected.
pub assume_specification[ ListState::select_next ](state: &mut ListState)
    ensures
        list_selected(*final(state)) == spec_next(list_selected(*old(state))),
;

/// `ListState::select_previous` selects the index before the selected one,
/// stopping at zero, and the largest index there is when nothing was
/// selected.
pub assume_specification[ ListState::select_previous ](state: &mut ListState)
    ensures
        list_selected(*final(state)) == spec_previous(list_selected(*old(state))),
;

/// The selection after a step down the list.
pub open spec fn spec_next(selected: Option<usize>) -> Option<usize> {
    match selected {
        None => Some(0usize),
        Some(i) => if i == usize::MAX {
            Some(i)
        } else {
            Some((i + 1) as usize)
        },
    }
}

/// The selection after a step up the list.
pub open spec fn spec_previous(selected: Option<usize>) -> Option<usize> {
    match selected {
        None => Some(usize::MAX),
        Some(i) => if i == 0 {
            Some(i)
        } else {
            Some((i - 1) as usize)
        },
    }
}

/// The controller: the palette and the state of the pages around it.
pub struct App {
    pub theory_selector_state: ListState,
    pub current_page: CurrentPage,
    pub current_color_theory: ColorTheories,
    pub palette: Palette,
    pub edit_color_field: Vec<char>,
    pub exit: bool,
}

/// What the contracts say of a controller.
pub struct AppView {
    pub page: CurrentPage,
    pub theory: ColorTheories,
    pub selector: Option<usize>,
    pub slots: Seq<Option<ColorBlock>>,
    pub selected: nat,
    pub field: Seq<char>,
    pub exit: bool,
}

/// The theory that the selector applies for a selected index: the one at
/// that place of the list, the last one for an index past the end.
pub open spec fn theory_for(index: usize) -> ColorTheories {
    if index < THEORY_COUNT {
        spec_theories()[index as int]
    } else {
        spec_theories()[THEORY_COUNT - 1]
    }
}

/// The selector's choice made the current theory, and back to the main
/// page; nothing when the selector has nothing selected.
pub open spec fn apply_selection(v: AppView) -> AppView {
    match v.selector {
        Some(index) => AppView { theory: theory_for(index), page: CurrentPage::Main, ..v },
        None => v,
    }
}

/// The cells with the lock of the selected block flipped.
pub open spec fn toggle_selected(v: AppView) -> Seq<Option<ColorBlock>> {
    if v.selected < block_count(v.slots) {
        spec_toggle(v.slots, occupied(v.slots)[v.selected as int])
    } else {
        v.slots
    }
}

/// Whether the press asks for a generation: the space bar on the main page.
pub open spec fn is_generate(v: AppView, key: KeyPress) -> bool {
    v.page == CurrentPage::Main && key.code == Key::Char(' ')
}

/// A press on the main page, but for the space bar.
pub open spec fn step_main(v: AppView, key: KeyPress) -> AppView {
    match key.code {
        Key::Char(c) => {
            if c == 'q' {
                AppView { exit: true, ..v }
            } else if c == 'a' {
                AppView { slots: spec_add(v.slots), ..v }
            } else if c == 'd' {
                AppView {
                    slots: spec_del(v.slots, v.selected),
                    selected: clamp_selection(
                        v.selected,
                        block_count(spec_del(v.slots, v.selected)),
                    ),
                    ..v
                }
            } else if c == 'x' {
                AppView { selector: Some(0usize), page: CurrentPage::TheorySelector, ..v }
            } else if c == 'z' {
                AppView { page: CurrentPage::EditColor, ..v }
            } else if c == 'l' {
                AppView { slots: toggle_selected(v), ..v }
            } else if key.modifiers == Modifier::Alt && '1' <= c <= '9' {
                AppView { slots: spec_toggle(v.slots, c as int - 49), ..v }
            } else {
                v
            }
        },
        Key::Left => AppView {
            selected: if v.selected == 0 {
                0nat
            } else {
                (v.selected - 1) as nat
            },
            ..v
        },
        Key::Right => AppView {
            selected: clamp_selection(v.selected + 1, block_count(v.slots)),
            ..v
        },
        _ => v,
    }
}

/// A press on the theory selector.
pub open spec fn step_selector(v: AppView, key: KeyPress) -> AppView {
    match key.code {
        Key::Char(c) => {
            if c == 'x' || c == 'q' {
                AppView { page: CurrentPage::Main, ..v }
            } else if c == ' ' {
                apply_selection(v)
            } else {
                v
            }
        },
        Key::Esc => AppView { page: CurrentPage::Main, ..v },
        Key::Left => AppView { selector: Some(0usize), ..v },
        Key::Right => AppView { selector: Some(usize::MAX), ..v },
        Key::Up => AppView { selector: spec_previous(v.selector), ..v },
        Key::Down => AppView { selector: spec_next(v.selector), ..v },
        Key::Enter => apply_selection(v),
        _ => v,
    }
}

/// A press on the colour editor.
pub open spec fn step_editor(v: AppView, key: KeyPress) -> AppView {
    match key.code {
        Key::Char(c) => {
            if c == 'z' || c == 'q' {
                AppView { page: CurrentPage::Main, ..v }
            } else if is_hex_char(c) && v.field.len() < FIELD_LIMIT {
                AppView { field: v.field.push(c), ..v }
            } else {
                v
            }
        },
        Key::Backspace => {
            if key.modifiers == Modifier::Control {
                AppView { field: Seq::empty(), ..v }
            } else if v.field.len() > 0 {
                AppView { field: v.field.drop_last(), ..v }
            } else {
                v
            }
        },
        Key::Enter => {
            if v.selected < block_count(v.slots) {
                AppView {
                    slots: spec_paint(
                        v.slots,
                        occupied(v.slots)[v.selected as int],
                        spec_hex2hsv(v.field),
                    ),
                    field: Seq::empty(),
                    ..v
                }
            } else {
                v
            }
        },
        _ => v,
    }
}

/// The controller after a key press that asks for no generation.
pub open spec fn spec_step(v: AppView, key: KeyPress) -> AppView {
    match v.page {
        CurrentPage::Main => step_main(v, key),
        CurrentPage::TheorySelector => step_selector(v, key),
        CurrentPage::EditColor => step_editor(v, key),
    }
}

/// Whether the press asks to copy the selected block's digits: `c` on the
/// main page, with a block selected.
pub open spec fn is_copy(v: AppView, key: KeyPress) -> bool {
    &&& v.page == CurrentPage::Main
    &&& key.code == Key::Char('c')
    &&& v.selected < block_count(v.slots)
}

impl View for App {
    type V = AppView;

    open spec fn view(&self) -> AppView {
        AppView {
            page: self.current_page,
            theory: self.current_color_theory,
            selector: list_selected(self.theory_selector_state),
            slots: self.palette@,
            selected: self.palette.selected(),
            field: self.edit_color_field@,
            exit: self.exit,
        }
    }
}

impl App {
    /// The palette is well formed.
    pub open spec fn wf(&self) -> bool {
        self.palette.wf()
    }

    /// Asks the program to end.
    pub fn exit(&mut self)
        ensures
            final(self)@ == (AppView { exit: true, ..old(self)@ }),
    {
        self.exit = true;
    }

    /// Makes the selector's choice the current theory and returns to the
    /// main page. An index past the end of the list stands for the last
    /// theory. Does nothing when the selector has nothing selected.
    pub fn apply_theory_selection(&mut self)
        ensures
            final(self)@ == apply_selection(old(self)@),
    {
        if let Some(selected) = self.theory_selector_state.selected() {
            let index: usize = if selected < THEORY_COUNT {
                selected
            } else {
                THEORY_COUNT - 1
            };
            if let Some(theory) = ColorTheories::from_index(index) {
                self.current_color_theory = theory;
                self.current_page = CurrentPage::Main;
            }
        }
    }

    /// Gives the selected block the colour that the field spells and
    /// empties the field. Does nothing when no block is selected.
    pub fn apply_edit(&mut self)
        requires
            old(self).wf(),
        ensures
            final(self).wf(),
            final(self)@ == step_editor(
                old(self)@,
                KeyPress { code: Key::Enter, modifiers: Modifier::Plain },
            ),
    {
        let selected = self.palette.selected_block_id();
        if selected < self.palette.block_count() {
            let (r, g, b) = digits2rgb(&self.edit_color_field);
            let color = rgb2hsv(r, g, b);
            self.palette.set_block_color(selected, color);
            self.edit_color_field = Vec::new();
        }
    }

    /// Acts on one key press. The space bar on the main page recolours the
    /// palette by the current theory, with freshly drawn noise; every other
    /// press has the one outcome that `spec_step` gives. Returns the digits
    /// to copy when the press asks for a copy, else nothing.
    pub fn handle_key_event(&mut self, key_event: KeyPress) -> (copied: Option<String>)
        requires
            old(self).wf(),
        ensures
            final(self).wf(),
            !is_generate(old(self)@, key_event) ==> final(self)@ == spec_step(
                old(self)@,
                key_event,
            ),
            is_generate(old(self)@, key_event) ==> exists|noise: Noise|
                noise_fits(
                    old(self)@.theory,
                    locked_blocks(old(self)@.slots).len() > 0,
                    noise,
                ) && final(self)@ == (AppView {
                    slots: #[trigger] spec_generate(old(self)@.slots, old(self)@.theory, noise),
                    ..old(self)@
                }),
            copied is Some <==> is_copy(old(self)@, key_event),
            copied is Some ==> copied->0@ == spec_hsv2hex(
                old(self)@.slots[occupied(old(self)@.slots)[old(self)@.selected as int]]->0.color,
            ),
    {
        let mut copied: Option<String> = None;
        match self.current_page {
            CurrentPage::Main => match key_event.code {
                Key::Char(c) => {
                    if c == 'q' {
                        self.exit();
                    } else if c == 'a' {
                        self.palette.add_block();
                    } else if c == 'd' {
                        let selected = self.palette.selected_block_id();
                        self.palette.del_block(selected);
                    } else if c == 'x' {
                        self.theory_selector_state.select_first();
                        self.current_page = CurrentPage::TheorySelector;
                    } else if c == 'z' {
                        self.current_page = CurrentPage::EditColor;
                    } else if c == 'l' {
                        let selected = self.palette.selected_block_id();
                        self.palette.toggle_lock_at(selected);
                    } else if c == 'c' {
                        let selected = self.palette.selected_block_id();
                        copied = self.palette.hex_at(selected);
                    } else if key_event.modifiers == Modifier::Alt && '1' <= c && c <= '9' {
                        let num: usize = (c as u32 - 48) as usize;
                        self.palette.toggle_lock(num);
                    } else if c == ' ' {
                        self.palette.generate(self.current_color_theory);
                    }
                },
                Key::Left => self.palette.decrement_counter(),
                Key::Right => self.palette.increment_counter(),
                _ => {},
            },
            CurrentPage::TheorySelector => match key_event.code {
                Key::Char(c) => {
                    if c == 'x' || c == 'q' {
                        self.current_page = CurrentPage::Main;
                    } else if c == ' ' {
                        self.apply_theory_selection();
                    }
                },
                Key::Esc => {
                    self.current_page = CurrentPage::Main;
                },
                Key::Left => self.theory_selector_state.select_first(),
                Key::Right => self.theory_selector_state.select_last(),
                Key::Up => self.theory_selector_state.select_previous(),
                Key::Down => self.theory_selector_state.select_next(),
                Key::Enter => self.apply_theory_selection(),
                _ => {},
            },
            CurrentPage::EditColor => match key_event.code {
                Key::Char(c) => {
                    if c == 'z' || c == 'q' {
                        self.current_page = CurrentPage::Main;
                    } else if is_hex(c) && self.edit_color_field.len() < FIELD_LIMIT {
                        self.edit_color_field.push(c);
                    }
                },
                Key::Backspace => {
                    if key_event.modifiers == Modifier::Control {
                        self.edit_color_field = Vec::new();
                    } else if self.edit_color_field.len() > 0 {
                        self.edit_color_field.pop();
                    }
                },
                Key::Enter => self.apply_edit(),
                _ => {},
            },
        }
        copied
    }
}

impl Default for App {
    /// The controller at start: the default palette on the main page, the
    /// analogous theory, an empty field, nothing selected in the selector.
    fn default() -> (app: App)
        ensures
            app.wf(),
            app@.page == CurrentPage::Main,
            app@.theory == ColorTheories::Analogous,
            app@.selector is None,
            app@.selected == 0,
            app@.field.len() == 0,
            !app@.exit,
            block_count(app@.slots) == DEFAULT_BLOCKS,
            forall|i: int|
                0 <= i < SLOT_COUNT ==> #[trigger] app@.slots[i] == (if i < DEFAULT_BLOCKS {
                    Some(ColorBlock { color: Color::spec_neutral(), locked: false })
                } else {
                    None
                }),
    {
        App {
            theory_selector_state: ListState::default(),
            current_page: CurrentPage::Main,
            current_color_theory: ColorTheories::Analogous,
            palette: Palette::default(),
            edit_color_field: Vec::new(),
            exit: false,
        }
    }
}

} // verus!
