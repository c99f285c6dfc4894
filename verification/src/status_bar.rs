//! The status bar: the key hints that belong to each page.

use vstd::prelude::*;
use crate::app::CurrentPage;

verus! {

/// One piece of the hint line: a key cap such as `[q]`, or the words that
/// say what the keys before it do.
#[derive(Debug, Clone, Copy)]
pub struct Hint {
    pub text: &'static str,
    /// A key cap is drawn highlighted, a description plain.
    pub is_key: bool,
}

impl View for Hint {
    type V = (Seq<char>, bool);

    open spec fn view(&self) -> (Seq<char>, bool) {
        (self.text@, self.is_key)
    }
}

/// A key cap.
pub open spec fn cap(text: &str) -> (Seq<char>, bool) {
    (text@, true)
}

/// A description.
pub open spec fn words(text: &str) -> (Seq<char>, bool) {
    (text@, false)
}

/// The hint line of each page.
pub open spec fn spec_hints(page: CurrentPage) -> Seq<(Seq<char>, bool)> {
    match page {
        CurrentPage::Main => seq![
            cap("[q]"),
            words(" Quit  "),
            cap("[←]"),
            cap("[→]"),
            words(" Move  "),
            cap("[a]"),
            words(" Add  "),
            cap("[d]"),
            words(" Delete  "),
            cap("[x]"),
            words(" Theory  "),
            cap("[z]"),
            words(" Edit  "),
            cap("[l]"),
            words(" Lock  "),
            cap("[c]"),
            words(" Copy  "),
            cap("[Space]"),
            words(" Generate"),
        ],
        CurrentPage::TheorySelector => seq![
            cap("[x]"),
            cap("[q]"),
            cap("[Esc]"),
            words(" Close  "),
            cap("[←]"),
            words(" First  "),
            cap("[→]"),
            words(" Last  "),
            cap("[↑]"),
            cap("[↓]"),
            words(" Move  "),
            cap("[Enter]"),
            cap("[Space]"),
            words(" Apply"),
        ],
        CurrentPage::EditColor => seq![
            cap("[z]"),
            cap("[q]"),
            words(" Cancel  "),
            cap("[Backspace]"),
            words(" Delete  "),
            cap("[Ctrl+Backspace]"),
            words(" Clear  "),
            cap("[Enter]"),
            words(" Apply"),
        ],
    }
}

/// The status bar of one page.
#[derive(Debug)]
pub struct StatusBar {
    pub current_page: CurrentPage,
}

/// A key cap.
fn key(text: &'static str) -> (hint: Hint)
    ensures
        hint@ == cap(text),
{
    Hint { text, is_key: true }
}

/// A description.
fn label(text: &'static str) -> (hint: Hint)
    ensures
        hint@ == words(text),
{
    Hint { text, is_key: false }
}

impl StatusBar {
    /// The status bar of `current_page`.
    pub fn new(current_page: CurrentPage) -> (bar: StatusBar)
        ensures
            bar.current_page == current_page,
    {
        Self { current_page }
    }

    /// The hint line of the bar's page, piece by piece.
    pub fn get_hints(&self) -> (hints: Vec<Hint>)
        ensures
            hints@.len() == spec_hints(self.current_page).len(),
            forall|i: int|
                0 <= i < hints@.len() ==> (#[trigger] hints@[i])@ == spec_hints(
                    self.current_page,
                )[i],
    {
        match self.current_page {
            CurrentPage::Main => vec![
                key("[q]"),
                label(" Quit  "),
                key("[←]"),
                key("[→]"),
                label(" Move  "),
                key("[a]"),
                label(" Add  "),
                key("[d]"),
                label(" Delete  "),
                key("[x]"),
                label(" Theory  "),
                key("[z]"),
                label(" Edit  "),
                key("[l]"),
                label(" Lock  "),
                key("[c]"),
                label(" Copy  "),
                key("[Space]"),
                label(" Generate"),
            ],
            CurrentPage::TheorySelector => vec![
                key("[x]"),
                key("[q]"),
                key("[Esc]"),
                label(" Close  "),
                key("[←]"),
                label(" First  "),
                key("[→]"),
                label(" Last  "),
                key("[↑]"),
                key("[↓]"),
                label(" Move  "),
                key("[Enter]"),
                key("[Space]"),
                label(" Apply"),
            ],
            CurrentPage::EditColor => vec![
                key("[z]"),
                key("[q]"),
                label(" Cancel  "),
                key("[Backspace]"),
                label(" Delete  "),
                key("[Ctrl+Backspace]"),
                label(" Clear  "),
                key("[Enter]"),
                label(" Apply"),
            ],
        }
    }
}

} // verus!
