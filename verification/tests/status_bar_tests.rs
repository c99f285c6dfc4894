use color_harmony::app::CurrentPage;
use color_harmony::status_bar::StatusBar;

#[test]
fn new_keeps_the_page() {
    let bar = StatusBar::new(CurrentPage::EditColor);
    assert_eq!(bar.current_page, CurrentPage::EditColor);
}

#[test]
fn main_page_hints_start_with_quit_and_end_with_generate() {
    let hints = StatusBar::new(CurrentPage::Main).get_hints();
    assert_eq!(hints.len(), 19);
    assert_eq!(hints[0].text, "[q]");
    assert!(hints[0].is_key);
    assert_eq!(hints[1].text, " Quit  ");
    assert!(!hints[1].is_key);
    assert_eq!(hints[2].text, "[←]");
    assert_eq!(hints[3].text, "[→]");
    assert_eq!(hints[17].text, "[Space]");
    assert_eq!(hints[18].text, " Generate");
    assert!(!hints[18].is_key);
}

#[test]
fn selector_page_hints() {
    let hints = StatusBar::new(CurrentPage::TheorySelector).get_hints();
    let texts: Vec<&str> = hints.iter().map(|h| h.text).collect();
    assert_eq!(
        texts,
        vec![
            "[x]", "[q]", "[Esc]", " Close  ", "[←]", " First  ", "[→]", " Last  ", "[↑]", "[↓]",
            " Move  ", "[Enter]", "[Space]", " Apply",
        ]
    );
    let keys: Vec<bool> = hints.iter().map(|h| h.is_key).collect();
    assert_eq!(
        keys,
        vec![
            true, true, true, false, true, false, true, false, true, true, false, true, true,
            false,
        ]
    );
}

#[test]
fn editor_page_hints() {
    let hints = StatusBar::new(CurrentPage::EditColor).get_hints();
    let texts: Vec<&str> = hints.iter().map(|h| h.text).collect();
    assert_eq!(
        texts,
        vec![
            "[z]",
            "[q]",
            " Cancel  ",
            "[Backspace]",
            " Delete  ",
            "[Ctrl+Backspace]",
            " Clear  ",
            "[Enter]",
            " Apply",
        ]
    );
}
