use cmt::picker::state::new;
use cmt::picker::{chosen_line, draw, fallback_choice, menu, picker_step, PickerAction, PickerKey};
use cmt::ui::Palette;

fn items(v: &[&str]) -> Vec<String> {
    v.iter().map(|s| s.to_string()).collect()
}

#[test]
fn keys_move_filter_confirm_and_abort() {
    let mut s = new(items(&["feat", "fix", "docs"]));
    assert!(picker_step(&mut s, PickerKey::Down) == PickerAction::Continue);
    assert_eq!(s.cur, 1);
    assert!(picker_step(&mut s, PickerKey::Char('k')) == PickerAction::Continue);
    assert_eq!(s.cur, 0);
    assert!(picker_step(&mut s, PickerKey::Char('j')) == PickerAction::Continue);
    assert_eq!(s.cur, 1);
    assert!(picker_step(&mut s, PickerKey::Char('d')) == PickerAction::Continue);
    assert_eq!(s.filter, "d");
    assert_eq!(s.visible, vec![2]);
    // with a filter typed, q is just a character
    assert!(picker_step(&mut s, PickerKey::Char('q')) == PickerAction::Continue);
    assert_eq!(s.filter, "dq");
    assert!(picker_step(&mut s, PickerKey::Esc) == PickerAction::Continue);
    assert_eq!(s.filter, "");
    assert!(picker_step(&mut s, PickerKey::Other) == PickerAction::Continue);
    assert!(picker_step(&mut s, PickerKey::Enter) == PickerAction::Confirm);
    assert!(picker_step(&mut s, PickerKey::Char('q')) == PickerAction::Abort);
    assert!(picker_step(&mut s, PickerKey::Interrupt) == PickerAction::Abort);
}

#[test]
fn draw_shows_search_line_items_and_hints() {
    let p = Palette::plain();
    let s = new(items(&["feat", "fix"]));
    let (text, n) = draw(&s, &p);
    assert_eq!(
        text,
        "  / type to filter\x1b[K\r\n  ❯ feat\x1b[K\r\n  · fix\x1b[K\r\n\x1b[K\r\n"
    );
    assert_eq!(n, 4);

    let mut s = new(items(&["a", "b", "c", "d", "e", "f", "g", "h", "i"]));
    s.move_up(); // last of nine: window shows items 2..9
    let (text, n) = draw(&s, &p);
    assert!(text.starts_with("  / type to filter\x1b[K\r\n  ↑ 2 more\x1b[K\r\n  · c\x1b[K\r\n"));
    assert!(text.ends_with("  ❯ i\x1b[K\r\n\x1b[K\r\n"));
    assert_eq!(n, 10);

    let mut s = new(items(&["a", "b"]));
    s.push_filter('z');
    let (text, n) = draw(&s, &p);
    assert_eq!(text, "  / z\x1b[K\r\n  no matches\x1b[K\r\n\x1b[K\r\n");
    assert_eq!(n, 3);

    let s = new(items(&["a", "b", "c", "d", "e", "f", "g", "h", "i"]));
    let (text, _) = draw(&s, &p);
    assert!(text.ends_with("  · g\x1b[K\r\n  ↓ 2 more\x1b[K\r\n"));
}

#[test]
fn chosen_line_marks_the_item() {
    let p = Palette::plain();
    assert_eq!(chosen_line("feat", &p), "  ❯ feat\r\n");
}

#[test]
fn numbered_menu_and_its_answers() {
    let p = Palette::plain();
    let m = menu("Pick:", &items(&["feat", "fix"]), &p);
    assert_eq!(m, "\nPick:\n   1) feat\n   2) fix\n\nChoice (1-2): ");
    assert_eq!(fallback_choice(" 2 \n", 2), 1);
    assert_eq!(fallback_choice("3", 2), 0);
    assert_eq!(fallback_choice("0", 2), 0);
    assert_eq!(fallback_choice("x", 2), 0);
    assert_eq!(fallback_choice("", 2), 0);
}
