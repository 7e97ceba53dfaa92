use cmt::picker::state::{new, PickerState};

fn st() -> PickerState {
    new(vec![
        "feat".into(),
        "fix".into(),
        "docs".into(),
        "style".into(),
        "refactor".into(),
        "perf".into(),
        "test".into(),
        "build".into(),
    ])
}

#[test]
fn move_down_wraps() {
    let mut s = st();
    for _ in 0..s.items.len() {
        s.move_down();
    }
    assert_eq!(s.cur, 0);
}

#[test]
fn move_up_from_top_wraps_to_last() {
    let mut s = st();
    s.move_up();
    assert_eq!(s.cur, s.items.len() - 1);
}

#[test]
fn filter_narrows_visible_and_clamps_cur() {
    let mut s = st();
    s.cur = 7;
    s.push_filter('f'); // matches feat, fix, refactor, perf (contains f)
    assert_eq!(
        s.visible
            .iter()
            .map(|&i| s.items[i].clone())
            .collect::<Vec<_>>(),
        vec!["feat", "fix", "refactor", "perf"]
    );
    assert!(s.cur < s.visible.len());
}

#[test]
fn selected_maps_to_original_index() {
    let mut s = st();
    s.push_filter('d'); // "docs", "build" contain d
    s.cur = 1; // second visible = "build" at original index 7
    assert_eq!(s.selected_original(), Some(7));
}

#[test]
fn no_match_yields_none() {
    let mut s = st();
    s.push_filter('z');
    assert!(s.visible.is_empty());
    assert_eq!(s.selected_original(), None);
}

#[test]
fn strips_ansi_for_matching() {
    let s = new(vec!["\x1b[1mfeat\x1b[0m  badge".into()]);
    assert_eq!(s.plain[0], "feat  badge");
}

#[test]
fn new_shows_everything_with_the_cursor_on_top() {
    let s = st();
    assert_eq!(s.visible, (0..8).collect::<Vec<usize>>());
    assert_eq!((s.cur, s.top, s.view), (0, 0, 7));
    assert_eq!(s.filter, "");
    assert_eq!(s.selected_original(), Some(0));
}

#[test]
fn window_scrolls_with_the_cursor() {
    let mut s = st();
    s.move_up(); // wraps to the last of 8 items: window shows items 1..8
    assert_eq!((s.cur, s.top), (7, 1));
    s.move_down(); // wraps to the first: window back at the top
    assert_eq!((s.cur, s.top), (0, 0));
    for _ in 0..7 {
        s.move_down();
    }
    assert_eq!((s.cur, s.top), (7, 1));
}

#[test]
fn up_then_down_restores_the_cursor() {
    let mut s = st();
    s.move_down();
    s.move_down();
    let before = s.cur;
    s.move_up();
    s.move_down();
    assert_eq!(s.cur, before);
}

#[test]
fn backspace_undoes_a_typed_character() {
    let mut s = st();
    let before = s.visible.clone();
    s.push_filter('x');
    assert_eq!(s.visible, vec![1]);
    s.backspace();
    assert_eq!(s.visible, before);
    assert_eq!(s.filter, "");
    s.push_filter('e');
    s.push_filter('r');
    s.clear_filter();
    assert_eq!(s.visible, before);
    assert_eq!(s.top, 0);
}

#[test]
fn moves_on_an_empty_list_do_nothing() {
    let mut s = st();
    s.push_filter('z');
    s.move_up();
    s.move_down();
    assert_eq!((s.cur, s.top), (0, 0));
}

#[test]
fn strip_ansi_keeps_non_ascii_and_drops_whole_sequences() {
    let s = new(vec!["\x1b[38;2;1;2;3m✨ feat\x1b[0m".into(), "a\x1b[".into()]);
    assert_eq!(s.plain[0], "✨ feat");
    assert_eq!(s.plain[1], "a");
}
