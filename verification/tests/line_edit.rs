use cmt::line_edit::{strip_line_ending, EditAction, EditKey, LineEditor};

fn echo(a: EditAction) -> String {
    match a {
        EditAction::Echo(s) => s,
        EditAction::Done => "<done>".into(),
        EditAction::Abort => "<abort>".into(),
    }
}

#[test]
fn typing_and_editing_in_the_middle() {
    let mut e = LineEditor::new();
    assert_eq!(echo(e.step(EditKey::Char('a'))), "a");
    assert_eq!(echo(e.step(EditKey::Char('c'))), "c");
    assert_eq!(echo(e.step(EditKey::Left)), "\x1b[1D");
    assert_eq!(echo(e.step(EditKey::Char('b'))), "bc\x1b[K\x1b[1D");
    assert_eq!(e.text(), "abc");
    assert_eq!(e.pos, 2);
    assert_eq!(echo(e.step(EditKey::Home)), "\x1b[2D");
    assert_eq!(echo(e.step(EditKey::Delete)), "bc\x1b[K\x1b[2D");
    assert_eq!(e.text(), "bc");
    assert_eq!(echo(e.step(EditKey::End)), "\x1b[2C");
    assert_eq!(echo(e.step(EditKey::Backspace)), "\x1b[1D\x1b[K");
    assert_eq!(e.text(), "b");
    assert_eq!(echo(e.step(EditKey::Right)), "");
    assert_eq!(echo(e.step(EditKey::Other)), "");
    assert_eq!(echo(e.step(EditKey::Enter)), "<done>");
    assert_eq!(echo(e.step(EditKey::Interrupt)), "<abort>");
}

#[test]
fn keys_at_the_edges_do_nothing() {
    let mut e = LineEditor::new();
    for k in [EditKey::Backspace, EditKey::Delete, EditKey::Left, EditKey::Right, EditKey::Home, EditKey::End] {
        assert_eq!(echo(e.step(k)), "");
    }
    assert_eq!(e.text(), "");
    assert_eq!(e.pos, 0);
}

#[test]
fn backspace_removes_the_typed_character() {
    let mut e = LineEditor::new();
    for c in "hello".chars() {
        e.step(EditKey::Char(c));
    }
    e.step(EditKey::Left);
    e.step(EditKey::Left);
    e.step(EditKey::Char('X'));
    assert_eq!(e.text(), "helXlo");
    e.step(EditKey::Backspace);
    assert_eq!((e.text().as_str(), e.pos), ("hello", 3));
}

#[test]
fn cooked_lines_lose_their_line_ending() {
    assert_eq!(strip_line_ending("yes\r\n"), "yes");
    assert_eq!(strip_line_ending("a\n\n"), "a");
    assert_eq!(strip_line_ending("a b "), "a b ");
}
