use cmt::ui::{choose_palette, commit_box, split_words, wordwrap, Palette};

#[test]
fn wordwrap_breaks_on_width() {
    let out = wordwrap("the quick brown fox", 9);
    assert_eq!(out, vec!["the quick", "brown fox"]);
}

#[test]
fn wordwrap_empty_is_single_blank() {
    assert_eq!(wordwrap("", 10), vec![""]);
}

#[test]
fn no_color_yields_empty_codes() {
    let p = Palette::plain();
    assert_eq!(p.accent, "");
    assert_eq!(p.reset, "");
}

#[test]
fn wordwrap_keeps_long_words_whole() {
    assert_eq!(wordwrap("  a   verylongword b ", 4), vec!["a", "verylongword", "b"]);
    assert_eq!(wordwrap("   \t ", 4), vec![""]);
    // every line fits the width unless it is a single word
    for l in wordwrap("one two three four five six seven", 10) {
        assert!(l.chars().count() <= 10 || !l.contains(' '));
    }
}

#[test]
fn split_words_splits_on_white_space() {
    assert_eq!(split_words(" a\tbb \n c "), vec!["a", "bb", "c"]);
    assert!(split_words("").is_empty());
}

#[test]
fn palette_follows_no_color_and_terminal() {
    assert_eq!(choose_palette(true, true).reset, "");
    assert_eq!(choose_palette(false, false).bold, "");
    assert_eq!(choose_palette(false, true).reset, "\x1b[0m");
    assert_eq!(Palette::colored().reset, "\x1b[0m");
}

#[test]
fn commit_box_frames_the_message() {
    let p = Palette::plain();
    let b = commit_box("feat: x\n\nbody", &p, 80);
    let expected = format!(
        "\n  ╭─ commit message {}╮\n  │  feat: x{}  │\n  │  {}  │\n  │  body{}  │\n  ╰{}╯\n",
        "─".repeat(31),
        " ".repeat(37),
        " ".repeat(44),
        " ".repeat(40),
        "─".repeat(48)
    );
    assert_eq!(b, expected);
}

#[test]
fn commit_box_narrows_to_the_terminal_and_wraps() {
    let p = Palette::plain();
    let long = "word ".repeat(30);
    // 60 columns: the box is 58 wide, its text 52.
    let b = commit_box(long.trim_end(), &p, 60);
    for l in b.lines().skip(2) {
        if l.starts_with("  │") {
            assert_eq!(l.chars().count(), 2 + 58);
        }
    }
    assert!(b.ends_with(&format!("  ╰{}╯\n", "─".repeat(56))));
    // an empty message gives just the frame
    let e = commit_box("", &p, 80);
    assert_eq!(e, format!("\n  ╭─ commit message {}╮\n  ╰{}╯\n", "─".repeat(31), "─".repeat(48)));
}

#[test]
fn wrapping_keeps_the_words() {
    let text = "  the quick\tbrown   fox jumps over\nthe lazy dog ";
    for width in [0, 3, 9, 80] {
        assert_eq!(wordwrap(text, width).join(" "), split_words(text).join(" "));
    }
}
