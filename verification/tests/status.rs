use cmt::commands::status::{can_cut, status_entry};
use cmt::commands::types_cmd::type_listing_line;
use cmt::commands::uninstall::is_legacy_hook;
use cmt::types::Config;
use cmt::ui::Palette;

#[test]
fn status_rows_by_letter() {
    let p = Palette::plain();
    assert_eq!(
        status_entry("A  src/new.rs", &p),
        Some(format!("  +  {:<40}  added\n", "src/new.rs"))
    );
    assert_eq!(
        status_entry("M  a.rs", &p),
        Some(format!("  ~  {:<40}  modified\n", "a.rs"))
    );
    assert_eq!(status_entry("D  gone", &p), Some(format!("  -  {:<40}  deleted\n", "gone")));
    assert_eq!(
        status_entry("R  a -> b", &p),
        Some(format!("  »  {:<40}  renamed\n", "a -> b"))
    );
    assert_eq!(status_entry("C  x", &p), Some(format!("  »  {:<40}  copied\n", "x")));
    // unstaged changes and short lines are not listed
    assert_eq!(status_entry(" M a.rs", &p), None);
    assert_eq!(status_entry("?? new", &p), None);
    assert_eq!(status_entry("A  ", &p), None);
}

#[test]
fn status_path_starts_after_three_bytes() {
    let p = Palette::plain();
    // a two-byte second character ends the third byte
    assert_eq!(status_entry("Aé file", &p), Some(format!("  +  {:<40}  added\n", " file")));
    assert!(can_cut("A  x"));
    assert!(can_cut("Aé x"));
    assert!(can_cut("é"));
    assert!(!can_cut("é  x"));
    assert!(!can_cut("A €x"));
}

#[test]
fn status_colors_follow_the_palette() {
    let p = Palette::colored();
    assert_eq!(
        status_entry("A  f", &p),
        Some(format!(
            "  \x1b[38;2;152;195;121m+\x1b[0m  {:<40}  \x1b[38;2;92;99;112madded\x1b[0m\n",
            "f"
        ))
    );
}

#[test]
fn types_listing_lines() {
    let p = Palette::plain();
    let cfg = Config::default();
    assert_eq!(type_listing_line(&cfg.types[0], &p), "  ✨  feat          minor  A new feature\n");
    assert_eq!(
        type_listing_line(&cfg.types[2], &p),
        format!("  📚  {:<12}  Documentation only changes\n", "docs")
    );
    assert_eq!(
        type_listing_line(&cfg.types[1], &p),
        format!("  🐛  {:<12}  patch  {}\n", "fix", cfg.types[1].description)
    );
}

#[test]
fn legacy_hooks_are_recognized() {
    assert!(is_legacy_hook("#!/bin/sh\n# Installed by cmt\ncmt lint \"$1\"\n"));
    assert!(!is_legacy_hook("#!/bin/sh\nnpm test\n"));
}
