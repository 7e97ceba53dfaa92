use cmt::commit::{
    amend_choice, breaking_answer, push_padded, push_repeat, check_description, chosen_type, commit_answer, is_answer,
    scope_choice, scope_labels, type_label, type_labels, AmendChoice, CommitChoice, DescriptionCheck, ScopeChoice,
};
use cmt::types::Config;
use cmt::ui::Palette;

#[test]
fn type_labels_pad_names_and_show_badges() {
    let p = Palette::plain();
    let cfg = Config::default();
    assert_eq!(type_label(&cfg.types[0], &p), "✨  feat        [minor]  A new feature");
    let docs = type_label(&cfg.types[2], &p);
    assert!(docs.starts_with("📚  docs                 "));
    let labels = type_labels(&cfg, &p);
    assert_eq!(labels.len(), 11);
    assert_eq!(labels[1], type_label(&cfg.types[1], &p));
}

#[test]
fn padding_repeats_the_character() {
    let mut s = String::from("ab");
    push_repeat(&mut s, '·', 3);
    assert_eq!(s, "ab···");
    push_padded(&mut s, "x", 3);
    assert_eq!(s, "ab···x  ");
    push_padded(&mut s, "long", 2);
    assert_eq!(s, "ab···x  long");
}

#[test]
fn chosen_type_defaults_to_the_first() {
    let cfg = Config::default();
    assert_eq!(chosen_type(&cfg, Some(1)), "fix");
    assert_eq!(chosen_type(&cfg, None), "feat");
}

#[test]
fn scope_picker_offers_custom_and_skip() {
    let p = Palette::plain();
    let mut cfg = Config::default();
    cfg.scopes = vec!["auth".into(), "api".into()];
    assert_eq!(scope_labels(&cfg, &p), vec!["auth", "api", "─  custom  type your own", "─  skip"]);
    assert!(matches!(scope_choice(2, Some(1)), ScopeChoice::Configured(1)));
    assert!(matches!(scope_choice(2, Some(2)), ScopeChoice::Custom));
    assert!(matches!(scope_choice(2, Some(3)), ScopeChoice::Skip));
    assert!(matches!(scope_choice(2, None), ScopeChoice::Skip));
}

#[test]
fn description_answers() {
    assert!(matches!(check_description("", 72), DescriptionCheck::Empty));
    assert!(matches!(check_description("abc", 2), DescriptionCheck::TooLong));
    assert!(matches!(check_description("ab", 2), DescriptionCheck::Accepted));
    assert!(matches!(check_description("✨✨", 2), DescriptionCheck::Accepted));
    assert!(is_answer("Y", "y"));
    assert!(!is_answer("yes", "y"));
}

#[test]
fn yes_no_answers() {
    assert_eq!(breaking_answer("YES"), Some(true));
    assert_eq!(breaking_answer("y"), Some(true));
    assert_eq!(breaking_answer(""), Some(false));
    assert_eq!(breaking_answer("No"), Some(false));
    assert_eq!(breaking_answer("maybe"), None);
    assert_eq!(commit_answer(""), CommitChoice::Commit);
    assert_eq!(commit_answer("Yes"), CommitChoice::Commit);
    assert_eq!(commit_answer("n"), CommitChoice::Abort);
    assert_eq!(commit_answer("NO"), CommitChoice::Abort);
    assert_eq!(commit_answer("e"), CommitChoice::Edit);
    assert_eq!(commit_answer("E"), CommitChoice::Edit);
    assert_eq!(commit_answer("Edit"), CommitChoice::Edit);
    assert_eq!(commit_answer("nah"), CommitChoice::Again);
    assert_eq!(commit_answer("ed"), CommitChoice::Again);
}

#[test]
fn amend_answers() {
    assert!(matches!(amend_choice("e"), AmendChoice::Edit));
    assert!(matches!(amend_choice("E"), AmendChoice::Edit));
    assert!(matches!(amend_choice(""), AmendChoice::Rebuild));
    assert!(matches!(amend_choice("Y"), AmendChoice::Rebuild));
    assert!(matches!(amend_choice("yes"), AmendChoice::Abort));
    assert!(matches!(amend_choice("n"), AmendChoice::Abort));
}
