use cmt::commit::assemble;
use cmt::lint::check;
use cmt::types::Config;
use cmt::wizard::{Answer, Ask, Stage, Wizard};

fn line(s: &str) -> Answer {
    Answer::Line(s.to_string())
}

#[test]
fn a_full_run_builds_the_draft() {
    let mut cfg = Config::default();
    cfg.scopes = vec!["auth".into(), "api".into()];
    let (mut w, ask) = Wizard::start();
    assert_eq!(ask, Ask::PickType);
    assert_eq!(w.step(&cfg, Answer::Picked(Some(1))), Ask::PickScope);
    assert_eq!(w.step(&cfg, Answer::Picked(Some(0))), Ask::StartDescription);
    assert_eq!(w.step(&cfg, line("")), Ask::DescriptionRequired);
    assert_eq!(w.step(&cfg, line("handle null token")), Ask::StartBody);
    assert_eq!(w.step(&cfg, line("first")), Ask::ReadBodyLine);
    assert_eq!(w.step(&cfg, line("second")), Ask::ReadBodyLine);
    assert_eq!(w.step(&cfg, line("")), Ask::AskBreaking);
    assert_eq!(w.step(&cfg, line("maybe")), Ask::RetryBreaking);
    assert_eq!(w.step(&cfg, line("Y")), Ask::ReadBreakingDesc);
    assert_eq!(w.step(&cfg, line("tokens change")), Ask::ReadFooter);
    assert_eq!(w.step(&cfg, line("Closes #3")), Ask::Finished);
    assert_eq!(w.stage, Stage::Done);
    assert_eq!(
        assemble(&w.draft),
        "fix(auth)!: handle null token\n\nfirst\nsecond\n\nBREAKING CHANGE: tokens change\n\nCloses #3"
    );
    assert!(check(&assemble(&w.draft), &cfg).errors.is_empty());
}

#[test]
fn no_scopes_means_a_typed_scope_and_no_pick_means_the_first_type() {
    let cfg = Config::default();
    let (mut w, _) = Wizard::start();
    assert_eq!(w.step(&cfg, Answer::Picked(None)), Ask::ReadScope(false));
    assert_eq!(w.draft.type_, "feat");
    assert_eq!(w.step(&cfg, line("")), Ask::StartDescription);
    assert_eq!(w.draft.scope, "");
    assert_eq!(w.step(&cfg, line("x")), Ask::StartBody);
    assert_eq!(w.step(&cfg, line("")), Ask::AskBreaking);
    assert_eq!(w.step(&cfg, line("")), Ask::ReadFooter);
    assert_eq!(w.step(&cfg, line("")), Ask::Finished);
    assert_eq!(assemble(&w.draft), "feat: x");
}

#[test]
fn custom_and_skipped_scopes() {
    let mut cfg = Config::default();
    cfg.scopes = vec!["auth".into()];
    let (mut w, _) = Wizard::start();
    w.step(&cfg, Answer::Picked(Some(0)));
    assert_eq!(w.step(&cfg, Answer::Picked(Some(1))), Ask::ReadScope(true));
    assert_eq!(w.step(&cfg, line("db")), Ask::StartDescription);
    assert_eq!(w.draft.scope, "db");

    let (mut w, _) = Wizard::start();
    w.step(&cfg, Answer::Picked(Some(0)));
    assert_eq!(w.step(&cfg, Answer::Picked(Some(2))), Ask::StartDescription);
    assert_eq!(w.draft.scope, "");
}

#[test]
fn long_descriptions_need_confirming() {
    let mut cfg = Config::default();
    cfg.rules.max_header_length = 5;
    let (mut w, _) = Wizard::start();
    w.step(&cfg, Answer::Picked(Some(0)));
    w.step(&cfg, line(""));
    assert_eq!(w.step(&cfg, line("too long")), Ask::ConfirmLong(8));
    assert_eq!(w.step(&cfg, line("n")), Ask::ReadDescription);
    assert_eq!(w.stage, Stage::ReadDescription);
    assert_eq!(w.step(&cfg, line("still long")), Ask::ConfirmLong(10));
    assert_eq!(w.step(&cfg, line("Y")), Ask::StartBody);
    assert_eq!(w.draft.desc, "still long");
    // exactly at the limit is accepted at once
    let (mut w, _) = Wizard::start();
    w.step(&cfg, Answer::Picked(Some(0)));
    w.step(&cfg, line(""));
    assert_eq!(w.step(&cfg, line("fives")), Ask::StartBody);
}

#[test]
fn declining_a_breaking_change_leaves_no_note() {
    let cfg = Config::default();
    let (mut w, _) = Wizard::start();
    w.step(&cfg, Answer::Picked(Some(0)));
    w.step(&cfg, line(""));
    w.step(&cfg, line("x"));
    w.step(&cfg, line(""));
    assert_eq!(w.step(&cfg, line("NO")), Ask::ReadFooter);
    assert!(!w.draft.breaking);
    assert_eq!(w.draft.breaking_desc, "");
}
