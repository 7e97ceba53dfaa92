//! The commit wizard as a state machine: each answer the user gives moves
//! the wizard on and tells its driver what to ask next. The driver shows
//! the pickers and reads the lines; every decision is taken here.
use vstd::prelude::*;
use crate::commit::{
    answer_in, breaking_answer, chosen_type, is_answer, scope_choice, Draft, ScopeChoice,
};
use crate::lint::type_known;
use crate::text::{eq_ignore_ascii_case, join, join_strings, push_owned};
use crate::types::{Config, ConfigView};

verus! {

/// Where the wizard stands: the question it is waiting on.
#[derive(Debug, Clone, Copy, PartialEq, Eq, Structural)]
pub enum Stage {
    PickType,
    PickScope,
    ReadScope,
    ReadDescription,
    ConfirmLong,
    ReadBody,
    ReadBreaking,
    ReadBreakingDesc,
    ReadFooter,
    Done,
}

/// What the driver is to do next.
#[derive(Debug, Clone, Copy, PartialEq, Eq, Structural)]
pub enum Ask {
    /// Show the type picker over the configured types.
    PickType,
    /// Show the scope picker over the configured scopes, "custom" and "skip".
    PickScope,
    /// Read a scope line; `true` when "custom" was chosen in the picker
    /// (the hint differs).
    ReadScope(bool),
    /// Print the description heading, then read a description.
    StartDescription,
    /// Warn that a description is required, then read one again.
    DescriptionRequired,
    /// Warn that the description has this many characters, more than the
    /// header limit, and ask whether to use it anyway.
    ConfirmLong(usize),
    /// Read a description again (a long one was declined).
    ReadDescription,
    /// Print the body heading, then read a body line.
    StartBody,
    /// Read another body line.
    ReadBodyLine,
    /// Ask whether the change is breaking.
    AskBreaking,
    /// Say that only y or n will do, then ask again.
    RetryBreaking,
    /// Read the description of the breaking change.
    ReadBreakingDesc,
    /// Print the footer heading and read the footer.
    ReadFooter,
    /// The draft is complete.
    Finished,
}

/// What the user answered: a choice in a picker (none when it was left
/// without a choice) or a line of text.
pub enum Answer {
    Picked(Option<usize>),
    Line(String),
}

/// The wizard: its stage, the draft so far, the body lines typed so far and
/// a long description waiting to be confirmed.
pub struct Wizard {
    pub stage: Stage,
    pub draft: Draft,
    pub body_lines: Vec<String>,
    pub pending: String,
}

/// The abstract value of a [`Wizard`].
pub struct WizardView {
    pub stage: Stage,
    pub type_: Seq<char>,
    pub scope: Seq<char>,
    pub desc: Seq<char>,
    pub body: Seq<char>,
    pub breaking: bool,
    pub breaking_desc: Seq<char>,
    pub footer: Seq<char>,
    pub body_lines: Seq<Seq<char>>,
    pub pending: Seq<char>,
}

impl View for Wizard {
    type V = WizardView;

    open spec fn view(&self) -> WizardView {
        WizardView {
            stage: self.stage,
            type_: self.draft.type_@,
            scope: self.draft.scope@,
            desc: self.draft.desc@,
            body: self.draft.body@,
            breaking: self.draft.breaking,
            breaking_desc: self.draft.breaking_desc@,
            footer: self.draft.footer@,
            body_lines: self.body_lines.deep_view(),
            pending: self.pending@,
        }
    }
}

/// The text of a line answer (empty for a picker answer).
pub open spec fn line_of(a: Answer) -> Seq<char> {
    match a {
        Answer::Line(l) => l@,
        Answer::Picked(_) => seq![],
    }
}

/// The index chosen in a picker, if any.
pub open spec fn picked_of(a: Answer) -> Option<usize> {
    match a {
        Answer::Picked(p) => p,
        Answer::Line(_) => None,
    }
}

/// The answer is of the kind the stage waits for: a choice among the
/// picker's entries at the two pickers, a line elsewhere; nothing is asked
/// once the wizard is done.
pub open spec fn fits(stage: Stage, a: Answer, cfg: ConfigView) -> bool {
    match stage {
        Stage::PickType => a is Picked && (picked_of(a) matches Some(i) ==> i < cfg.types.len()),
        Stage::PickScope => a is Picked && (picked_of(a) matches Some(i) ==> i < cfg.scopes.len()
            + 2),
        Stage::Done => false,
        _ => a is Line,
    }
}

/// The wizard at its start: nothing chosen yet, the type picker first.
pub open spec fn initial() -> WizardView {
    WizardView {
        stage: Stage::PickType,
        type_: seq![],
        scope: seq![],
        desc: seq![],
        body: seq![],
        breaking: false,
        breaking_desc: seq![],
        footer: seq![],
        body_lines: seq![],
        pending: seq![],
    }
}

/// One move of the wizard: the state after answer `a`, and what to ask next.
pub open spec fn next(w: WizardView, cfg: ConfigView, a: Answer) -> (WizardView, Ask) {
    let line = line_of(a);
    match w.stage {
        Stage::PickType => {
            let i = match picked_of(a) {
                Some(i) => i as int,
                None => 0,
            };
            let w2 = WizardView { type_: cfg.types[i].type_, ..w };
            if cfg.scopes.len() > 0 {
                (WizardView { stage: Stage::PickScope, ..w2 }, Ask::PickScope)
            } else {
                (WizardView { stage: Stage::ReadScope, ..w2 }, Ask::ReadScope(false))
            }
        },
        Stage::PickScope => match picked_of(a) {
            Some(i) if i < cfg.scopes.len() => (
                WizardView { stage: Stage::ReadDescription, scope: cfg.scopes[i as int], ..w },
                Ask::StartDescription,
            ),
            Some(i) if i == cfg.scopes.len() => (
                WizardView { stage: Stage::ReadScope, ..w },
                Ask::ReadScope(true),
            ),
            _ => (
                WizardView { stage: Stage::ReadDescription, scope: seq![], ..w },
                Ask::StartDescription,
            ),
        },
        Stage::ReadScope => (
            WizardView { stage: Stage::ReadDescription, scope: line, ..w },
            Ask::StartDescription,
        ),
        Stage::ReadDescription => if line.len() == 0 {
            (w, Ask::DescriptionRequired)
        } else if line.len() > cfg.rules.max_header_length {
            (
                WizardView { stage: Stage::ConfirmLong, pending: line, ..w },
                Ask::ConfirmLong(line.len() as usize),
            )
        } else {
            (WizardView { stage: Stage::ReadBody, desc: line, ..w }, Ask::StartBody)
        },
        Stage::ConfirmLong => if eq_ignore_ascii_case(line, "y"@) {
            (WizardView { stage: Stage::ReadBody, desc: w.pending, ..w }, Ask::StartBody)
        } else {
            (WizardView { stage: Stage::ReadDescription, ..w }, Ask::ReadDescription)
        },
        Stage::ReadBody => if line.len() == 0 {
            (
                WizardView { stage: Stage::ReadBreaking, body: join(w.body_lines, "\n"@), ..w },
                Ask::AskBreaking,
            )
        } else {
            (WizardView { body_lines: w.body_lines.push(line), ..w }, Ask::ReadBodyLine)
        },
        Stage::ReadBreaking => if answer_yes(line) {
            (
                WizardView { stage: Stage::ReadBreakingDesc, breaking: true, ..w },
                Ask::ReadBreakingDesc,
            )
        } else if answer_no(line) {
            (
                WizardView {
                    stage: Stage::ReadFooter,
                    breaking: false,
                    breaking_desc: seq![],
                    ..w
                },
                Ask::ReadFooter,
            )
        } else {
            (w, Ask::RetryBreaking)
        },
        Stage::ReadBreakingDesc => (
            WizardView { stage: Stage::ReadFooter, breaking_desc: line, ..w },
            Ask::ReadFooter,
        ),
        Stage::ReadFooter => (WizardView { stage: Stage::Done, footer: line, ..w }, Ask::Finished),
        Stage::Done => (w, Ask::Finished),
    }
}

/// "y" or "yes", in any case.
pub open spec fn answer_yes(line: Seq<char>) -> bool {
    eq_ignore_ascii_case(line, "y"@) || eq_ignore_ascii_case(line, "yes"@)
}

/// "n", "no" or nothing, in any case.
pub open spec fn answer_no(line: Seq<char>) -> bool {
    eq_ignore_ascii_case(line, "n"@) || eq_ignore_ascii_case(line, "no"@) || line.len() == 0
}

proof fn lemma_yes_no(line: Seq<char>)
    ensures
        answer_in(line, seq!["y"@, "yes"@]) == answer_yes(line),
        answer_in(line, seq!["n"@, "no"@, ""@]) == answer_no(line),
{
    reveal_strlit("");
    let ys = seq!["y"@, "yes"@];
    let ns = seq!["n"@, "no"@, ""@];
    assert(ys[0] == "y"@ && ys[1] == "yes"@);
    assert(ns[0] == "n"@ && ns[1] == "no"@ && ns[2] == ""@);
    assert(eq_ignore_ascii_case(line, ""@) == (line.len() == 0));
}

/// The stages reached once a description has been accepted.
pub open spec fn past_description(s: Stage) -> bool {
    s is ReadBody || s is ReadBreaking || s is ReadBreakingDesc || s is ReadFooter || s is Done
}

/// The stages reached once the body is complete.
pub open spec fn past_body(s: Stage) -> bool {
    s is ReadBreaking || s is ReadBreakingDesc || s is ReadFooter || s is Done
}

/// What holds of the wizard at every step: once chosen, the type is a
/// configured one; once accepted, the description is not empty; a long
/// description waits only when it is longer than the header limit; no body
/// line is empty, and once the body is complete it is those lines joined;
/// the note of a breaking change is asked for only once the change is
/// breaking, and a change that is not breaking carries no such note.
pub open spec fn wizard_ok(w: WizardView, cfg: ConfigView) -> bool {
    &&& !(w.stage is PickType) ==> type_known(cfg.types, w.type_)
    &&& past_description(w.stage) ==> w.desc.len() > 0
    &&& w.stage is ConfirmLong ==> w.pending.len() > cfg.rules.max_header_length
    &&& forall|i: int| 0 <= i < w.body_lines.len() ==> (#[trigger] w.body_lines[i]).len() > 0
    &&& past_body(w.stage) ==> w.body == join(w.body_lines, "\n"@)
    &&& w.stage is ReadBreakingDesc ==> w.breaking
    &&& !w.breaking ==> w.breaking_desc.len() == 0
}

/// The question asked is the one the stage it leads to waits for: a picker
/// for the two picking stages, "finished" exactly when done, a line
/// otherwise.
pub open spec fn awaits(ask: Ask, stage: Stage) -> bool {
    &&& (ask is PickType <==> stage is PickType)
    &&& (ask is PickScope <==> stage is PickScope)
    &&& (ask is Finished <==> stage is Done)
}

/// The wizard starts in good order, asking for the type.
pub proof fn law_wizard_starts_ok(cfg: ConfigView)
    ensures
        wizard_ok(initial(), cfg),
        awaits(Ask::PickType, initial().stage),
{
}

/// Every answer keeps the wizard in good order, and what it asks next is
/// what its new stage waits for.
pub proof fn law_wizard_step_ok(w: WizardView, cfg: ConfigView, a: Answer)
    requires
        wizard_ok(w, cfg),
        fits(w.stage, a, cfg),
        cfg.types.len() > 0,
    ensures
        wizard_ok(next(w, cfg, a).0, cfg),
        awaits(next(w, cfg, a).1, next(w, cfg, a).0.stage),
{
    let (w2, _) = next(w, cfg, a);
    if w.stage is PickType {
        let i = match picked_of(a) {
            Some(i) => i as int,
            None => 0,
        };
        assert(cfg.types[i].type_ == w2.type_);
    }
    if w.stage is ReadBody && line_of(a).len() > 0 {
        assert forall|i: int| 0 <= i < w2.body_lines.len() implies (#[trigger] w2.body_lines[i]).len()
            > 0 by {
            if i < w.body_lines.len() {
                assert(w2.body_lines[i] == w.body_lines[i]);
            }
        }
    }
}

/// A finished draft has a configured type and a description, and a body
/// without empty lines.
pub proof fn law_finished_draft(w: WizardView, cfg: ConfigView)
    requires
        wizard_ok(w, cfg),
        w.stage is Done,
    ensures
        type_known(cfg.types, w.type_),
        w.desc.len() > 0,
        w.body == join(w.body_lines, "\n"@),
        forall|i: int| 0 <= i < w.body_lines.len() ==> (#[trigger] w.body_lines[i]).len() > 0,
{
}

/// The pickers take what was picked: choosing type `i` puts the name of the
/// `i`-th configured type in the draft (the first type when nothing was
/// chosen), and choosing one of the configured scopes, the `i`-th, puts that
/// very scope in the draft and moves on to the description; the rest of the
/// draft is untouched.
pub proof fn law_pickers_take_the_pick(w: WizardView, cfg: ConfigView, i: usize)
    ensures
        w.stage is PickType && i < cfg.types.len() ==> ({
            let w2 = next(w, cfg, Answer::Picked(Some(i))).0;
            &&& w2.type_ == cfg.types[i as int].type_
            &&& w2.scope == w.scope && w2.desc == w.desc
        }),
        w.stage is PickType && cfg.types.len() > 0 ==> next(w, cfg, Answer::Picked(None)).0.type_
            == cfg.types[0].type_,
        w.stage is PickScope && i < cfg.scopes.len() ==> ({
            let w2 = next(w, cfg, Answer::Picked(Some(i))).0;
            &&& w2.scope == cfg.scopes[i as int]
            &&& w2.type_ == w.type_ && w2.desc == w.desc
            &&& w2.stage is ReadDescription
        }),
{
}

/// How a typed description is taken: nothing typed asks again; a line
/// longer (in characters) than the header limit waits for a confirmation,
/// which takes it on "y" or "Y" and asks again otherwise; any other line is
/// the description and the body comes next.
pub proof fn law_description_taken(w: WizardView, cfg: ConfigView, l: String)
    ensures
        w.stage is ReadDescription ==> ({
            let w2 = next(w, cfg, Answer::Line(l)).0;
            &&& l@.len() == 0 ==> w2.stage is ReadDescription && w2.desc == w.desc
            &&& l@.len() > cfg.rules.max_header_length ==> w2.stage is ConfirmLong && w2.desc
                == w.desc && w2.pending == l@
            &&& 0 < l@.len() <= cfg.rules.max_header_length ==> w2.stage is ReadBody && w2.desc
                == l@
        }),
        w.stage is ConfirmLong ==> ({
            let w2 = next(w, cfg, Answer::Line(l)).0;
            &&& (l@ == "y"@ || l@ == "Y"@) ==> w2.stage is ReadBody && w2.desc == w.pending
            &&& l@.len() != 1 ==> w2.stage is ReadDescription && w2.desc == w.desc
        }),
{
    reveal_strlit("y");
    reveal_strlit("Y");
}

impl Wizard {
    /// A wizard at its start, and its first question: the type picker.
    pub fn start() -> (r: (Wizard, Ask))
        ensures
            r.0@ == initial(),
            r.1 == Ask::PickType,
    {
        let draft = Draft {
            type_: String::new(),
            scope: String::new(),
            desc: String::new(),
            body: String::new(),
            breaking: false,
            breaking_desc: String::new(),
            footer: String::new(),
        };
        let w = Wizard { stage: Stage::PickType, draft, body_lines: Vec::new(), pending: String::new() };
        assert(w.body_lines.deep_view() =~= Seq::<Seq<char>>::empty());
        (w, Ask::PickType)
    }

    /// Take the user's answer to the current question: update the draft and
    /// say what to ask next (see [`next`]).
    pub fn step(&mut self, cfg: &Config, answer: Answer) -> (ask: Ask)
        requires
            fits(old(self).stage, answer, cfg@),
            cfg.types@.len() > 0,
            cfg.scopes@.len() + 2 <= usize::MAX,
        ensures
            (final(self)@, ask) == next(old(self)@, cfg@, answer),
    {
        let ghost a = answer;
        let (picked, line) = match answer {
            Answer::Picked(p) => (p, String::new()),
            Answer::Line(l) => (None, l),
        };
        assert(picked == picked_of(a) && line@ == line_of(a));
        match self.stage {
            Stage::PickType => {
                self.draft.type_ = chosen_type(cfg, picked);
                let ghost i = match picked {
                    Some(i) => i as int,
                    None => 0,
                };
                assert(cfg@.types[i] == cfg.types@[i]@);
                if cfg.scopes.len() > 0 {
                    self.stage = Stage::PickScope;
                    Ask::PickScope
                } else {
                    self.stage = Stage::ReadScope;
                    Ask::ReadScope(false)
                }
            },
            Stage::PickScope => match scope_choice(cfg.scopes.len(), picked) {
                ScopeChoice::Configured(i) => {
                    self.draft.scope = cfg.scopes[i].clone();
                    self.stage = Stage::ReadDescription;
                    Ask::StartDescription
                },
                ScopeChoice::Custom => {
                    self.stage = Stage::ReadScope;
                    Ask::ReadScope(true)
                },
                ScopeChoice::Skip => {
                    self.draft.scope = String::new();
                    self.stage = Stage::ReadDescription;
                    Ask::StartDescription
                },
            },
            Stage::ReadScope => {
                self.draft.scope = line;
                self.stage = Stage::ReadDescription;
                Ask::StartDescription
            },
            Stage::ReadDescription => {
                let n = crate::text::char_count(line.as_str());
                if n == 0 {
                    Ask::DescriptionRequired
                } else if n > cfg.rules.max_header_length {
                    self.pending = line;
                    self.stage = Stage::ConfirmLong;
                    Ask::ConfirmLong(n)
                } else {
                    self.draft.desc = line;
                    self.stage = Stage::ReadBody;
                    Ask::StartBody
                }
            },
            Stage::ConfirmLong => {
                if is_answer(line.as_str(), "y") {
                    self.draft.desc = self.pending.clone();
                    self.stage = Stage::ReadBody;
                    Ask::StartBody
                } else {
                    self.stage = Stage::ReadDescription;
                    Ask::ReadDescription
                }
            },
            Stage::ReadBody => {
                if crate::text::char_count(line.as_str()) == 0 {
                    self.draft.body = join_strings(&self.body_lines, "\n");
                    self.stage = Stage::ReadBreaking;
                    Ask::AskBreaking
                } else {
                    push_owned(&mut self.body_lines, line);
                    Ask::ReadBodyLine
                }
            },
            Stage::ReadBreaking => {
                let r = breaking_answer(line.as_str());
                proof {
                    lemma_yes_no(line@);
                }
                match r {
                    Some(true) => {
                        self.draft.breaking = true;
                        self.stage = Stage::ReadBreakingDesc;
                        Ask::ReadBreakingDesc
                    },
                    Some(false) => {
                        self.draft.breaking = false;
                        self.draft.breaking_desc = String::new();
                        self.stage = Stage::ReadFooter;
                        Ask::ReadFooter
                    },
                    None => Ask::RetryBreaking,
                }
            },
            Stage::ReadBreakingDesc => {
                self.draft.breaking_desc = line;
                self.stage = Stage::ReadFooter;
                Ask::ReadFooter
            },
            Stage::ReadFooter => {
                self.draft.footer = line;
                self.stage = Stage::Done;
                Ask::Finished
            },
            Stage::Done => Ask::Finished,
        }
    }
}

} // verus!
