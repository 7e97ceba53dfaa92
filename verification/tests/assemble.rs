use cmt::commit::{assemble, Draft};

fn draft(ty: &str, scope: &str, desc: &str, breaking: bool, bdesc: &str, footer: &str, body: &str) -> Draft {
    Draft {
        type_: ty.into(),
        scope: scope.into(),
        desc: desc.into(),
        body: body.into(),
        breaking,
        breaking_desc: bdesc.into(),
        footer: footer.into(),
    }
}

#[test]
fn assemble_fixtures_match() {
    let cases = [
        (draft("feat", "", "add login", false, "", "", ""), "feat: add login"),
        (draft("fix", "auth", "null token", false, "", "", ""), "fix(auth): null token"),
        (draft("feat", "", "add x", false, "", "", "why this\nmatters"), "feat: add x\n\nwhy this\nmatters"),
        (
            draft("feat", "api", "new shape", true, "drops old", "Closes #9", "context"),
            "feat(api)!: new shape\n\ncontext\n\nBREAKING CHANGE: drops old\n\nCloses #9",
        ),
        (draft("chore", "", "deps", false, "", "Refs #1", ""), "chore: deps\n\nRefs #1"),
    ];
    for (d, expected) in cases {
        assert_eq!(assemble(&d), expected, "mismatch for {:?}", expected);
    }
}

#[test]
fn breaking_note_needs_the_breaking_flag() {
    let d = draft("feat", "", "x", false, "ignored", "", "");
    assert_eq!(assemble(&d), "feat: x");
    let d = draft("feat", "", "x", true, "", "", "");
    assert_eq!(assemble(&d), "feat!: x");
}
