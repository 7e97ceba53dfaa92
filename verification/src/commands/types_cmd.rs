//! The listing printed by `types`.
use vstd::prelude::*;
use crate::commit::{pad_right, push_padded};
use crate::text::{push_str, str_eq, string_of};
use crate::types::{CommitType, CommitTypeView};
use crate::ui::Palette;

verus! {

/// The semver note of the listing.
pub open spec fn listing_badge(semver: Seq<char>, p: &Palette) -> Seq<char> {
    if semver == "minor"@ {
        "  "@ + p.green@ + "minor"@ + p.reset@
    } else if semver == "patch"@ {
        "  "@ + p.yellow@ + "patch"@ + p.reset@
    } else {
        seq![]
    }
}

/// One line of the listing: emoji, name padded to twelve, semver note and
/// description.
pub open spec fn listing_line(t: CommitTypeView, p: &Palette) -> Seq<char> {
    "  "@ + t.emoji + "  "@ + p.bold@ + pad_right(t.type_, 12) + p.reset@ + listing_badge(t.semver, p)
        + "  "@ + p.muted@ + t.description + p.reset@ + "\n"@
}

/// The line `types` prints for one commit type.
pub fn type_listing_line(t: &CommitType, p: &Palette) -> (s: String)
    ensures
        s@ == listing_line(t@, p),
{
    let mut s = string_of("  ");
    push_str(&mut s, t.emoji.as_str());
    push_str(&mut s, "  ");
    push_str(&mut s, p.bold);
    push_padded(&mut s, t.type_.as_str(), 12);
    push_str(&mut s, p.reset);
    if str_eq(t.semver.as_str(), "minor") {
        push_str(&mut s, "  ");
        push_str(&mut s, p.green);
        push_str(&mut s, "minor");
        push_str(&mut s, p.reset);
    } else if str_eq(t.semver.as_str(), "patch") {
        push_str(&mut s, "  ");
        push_str(&mut s, p.yellow);
        push_str(&mut s, "patch");
        push_str(&mut s, p.reset);
    }
    push_str(&mut s, "  ");
    push_str(&mut s, p.muted);
    push_str(&mut s, t.description.as_str());
    push_str(&mut s, p.reset);
    push_str(&mut s, "\n");
    s
}

/// The heading of the listing.
pub fn types_heading(p: &Palette) -> (s: String)
    ensures
        s@ == "\n  "@ + p.accent_bold@ + "commit types"@ + p.reset@ + "\n"@,
{
    let mut s = string_of("\n  ");
    push_str(&mut s, p.accent_bold);
    push_str(&mut s, "commit types");
    push_str(&mut s, p.reset);
    push_str(&mut s, "\n");
    s
}

/// The note after the listing: custom types are included when the
/// configuration file exists; otherwise a hint to create one.
pub fn types_note(config_exists: bool, p: &Palette) -> (s: String)
    ensures
        s@ == "  "@ + p.muted@ + (if config_exists {
            "custom types from .cmt.json included above"@
        } else {
            "run cmt init to configure custom types"@
        }) + p.reset@ + "\n\n"@,
{
    let mut s = string_of("  ");
    push_str(&mut s, p.muted);
    if config_exists {
        push_str(&mut s, "custom types from .cmt.json included above");
    } else {
        push_str(&mut s, "run cmt init to configure custom types");
    }
    push_str(&mut s, p.reset);
    push_str(&mut s, "\n\n");
    s
}

} // verus!
