//! The persisted after-save choice, resolved into the one action to take.
use vstd::prelude::*;
use crate::replay::model::{ReplaySnapshot, ReplayState};

verus! {

/// What to do once a replay is saved.
#[derive(Debug, Clone, Copy, PartialEq, Eq, Structural)]
pub enum AfterSaveAction {
    Reveal,
    OpenEditor,
    Preview,
    Nothing,
}

/// The action for a stored choice; anything unrecognized means `Nothing`.
pub open spec fn action_of(choice: Seq<char>) -> AfterSaveAction {
    if choice == "reveal"@ {
        AfterSaveAction::Reveal
    } else if choice == "open_editor"@ {
        AfterSaveAction::OpenEditor
    } else if choice == "preview"@ {
        AfterSaveAction::Preview
    } else {
        AfterSaveAction::Nothing
    }
}

/// Maps a persisted choice to its action (see [`action_of`]).
pub fn action_for(choice: &str) -> (r: AfterSaveAction)
    ensures
        r == action_of(choice@),
{
    if crate::text::same_text(choice, "reveal") {
        AfterSaveAction::Reveal
    } else if crate::text::same_text(choice, "open_editor") {
        AfterSaveAction::OpenEditor
    } else if crate::text::same_text(choice, "preview") {
        AfterSaveAction::Preview
    } else {
        AfterSaveAction::Nothing
    }
}

/// The replay to reveal once a save lands: the saved replay's id when the
/// snapshot is `saved`, names a saved replay, and the stored choice is
/// `reveal`; nothing otherwise.
pub open spec fn reveal_after_save_of(snapshot: ReplaySnapshot, choice: Seq<char>) -> Option<Seq<char>> {
    if snapshot.state == ReplayState::Saved && snapshot.saved is Some && choice == "reveal"@ {
        Some(snapshot.saved->0.id@)
    } else {
        None
    }
}

/// The replay to reveal after a save (see [`reveal_after_save_of`]).
pub fn honor_after_save(snapshot: &ReplaySnapshot, choice: &str) -> (r: Option<String>)
    ensures
        match r {
            Some(id) => reveal_after_save_of(*snapshot, choice@) == Some(id@),
            None => reveal_after_save_of(*snapshot, choice@) is None,
        },
{
    match (&snapshot.state, &snapshot.saved) {
        (ReplayState::Saved, Some(saved)) => {
            if crate::text::same_text(choice, "reveal") {
                Some(saved.id.clone())
            } else {
                None
            }
        },
        _ => None,
    }
}

} // verus!
