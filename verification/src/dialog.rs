//! The confirmation dialog's state: a title, a message, and the two replies
//! it can produce. Rendering lives with the graphical shell; the state and
//! the texts it derives are what this module pins down.

use vstd::prelude::*;

verus! {

/// A confirmation prompt, generic over the reply type the surrounding shell
/// uses.
pub struct ConfirmationDialog<M> {
    /// Dialog title.
    pub title: String,
    /// Dialog message.
    pub message: String,
    /// Reply sent when confirmed.
    pub on_confirm: M,
    /// Reply sent when cancelled.
    pub on_cancel: M,
}

/// The message of a deletion prompt for the given game title.
pub open spec fn delete_message(game_title: Seq<char>) -> Seq<char> {
    "Game: "@ + game_title + "\nThis action cannot be undone."@
}

impl<M> ConfirmationDialog<M> {
    /// A dialog with the given texts and replies.
    pub fn new(title: String, message: String, on_confirm: M, on_cancel: M) -> (r:
        ConfirmationDialog<M>)
        ensures
            r.title == title,
            r.message == message,
            r.on_confirm == on_confirm,
            r.on_cancel == on_cancel,
    {
        ConfirmationDialog { title, message, on_confirm, on_cancel }
    }

    /// The prompt shown before a game is deleted.
    pub fn delete_confirmation(game_title: String, on_confirm: M, on_cancel: M) -> (r:
        ConfirmationDialog<M>)
        ensures
            r.title@ == "Confirm"@,
            r.message@ == delete_message(game_title@),
            r.on_confirm == on_confirm,
            r.on_cancel == on_cancel,
    {
        let mut message = String::from_str("Game: ");
        message.append(game_title.as_str());
        message.append("\nThis action cannot be undone.");
        Self::new(String::from_str("Confirm"), message, on_confirm, on_cancel)
    }

    /// A dialog with caller-chosen texts.
    pub fn custom(title: String, message: String, on_confirm: M, on_cancel: M) -> (r:
        ConfirmationDialog<M>)
        ensures
            r.title == title,
            r.message == message,
            r.on_confirm == on_confirm,
            r.on_cancel == on_cancel,
    {
        Self::new(title, message, on_confirm, on_cancel)
    }
}

} // verus!
