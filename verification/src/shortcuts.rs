//! Where a desktop shortcut is placed. Writing the shortcut files is the
//! shell's work; the placement choice travels through the library.

use vstd::prelude::*;

verus! {

/// Where a shortcut goes.
#[derive(Debug, Clone, Copy, PartialEq, Eq, Structural)]
pub enum ShortcutLocation {
    /// On the desktop only.
    Desktop,
    /// In the applications menu only.
    Applications,
    /// Both places.
    Both,
}

} // verus!
