//! Core of a Wine/Proton game launcher: composing the environment for a
//! launch, resolving runner names to installed toolchains, building the spawn
//! command, keeping a registry of running games, and tearing down process
//! trees.
//!
//! All logic here is verified; the thin I/O shell around it lives outside
//! this crate.

pub mod compose;
pub mod dialog;
pub mod envar;
pub mod envmap;
pub mod game;
pub mod launcher;
pub mod process;
pub mod registry;
pub mod runner;
pub mod shortcuts;
pub mod text;
pub mod tray;

use vstd::prelude::*;

verus! {

/// The failures a launch attempt can surface.
#[derive(Debug, Clone, PartialEq, Eq)]
pub enum LauncherError {
    /// A runner identifier was empty or contained path separators.
    RunnerInvalid,
    /// No installed runner directory matched the identifier.
    RunnerNotFound,
    /// The launcher binary could not be located.
    LauncherMissing,
    /// The command line did not have the expected shape.
    Usage,
    /// An unknown flag was passed on the command line.
    UnknownFlag,
    /// No game with the requested identifier exists.
    GameNotFound,
    /// No icon file could be located.
    IconNotFound,
}

impl LauncherError {
    /// A short description of the error, for display by callers.
    pub fn message(&self) -> (r: &'static str)
        ensures
            r@ == self.spec_message(),
    {
        match self {
            LauncherError::RunnerInvalid => "Invalid runner identifier",
            LauncherError::RunnerNotFound => "Runner not found",
            LauncherError::LauncherMissing => "umu-run not found. Please install UMU-Launcher.",
            LauncherError::Usage => "Usage: faugus-run --game <gameid>",
            LauncherError::UnknownFlag => "Unknown flag: expected --game",
            LauncherError::GameNotFound => "Game not found",
            LauncherError::IconNotFound => "No suitable tray icon found",
        }
    }

    pub open spec fn spec_message(&self) -> Seq<char> {
        match self {
            LauncherError::RunnerInvalid => "Invalid runner identifier"@,
            LauncherError::RunnerNotFound => "Runner not found"@,
            LauncherError::LauncherMissing => "umu-run not found. Please install UMU-Launcher."@,
            LauncherError::Usage => "Usage: faugus-run --game <gameid>"@,
            LauncherError::UnknownFlag => "Unknown flag: expected --game"@,
            LauncherError::GameNotFound => "Game not found"@,
            LauncherError::IconNotFound => "No suitable tray icon found"@,
        }
    }
}

} // verus!
