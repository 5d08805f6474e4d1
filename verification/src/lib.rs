//! The export pipeline of a small video editor: from a timeline of clips and
//! audio tracks to the argument list of the external media engine, with the
//! detection of hardware encoders, the lookup of file durations and the
//! supervision of a running export.
//!
//! The library computes and decides; it runs no process and touches no
//! file.

use vstd::prelude::*;

pub mod capability;
pub mod command;
pub mod decimal;
pub mod encoders;
pub mod filters;
pub mod models;
pub mod outside;
pub mod progress;
pub mod supervisor;
pub mod text;

verus! {

/// What the application keeps for as long as it runs.
pub struct AppState {
    pub ffmpeg: capability::FFmpegProcessor,
    pub export: supervisor::ExportSupervisor,
}

impl AppState {
    /// The state of an application that has just started: nothing is
    /// remembered and no export has run.
    pub fn new() -> (state: AppState)
        ensures
            state.ffmpeg@ == capability::ProcessorView::initial(),
            state.export@ == supervisor::SupervisorView::initial(),
    {
        AppState {
            ffmpeg: capability::FFmpegProcessor::new(),
            export: supervisor::ExportSupervisor::new(),
        }
    }
}

} // verus!
