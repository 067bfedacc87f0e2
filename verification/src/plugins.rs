//! The built-in plugins: attendance, notices and scores.

use vstd::prelude::*;

use crate::plugin::Plugin;

verus! {

/// The attendance-tracking plugin.
#[derive(Clone, Copy)]
pub struct AttendancePlugin;

impl Plugin for AttendancePlugin {
    fn name(&self) -> (r: &str) {
        "attendance"
    }

    fn version(&self) -> (r: &str) {
        "1.0.0"
    }

    fn initialize(&self) -> (r: Result<(), anyhow::Error>) {
        Ok(())
    }

    fn shutdown(&self) -> (r: Result<(), anyhow::Error>) {
        Ok(())
    }
}

impl AttendancePlugin {
    /// The attendance plugin, boxed for the registry.
    pub fn new() -> Box<dyn Plugin> {
        Box::new(AttendancePlugin)
    }
}

/// The notice-board plugin.
#[derive(Clone, Copy)]
pub struct NoticePlugin;

impl Plugin for NoticePlugin {
    fn name(&self) -> (r: &str) {
        "notice"
    }

    fn version(&self) -> (r: &str) {
        "1.0.0"
    }

    fn initialize(&self) -> (r: Result<(), anyhow::Error>) {
        Ok(())
    }

    fn shutdown(&self) -> (r: Result<(), anyhow::Error>) {
        Ok(())
    }
}

impl NoticePlugin {
    /// The notice plugin, boxed for the registry.
    pub fn new() -> Box<dyn Plugin> {
        Box::new(NoticePlugin)
    }
}

/// The score-keeping plugin.
#[derive(Clone, Copy)]
pub struct ScorePlugin;

impl Plugin for ScorePlugin {
    fn name(&self) -> (r: &str) {
        "score"
    }

    fn version(&self) -> (r: &str) {
        "1.0.0"
    }

    fn initialize(&self) -> (r: Result<(), anyhow::Error>) {
        Ok(())
    }

    fn shutdown(&self) -> (r: Result<(), anyhow::Error>) {
        Ok(())
    }
}

impl ScorePlugin {
    /// The score plugin, boxed for the registry.
    pub fn new() -> Box<dyn Plugin> {
        Box::new(ScorePlugin)
    }
}

} // verus!
