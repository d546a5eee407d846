//! When the frame capture has to be started again: exactly when the size
//! that frames are scaled to changes.
use vstd::prelude::*;
use crate::size::TerminalSize;

verus! {

/// The size the running capture scales to, if one runs.
pub struct CaptureStage {
    pub current: Option<TerminalSize>,
}

impl CaptureStage {
    pub fn new() -> (r: CaptureStage)
        ensures
            r.current is None,
    {
        CaptureStage { current: None }
    }

    /// Takes the size observed now and tells whether the capture must be
    /// (re)started for it: a resize to the current size restarts nothing.
    pub fn on_size(&mut self, size: TerminalSize) -> (restart: bool)
        ensures
            restart == (old(self).current != Some(size)),
            final(self).current == Some(size),
    {
        let restart = match self.current {
            Some(running) => running.target_width != size.target_width || running.target_height != size.target_height,
            None => true,
        };
        self.current = Some(size);
        restart
    }

    /// The capture was stopped; stopping again changes nothing.
    pub fn stop(&mut self)
        ensures
            final(self).current is None,
    {
        self.current = None;
    }
}

} // verus!
