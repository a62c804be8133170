//! Trace capture: the decisions of the sampling loop. The caller polls the
//! pointer at a fixed rate and hands each position to `Recording::update`.
use vstd::prelude::*;

use crate::geometry::Vector2D;

verus! {

/// How many polls without movement end a trace.
pub const END_FIGURE_TIMEOUT: u8 = 5;

/// What a poll found.
#[derive(Clone, Copy, Debug, PartialEq, Eq, Structural)]
pub enum RecordingStatus {
    /// The pointer has not moved since the recording was armed.
    Waiting,
    /// A trace is being recorded.
    Running,
    /// The pointer rested long enough: the trace is complete.
    Finished,
}

/// The state of one trace capture.
pub struct Recording {
    /// The positions recorded so far, oldest first.
    pub coordinates: Vec<Vector2D>,
    /// The recording is armed: it holds a resting position to compare against.
    pub initialized: bool,
    /// The pointer has moved since the recording was armed.
    pub running: bool,
    /// The last position seen.
    pub stop_coordinate: Vector2D,
    /// Polls without movement since the trace started.
    pub coordinate_unchanged_cycles: u8,
}

impl Recording {
    /// The counter of resting polls stays below the timeout while armed.
    pub open spec fn wf(&self) -> bool {
        self.initialized ==> self.coordinate_unchanged_cycles < END_FIGURE_TIMEOUT
    }

    /// Arms the recording at the pointer's current `position`.
    pub fn init(&mut self, position: Vector2D)
        ensures
            final(self).initialized,
            !final(self).running,
            final(self).stop_coordinate == position,
            final(self).coordinate_unchanged_cycles == 0,
            final(self).coordinates@ == old(self).coordinates@,
    {
        self.initialized = true;
        self.running = false;
        self.stop_coordinate = position;
        self.coordinate_unchanged_cycles = 0;
    }

    /// Takes the pointer's position at one poll. An unarmed recording is
    /// armed at it. A position that differs from the last one is recorded.
    /// Once the trace has started, each poll without movement counts, and at
    /// `END_FIGURE_TIMEOUT` of them the trace is finished and the recording
    /// disarmed.
    pub fn update(&mut self, current: Vector2D) -> (r: RecordingStatus)
        requires
            old(self).wf(),
        ensures
            final(self).wf(),
            !old(self).initialized ==> {
                &&& r == RecordingStatus::Waiting
                &&& final(self).initialized
                &&& !final(self).running
                &&& final(self).stop_coordinate == current
                &&& final(self).coordinate_unchanged_cycles == 0
                &&& final(self).coordinates@ == old(self).coordinates@
            },
            old(self).initialized && old(self).stop_coordinate != current ==> {
                &&& r == RecordingStatus::Running
                &&& final(self).initialized
                &&& final(self).running
                &&& final(self).stop_coordinate == current
                &&& final(self).coordinate_unchanged_cycles == old(self).coordinate_unchanged_cycles
                &&& final(self).coordinates@ == old(self).coordinates@.push(current)
            },
            old(self).initialized && old(self).stop_coordinate == current && old(self).running ==> {
                let cycles = old(self).coordinate_unchanged_cycles + 1;
                &&& final(self).running
                &&& final(self).stop_coordinate == current
                &&& final(self).coordinate_unchanged_cycles == cycles
                &&& final(self).coordinates@ == old(self).coordinates@
                &&& cycles >= END_FIGURE_TIMEOUT ==> r == RecordingStatus::Finished
                    && !final(self).initialized
                &&& cycles < END_FIGURE_TIMEOUT ==> r == RecordingStatus::Running
                    && final(self).initialized
            },
            old(self).initialized && old(self).stop_coordinate == current && !old(self).running ==> {
                &&& r == RecordingStatus::Waiting
                &&& final(self).initialized
                &&& !final(self).running
                &&& final(self).stop_coordinate == current
                &&& final(self).coordinate_unchanged_cycles == old(self).coordinate_unchanged_cycles
                &&& final(self).coordinates@ == old(self).coordinates@
            },
    {
        if !self.initialized {
            self.init(current);
        }
        if self.stop_coordinate != current {
            self.running = true;
            self.coordinates.push(current);
            self.stop_coordinate = current;
            RecordingStatus::Running
        } else if self.running {
            self.coordinate_unchanged_cycles = self.coordinate_unchanged_cycles + 1;
            if self.coordinate_unchanged_cycles >= END_FIGURE_TIMEOUT {
                self.initialized = false;
                self.stop_coordinate = current;
                RecordingStatus::Finished
            } else {
                RecordingStatus::Running
            }
        } else {
            RecordingStatus::Waiting
        }
    }
}

impl Default for Recording {
    /// An empty, unarmed recording.
    fn default() -> (r: Recording)
        ensures
            r.coordinates@.len() == 0,
            !r.initialized,
            !r.running,
            r.stop_coordinate == (Vector2D { x: 0, y: 0 }),
            r.coordinate_unchanged_cycles == 0,
    {
        Recording {
            coordinates: Vec::new(),
            initialized: false,
            running: false,
            stop_coordinate: Vector2D { x: 0, y: 0 },
            coordinate_unchanged_cycles: 0,
        }
    }
}

} // verus!
