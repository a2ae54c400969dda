//! Snapshot value types handed in by the outside collaborators: the media
//! player's status and the audio analyzer's spectrum/amplitude columns.
//! Rendering always works from the latest snapshot it was given.

use vstd::prelude::*;

verus! {

/// Playback state of the media player.
#[derive(Clone, Copy, PartialEq, Eq, Structural, Debug)]
pub enum PlaybackState {
    Play,
    Pause,
    Stop,
}

/// The latest media-player snapshot. Text fields are byte strings; the wall
/// clock is carried as hour, minute and second; `elapsed` and `duration` are
/// the track position in milliseconds; `ms` is the process's monotonic
/// millisecond clock.
pub struct Info {
    pub volume: i8,
    pub ms: u64,
    pub hour: u8,
    pub minute: u8,
    pub second: u8,
    pub artist: Vec<u8>,
    pub song: Vec<u8>,
    pub duration: u64,
    pub elapsed: u64,
    pub state: PlaybackState,
}

impl Info {
    /// Clock fields are a valid time of day, the track position does not run
    /// past the track's length, and the text fits the placement arithmetic's
    /// coordinate range.
    pub open spec fn wf(&self) -> bool {
        &&& self.hour < 24
        &&& self.minute < 60
        &&& self.second < 60
        &&& self.elapsed <= self.duration
        &&& self.artist@.len() + self.song@.len() <= 0x00FF_FFFF
    }
}

/// One column's (low, high) display heights, in grid rows from 0 to 15.
pub type ColumnPair = (u8, u8);

/// The latest audio-analysis snapshot: one (min, max) height pair per display
/// column for the spectrum view and for the scrolling amplitude view.
pub struct SpectrumResult {
    pub spectrum: Vec<ColumnPair>,
    pub amplitude: Vec<ColumnPair>,
}

impl SpectrumResult {
    /// Exactly one pair per display column, every height on the grid.
    pub open spec fn wf(&self) -> bool {
        &&& self.spectrum@.len() == 32
        &&& self.amplitude@.len() == 32
        &&& forall|i: int| 0 <= i < 32
            ==> (#[trigger] self.spectrum@[i]).1 <= 15 && self.spectrum@[i].0 <= 15
        &&& forall|i: int| 0 <= i < 32
            ==> (#[trigger] self.amplitude@[i]).1 <= 15 && self.amplitude@[i].0 <= 15
    }
}

} // verus!
