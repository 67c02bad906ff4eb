//! Track descriptors as the playlist source hands them over, and loaded
//! tracks as the catalog holds them.

use vstd::prelude::*;

use crate::TICK_MS;

verus! {

/// One entry of a playlist description: an optional display name, the
/// already-resolved source reference, and the requested repeat count.
/// A negative repeat count is treated as zero when the track is loaded.
#[derive(Clone, Debug)]
pub struct TrackDescriptor {
    pub name: Option<String>,
    pub source: String,
    pub repeats: i64,
}

/// The mathematical content of a [`TrackDescriptor`].
#[verifier::ext_equal]
pub ghost struct TrackDescriptorModel {
    pub name: Option<Seq<char>>,
    pub source: Seq<char>,
    pub repeats: int,
}

impl View for TrackDescriptor {
    type V = TrackDescriptorModel;

    open spec fn view(&self) -> TrackDescriptorModel {
        TrackDescriptorModel {
            name: match self.name {
                Some(n) => Some(n@),
                None => None,
            },
            source: self.source@,
            repeats: self.repeats as int,
        }
    }
}

/// A track admitted to the catalog: display name, the source reference
/// the stream is opened from, probed total duration, and the number of
/// additional full passes still owed before the traversal moves past it.
pub struct LoadedTrack {
    pub name: String,
    pub source: String,
    pub duration_ms: u64,
    pub remaining_repeats: u32,
}

/// The mathematical content of a [`LoadedTrack`].
#[verifier::ext_equal]
pub ghost struct TrackModel {
    pub name: Seq<char>,
    pub source: Seq<char>,
    pub duration_ms: int,
    pub remaining_repeats: int,
}

impl View for LoadedTrack {
    type V = TrackModel;

    open spec fn view(&self) -> TrackModel {
        TrackModel {
            name: self.name@,
            source: self.source@,
            duration_ms: self.duration_ms as int,
            remaining_repeats: self.remaining_repeats as int,
        }
    }
}

impl TrackModel {
    /// The duration leaves room for one more full tick of elapsed time,
    /// so that advancing the clock can never overflow, and the repeat
    /// counter is never negative.
    pub open spec fn wf(self) -> bool {
        &&& 0 <= self.duration_ms <= u64::MAX - TICK_MS
        &&& 0 <= self.remaining_repeats <= u32::MAX
    }
}

/// The largest admissible total duration of a track, in milliseconds.
pub open spec fn max_track_duration_ms() -> int {
    u64::MAX - TICK_MS
}

/// The repeat count a loaded track starts with: the requested count with
/// everything below zero raised to zero and everything above `u32::MAX`
/// lowered to `u32::MAX`.
pub open spec fn clamped_repeats(repeats: int) -> int {
    if repeats < 0 {
        0
    } else if repeats > u32::MAX {
        u32::MAX as int
    } else {
        repeats
    }
}

impl LoadedTrack {
    /// Builds the catalog entry for a descriptor whose source opened and
    /// whose duration was probed successfully. The duration is capped at
    /// the largest admissible value; the repeat count is clamped into
    /// the counter's range.
    pub fn new(name: String, source: String, duration_ms: u64, repeats: i64) -> (track:
        LoadedTrack)
        ensures
            track@.name == name@,
            track@.source == source@,
            track@.duration_ms == if duration_ms <= max_track_duration_ms() {
                duration_ms as int
            } else {
                max_track_duration_ms()
            },
            track@.remaining_repeats == clamped_repeats(repeats as int),
            track@.wf(),
    {
        let capped_duration: u64 = if duration_ms <= u64::MAX - TICK_MS {
            duration_ms
        } else {
            u64::MAX - TICK_MS
        };
        let clamped: u32 = if repeats < 0 {
            0
        } else if repeats > u32::MAX as i64 {
            u32::MAX
        } else {
            repeats as u32
        };
        LoadedTrack { name, source, duration_ms: capped_duration, remaining_repeats: clamped }
    }

    /// The display name a descriptor yields: its own name if present,
    /// otherwise its source reference.
    pub fn display_name(descriptor: &TrackDescriptor) -> (name: String)
        ensures
            name@ == spec_display_name(descriptor@),
    {
        match &descriptor.name {
            Some(n) => n.clone(),
            None => descriptor.source.clone(),
        }
    }
}

/// The display name of a descriptor, as a mathematical function.
pub open spec fn spec_display_name(descriptor: TrackDescriptorModel) -> Seq<char> {
    match descriptor.name {
        Some(n) => n,
        None => descriptor.source,
    }
}

} // verus!
