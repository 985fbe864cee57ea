//! The session's audio player, modelled as plain state: what is loaded,
//! whether it plays, the position and the volume. The decoding and the
//! sound output are the playback collaborator's work.
use vstd::prelude::*;

verus! {

/// The one audio player a session owns. At most one source is loaded at
/// a time; loading a new source replaces the old one.
pub struct AudioPlayer {
    pub loaded: bool,
    pub duration: u64,
    pub playing: bool,
    pub position: u64,
    pub volume: u32,
}

impl AudioPlayer {
    pub fn new() -> (r: AudioPlayer)
        ensures
            !r.loaded,
            !r.playing,
            r.position == 0,
            r.volume == 500,
    {
        AudioPlayer { loaded: false, duration: 0, playing: false, position: 0, volume: 500 }
    }

    /// Loads a source of the given duration, replacing any loaded one;
    /// playback starts paused at the beginning.
    pub fn load_file(&mut self, duration: u64)
        ensures
            final (self).loaded,
            final (self).duration == duration,
            !final (self).playing,
            final (self).position == 0,
            final (self).volume == old(self).volume,
    {
        self.loaded = true;
        self.duration = duration;
        self.playing = false;
        self.position = 0;
    }

    /// Starts playback; without a loaded source there is nothing to play.
    pub fn play(&mut self)
        ensures
            final (self).playing == old(self).loaded,
            final (self).loaded == old(self).loaded,
            final (self).duration == old(self).duration,
            final (self).position == old(self).position,
            final (self).volume == old(self).volume,
    {
        self.playing = self.loaded;
    }

    pub fn pause(&mut self)
        ensures
            !final (self).playing,
            final (self).loaded == old(self).loaded,
            final (self).duration == old(self).duration,
            final (self).position == old(self).position,
            final (self).volume == old(self).volume,
    {
        self.playing = false;
    }

    /// Seeks to the given position, clamped to the duration, and reports
    /// whether playback is active after the seek.
    pub fn seek(&mut self, pos: u64) -> (playing: bool)
        ensures
            final (self).position == (if pos <= old(self).duration {
                pos
            } else {
                old(self).duration
            }),
            playing == final (self).playing,
            final (self).playing == old(self).playing,
            final (self).loaded == old(self).loaded,
            final (self).duration == old(self).duration,
            final (self).volume == old(self).volume,
    {
        self.position = if pos <= self.duration {
            pos
        } else {
            self.duration
        };
        self.playing
    }

    /// Sets the volume, clamped to the 0..=1000 scale.
    pub fn set_volume(&mut self, volume: u32)
        ensures
            final (self).volume == (if volume <= 1000 {
                volume
            } else {
                1000
            }),
            final (self).loaded == old(self).loaded,
            final (self).playing == old(self).playing,
            final (self).duration == old(self).duration,
            final (self).position == old(self).position,
    {
        self.volume = if volume <= 1000 {
            volume
        } else {
            1000
        };
    }

    /// Releases the loaded source.
    pub fn release(&mut self)
        ensures
            !final (self).loaded,
            !final (self).playing,
    {
        self.loaded = false;
        self.playing = false;
        self.position = 0;
    }
}

} // verus!
