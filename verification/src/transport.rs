//! Deck transport: playback state, track presence and seek crossfade.
//!
//! Each deck turns UI commands into a new playback state and an action for
//! the audio path (install or drop the track reader, reset or move the play
//! position, hint the reader). Seeking while playing captures a short
//! crossfade from the old position that is blended into the next buffers.

use vstd::prelude::*;

verus! {

/// Crossfade length in frames used to smooth a seek.
pub const CROSSFADE_FRAMES: usize = 64;

/// Playback state of a single deck.
#[derive(Debug, Clone, Copy, PartialEq, Eq, Structural)]
pub enum PlaybackState {
    /// No track loaded.
    Empty,
    /// Track loaded, not playing, position at 0.
    Stopped,
    /// Actively playing audio.
    Playing,
    /// Paused at the current position.
    Paused,
}

/// Errors from deck handle operations.
#[derive(Debug, Clone, PartialEq, Eq)]
pub enum EngineBufferError {
    /// The track could not be opened or decoded.
    LoadFailed(String),
    /// The command queue is full.
    ChannelFull,
}

/// A command to a deck's transport.
#[derive(Debug, Clone, Copy, PartialEq, Eq, Structural)]
pub enum TransportCommand {
    /// A decoded track and its reader are ready.
    TrackLoaded,
    Play,
    Pause,
    Stop,
    /// Move the play position.
    Seek,
    /// Unload the track.
    Eject,
}

/// What the audio path does after a transport command.
#[derive(Debug, Clone, Copy, PartialEq, Eq, Structural)]
pub enum TransportAction {
    /// Nothing beyond the state change.
    Nothing,
    /// Take the new reader and track info; play position to 0.
    InstallTrack,
    /// Hint the reader at the current play position.
    HintPosition,
    /// Play position to 0.
    ResetPosition,
    /// Move the play position and hint the reader there; when
    /// `capture_crossfade` holds (the deck is playing), first read the
    /// crossfade source from the old position. Only a playing or paused deck
    /// seeks: a stopped deck stays at position 0.
    Seek { capture_crossfade: bool },
    /// Drop the reader and track info; play position to 0.
    Unload,
}

/// The playback state after `cmd` in state `s`.
pub open spec fn next_state(s: PlaybackState, cmd: TransportCommand) -> PlaybackState {
    match cmd {
        TransportCommand::TrackLoaded => PlaybackState::Stopped,
        TransportCommand::Play => if s == PlaybackState::Stopped || s == PlaybackState::Paused {
            PlaybackState::Playing
        } else {
            s
        },
        TransportCommand::Pause => if s == PlaybackState::Playing {
            PlaybackState::Paused
        } else {
            s
        },
        TransportCommand::Stop => if s == PlaybackState::Empty {
            PlaybackState::Empty
        } else {
            PlaybackState::Stopped
        },
        TransportCommand::Seek => s,
        TransportCommand::Eject => PlaybackState::Empty,
    }
}

/// The action that follows `cmd` in state `s`.
pub open spec fn action_for(s: PlaybackState, cmd: TransportCommand) -> TransportAction {
    match cmd {
        TransportCommand::TrackLoaded => TransportAction::InstallTrack,
        TransportCommand::Play => if s == PlaybackState::Stopped || s == PlaybackState::Paused {
            TransportAction::HintPosition
        } else {
            TransportAction::Nothing
        },
        TransportCommand::Pause => TransportAction::Nothing,
        TransportCommand::Stop => if s == PlaybackState::Empty {
            TransportAction::Nothing
        } else {
            TransportAction::ResetPosition
        },
        TransportCommand::Seek => if s == PlaybackState::Playing || s == PlaybackState::Paused {
            TransportAction::Seek { capture_crossfade: s == PlaybackState::Playing }
        } else {
            TransportAction::Nothing
        },
        TransportCommand::Eject => TransportAction::Unload,
    }
}

/// Crossfade frames left after `cmd` in state `s` with `remaining` left before.
pub open spec fn next_crossfade(s: PlaybackState, cmd: TransportCommand, remaining: nat) -> nat {
    match cmd {
        TransportCommand::TrackLoaded => 0,
        TransportCommand::Stop => if s == PlaybackState::Empty {
            remaining
        } else {
            0
        },
        TransportCommand::Seek => if s == PlaybackState::Playing {
            CROSSFADE_FRAMES as nat
        } else {
            remaining
        },
        TransportCommand::Eject => 0,
        _ => remaining,
    }
}

/// Whether the audio path puts the play position at 0 on action `a`.
pub open spec fn resets_position(a: TransportAction) -> bool {
    a == TransportAction::InstallTrack || a == TransportAction::ResetPosition || a
        == TransportAction::Unload
}

/// Whether the audio path moves the play position on action `a`.
pub open spec fn moves_position(a: TransportAction) -> bool {
    a is Seek
}

/// Whether the play position is at 0 after `cmd` in state `s`, where
/// `at_start` tells whether it was before; playing moves it.
pub open spec fn next_at_start(s: PlaybackState, at_start: bool, cmd: TransportCommand) -> bool {
    let a = action_for(s, cmd);
    if resets_position(a) {
        true
    } else if moves_position(a) || next_state(s, cmd) == PlaybackState::Playing {
        false
    } else {
        at_start
    }
}

/// A stopped deck is at position 0: `Stopped` is reached only by an action
/// that puts the position at 0, or from `Stopped` by one that does not move
/// it. So, step by step, a deck that is stopped (or empty) is at 0.
pub proof fn law_stopped_at_start(s: PlaybackState, at_start: bool, cmd: TransportCommand)
    requires
        s == PlaybackState::Stopped || s == PlaybackState::Empty ==> at_start,
    ensures
        next_state(s, cmd) == PlaybackState::Stopped ==> resets_position(action_for(s, cmd)) || (s
            == PlaybackState::Stopped && !moves_position(action_for(s, cmd))),
        next_state(s, cmd) == PlaybackState::Stopped || next_state(s, cmd) == PlaybackState::Empty
            ==> next_at_start(s, at_start, cmd),
{
}

/// The playback state after the commands `cmds`, applied in order from `s`.
pub open spec fn run(s: PlaybackState, cmds: Seq<TransportCommand>) -> PlaybackState
    decreases cmds.len(),
{
    if cmds.len() == 0 {
        s
    } else {
        run(next_state(s, cmds[0]), cmds.drop_first())
    }
}

/// A deck without a track stays without one until a track is loaded: every
/// command other than `TrackLoaded` leaves an empty deck empty.
pub proof fn law_empty_deck_stays_empty(cmds: Seq<TransportCommand>)
    requires
        forall|i: int| 0 <= i < cmds.len() ==> cmds[i] != TransportCommand::TrackLoaded,
    ensures
        run(PlaybackState::Empty, cmds) == PlaybackState::Empty,
    decreases cmds.len(),
{
    if cmds.len() > 0 {
        assert(cmds[0] != TransportCommand::TrackLoaded);
        let rest = cmds.drop_first();
        assert forall|i: int| 0 <= i < rest.len() implies rest[i] != TransportCommand::TrackLoaded by {
            assert(rest[i] == cmds[i + 1]);
        }
        law_empty_deck_stays_empty(rest);
    }
}

/// Whether the play position is at 0 after the commands `cmds`, applied in
/// order from state `s` with the position at 0 or not (`at_start`).
pub open spec fn run_at_start(s: PlaybackState, at_start: bool, cmds: Seq<TransportCommand>) -> bool
    decreases cmds.len(),
{
    if cmds.len() == 0 {
        at_start
    } else {
        run_at_start(next_state(s, cmds[0]), next_at_start(s, at_start, cmds[0]), cmds.drop_first())
    }
}

/// Whatever commands a deck receives, once it is stopped or empty its play
/// position is at 0, provided it started so (a fresh deck is empty, at 0).
pub proof fn law_stopped_deck_at_start(s: PlaybackState, at_start: bool, cmds: Seq<TransportCommand>)
    requires
        s == PlaybackState::Stopped || s == PlaybackState::Empty ==> at_start,
    ensures
        run(s, cmds) == PlaybackState::Stopped || run(s, cmds) == PlaybackState::Empty
            ==> run_at_start(s, at_start, cmds),
    decreases cmds.len(),
{
    if cmds.len() > 0 {
        law_stopped_at_start(s, at_start, cmds[0]);
        law_stopped_deck_at_start(
            next_state(s, cmds[0]),
            next_at_start(s, at_start, cmds[0]),
            cmds.drop_first(),
        );
    }
}

/// Seeking never changes the playback state: a paused deck stays paused
/// (silent) at its new position, a playing deck keeps playing, and a
/// stopped or empty deck is left as it is.
pub proof fn law_seek_keeps_state(s: PlaybackState)
    ensures
        next_state(s, TransportCommand::Seek) == s,
        action_for(s, TransportCommand::Seek) is Seek <==> (s == PlaybackState::Playing || s
            == PlaybackState::Paused),
{
}

/// Only `Play` starts playback, and only from a deck with a track; `Pause`
/// leaves a paused deck only from playback, and an empty deck gains a
/// track only by `TrackLoaded`.
pub proof fn law_what_starts_and_pauses(s: PlaybackState, cmd: TransportCommand)
    ensures
        s != PlaybackState::Playing && next_state(s, cmd) == PlaybackState::Playing ==> cmd
            == TransportCommand::Play && s != PlaybackState::Empty,
        s != PlaybackState::Paused && next_state(s, cmd) == PlaybackState::Paused ==> cmd
            == TransportCommand::Pause && s == PlaybackState::Playing,
        s == PlaybackState::Empty && next_state(s, cmd) != PlaybackState::Empty ==> cmd
            == TransportCommand::TrackLoaded,
        s == PlaybackState::Paused && next_state(s, cmd) == PlaybackState::Playing ==> cmd
            == TransportCommand::Play,
{
}

/// A crossfade starts only when a playing deck seeks, and then runs its
/// full length; loading, stopping and ejecting cancel a running one, and
/// any other command leaves it as it was.
pub proof fn law_crossfade_starts_on_seek_while_playing(s: PlaybackState, cmd: TransportCommand, remaining: nat)
    ensures
        cmd == TransportCommand::Seek && s == PlaybackState::Playing ==> next_crossfade(s, cmd, remaining)
            == CROSSFADE_FRAMES,
        next_crossfade(s, cmd, remaining) > remaining ==> cmd == TransportCommand::Seek && s
            == PlaybackState::Playing,
        (cmd == TransportCommand::TrackLoaded || cmd == TransportCommand::Eject || (cmd
            == TransportCommand::Stop && s != PlaybackState::Empty)) ==> next_crossfade(s, cmd, remaining) == 0,
        (cmd == TransportCommand::Play || cmd == TransportCommand::Pause) ==> next_crossfade(s, cmd, remaining)
            == remaining,
{
}

/// Repeating a command right after itself changes the playback state no
/// further.
pub proof fn law_commands_idempotent(s: PlaybackState, cmd: TransportCommand)
    ensures
        next_state(next_state(s, cmd), cmd) == next_state(s, cmd),
{
}

/// Once a track is loaded, `Stop` and `Eject` decide the state whatever came
/// before: `Stop` gives `Stopped` with the position reset, `Eject` gives
/// `Empty` with the reader dropped.
pub proof fn law_stop_and_eject_reset(s: PlaybackState)
    ensures
        s != PlaybackState::Empty ==> next_state(s, TransportCommand::Stop) == PlaybackState::Stopped
            && action_for(s, TransportCommand::Stop) == TransportAction::ResetPosition,
        next_state(s, TransportCommand::Eject) == PlaybackState::Empty,
        action_for(s, TransportCommand::Eject) == TransportAction::Unload,
{
}

/// Transport of one deck.
pub struct Transport {
    state: PlaybackState,
    /// Whether the play position is at 0.
    at_start: bool,
    /// Whether a track reader is installed.
    loaded: bool,
    /// Crossfade frames still to blend after a seek.
    crossfade_remaining: usize,
}

impl Transport {
    #[verifier::type_invariant]
    spec fn consistent(self) -> bool {
        &&& self.loaded == (self.state != PlaybackState::Empty)
        &&& self.crossfade_remaining <= CROSSFADE_FRAMES
        &&& (self.state == PlaybackState::Stopped || self.state == PlaybackState::Empty) ==> self.at_start
        &&& self.state == PlaybackState::Playing ==> !self.at_start
    }

    /// Whether the play position is at 0.
    pub closed spec fn spec_at_start(self) -> bool {
        self.at_start
    }

    /// Current playback state.
    pub closed spec fn spec_state(self) -> PlaybackState {
        self.state
    }

    /// Whether a track reader is installed.
    pub closed spec fn spec_loaded(self) -> bool {
        self.loaded
    }

    /// Crossfade frames still to blend.
    pub closed spec fn spec_crossfade_remaining(self) -> nat {
        self.crossfade_remaining as nat
    }

    /// A deck with no track.
    pub fn new() -> (r: Self)
        ensures
            r.spec_state() == PlaybackState::Empty,
            !r.spec_loaded(),
            r.spec_crossfade_remaining() == 0,
            r.spec_at_start(),
    {
        Transport { state: PlaybackState::Empty, at_start: true, loaded: false, crossfade_remaining: 0 }
    }

    /// Whether the play position is at 0; always so for a stopped or empty
    /// deck.
    pub fn is_at_start(&self) -> (r: bool)
        ensures
            r == self.spec_at_start(),
            self.spec_state() == PlaybackState::Stopped || self.spec_state() == PlaybackState::Empty
                ==> r,
    {
        proof {
            use_type_invariant(self);
        }
        self.at_start
    }

    /// Current playback state.
    pub fn state(&self) -> (r: PlaybackState)
        ensures
            r == self.spec_state(),
    {
        self.state
    }

    /// Whether a track reader is installed; exactly when the state is not
    /// `Empty`.
    pub fn is_loaded(&self) -> (r: bool)
        ensures
            r == self.spec_loaded(),
            r == (self.spec_state() != PlaybackState::Empty),
    {
        proof {
            use_type_invariant(self);
        }
        self.loaded
    }

    /// Whether the deck is producing audio.
    pub fn is_active(&self) -> (r: bool)
        ensures
            r == (self.spec_state() == PlaybackState::Playing),
    {
        self.state == PlaybackState::Playing
    }

    /// Crossfade frames still to blend.
    pub fn crossfade_remaining(&self) -> (r: usize)
        ensures
            r == self.spec_crossfade_remaining(),
            r <= CROSSFADE_FRAMES,
    {
        proof {
            use_type_invariant(self);
        }
        self.crossfade_remaining
    }

    /// Apply a command: update the state and return what the audio path does.
    pub fn process_command(&mut self, cmd: TransportCommand) -> (a: TransportAction)
        ensures
            final(self).spec_state() == next_state(old(self).spec_state(), cmd),
            final(self).spec_loaded() == (final(self).spec_state() != PlaybackState::Empty),
            final(self).spec_crossfade_remaining() == next_crossfade(
                old(self).spec_state(),
                cmd,
                old(self).spec_crossfade_remaining(),
            ),
            final(self).spec_at_start() == next_at_start(
                old(self).spec_state(),
                old(self).spec_at_start(),
                cmd,
            ),
            a == action_for(old(self).spec_state(), cmd),
    {
        proof {
            use_type_invariant(&*self);
        }
        let s = self.state;
        let xf = self.crossfade_remaining;
        let at = self.at_start;
        match cmd {
            TransportCommand::TrackLoaded => {
                *self = Transport { state: PlaybackState::Stopped, at_start: true, loaded: true, crossfade_remaining: 0 };
                TransportAction::InstallTrack
            },
            TransportCommand::Play => {
                if s == PlaybackState::Stopped || s == PlaybackState::Paused {
                    *self = Transport { state: PlaybackState::Playing, at_start: false, loaded: true, crossfade_remaining: xf };
                    TransportAction::HintPosition
                } else {
                    TransportAction::Nothing
                }
            },
            TransportCommand::Pause => {
                if s == PlaybackState::Playing {
                    *self = Transport { state: PlaybackState::Paused, at_start: at, loaded: true, crossfade_remaining: xf };
                }
                TransportAction::Nothing
            },
            TransportCommand::Stop => {
                if s != PlaybackState::Empty {
                    *self = Transport { state: PlaybackState::Stopped, at_start: true, loaded: true, crossfade_remaining: 0 };
                    TransportAction::ResetPosition
                } else {
                    TransportAction::Nothing
                }
            },
            TransportCommand::Seek => {
                if s == PlaybackState::Playing || s == PlaybackState::Paused {
                    let playing = s == PlaybackState::Playing;
                    let remaining = if playing {
                        CROSSFADE_FRAMES
                    } else {
                        xf
                    };
                    *self = Transport { state: s, at_start: false, loaded: true, crossfade_remaining: remaining };
                    TransportAction::Seek { capture_crossfade: playing }
                } else {
                    TransportAction::Nothing
                }
            },
            TransportCommand::Eject => {
                *self = Transport { state: PlaybackState::Empty, at_start: true, loaded: false, crossfade_remaining: 0 };
                TransportAction::Unload
            },
        }
    }

    /// Take the next part of a pending crossfade for a buffer of `frames`
    /// frames: returns `(start, count)`, the crossfade frame where blending
    /// resumes and how many frames to blend now.
    pub fn take_crossfade(&mut self, frames: usize) -> (r: (usize, usize))
        ensures
            r.1 == if old(self).spec_crossfade_remaining() < frames {
                old(self).spec_crossfade_remaining()
            } else {
                frames as nat
            },
            r.0 == CROSSFADE_FRAMES - old(self).spec_crossfade_remaining(),
            r.0 + r.1 <= CROSSFADE_FRAMES,
            final(self).spec_crossfade_remaining() == old(self).spec_crossfade_remaining() - r.1,
            final(self).spec_state() == old(self).spec_state(),
            final(self).spec_loaded() == old(self).spec_loaded(),
            final(self).spec_at_start() == old(self).spec_at_start(),
    {
        proof {
            use_type_invariant(&*self);
        }
        let remaining = self.crossfade_remaining;
        let count = if remaining < frames {
            remaining
        } else {
            frames
        };
        let start = CROSSFADE_FRAMES - remaining;
        *self = Transport {
            state: self.state,
            at_start: self.at_start,
            loaded: self.loaded,
            crossfade_remaining: remaining - count,
        };
        (start, count)
    }

    /// Stop a playing deck whose position `frame` reached the end of a track
    /// of `total_frames` frames (0 = unknown length, never ends). Returns
    /// whether it stopped; the audio path then puts the play position at 0.
    pub fn stop_at_end(&mut self, total_frames: u64, frame: u64) -> (r: bool)
        ensures
            r == (old(self).spec_state() == PlaybackState::Playing && total_frames > 0 && frame
                >= total_frames),
            r ==> final(self).spec_state() == PlaybackState::Stopped && final(self).spec_at_start(),
            !r ==> final(self).spec_state() == old(self).spec_state() && final(self).spec_at_start()
                == old(self).spec_at_start(),
            final(self).spec_loaded() == old(self).spec_loaded(),
            final(self).spec_crossfade_remaining() == old(self).spec_crossfade_remaining(),
    {
        proof {
            use_type_invariant(&*self);
        }
        if self.state == PlaybackState::Playing && total_frames > 0 && frame >= total_frames {
            *self = Transport {
                state: PlaybackState::Stopped,
                at_start: true,
                loaded: true,
                crossfade_remaining: self.crossfade_remaining,
            };
            true
        } else {
            false
        }
    }
}

/// First frame of the crossfade source when seeking away from `current`.
pub fn crossfade_source_start(current: u64) -> (r: u64)
    ensures
        r == if current >= CROSSFADE_FRAMES {
            current - CROSSFADE_FRAMES
        } else {
            0
        },
{
    current.saturating_sub(CROSSFADE_FRAMES as u64)
}

} // verus!
