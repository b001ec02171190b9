//! Decoded point-in-time views of the observed process's state struct, and
//! the decoder that produces them from a raw byte buffer.

use vstd::prelude::*;
use vstd::bytes::{spec_u32_from_le_bytes, u32_from_le_bytes};
use vstd::slice::slice_subrange;

use crate::revision::Revision;

verus! {

/// The game's in-game timer: four consecutive 32-bit counters.
#[derive(Clone, Copy, PartialEq, Eq, Structural, Debug)]
pub struct Timer {
    pub frames: u32,
    pub seconds: u32,
    pub minutes: u32,
    pub hours: u32,
}

/// The game runs its simulation at a fixed thirty frames per second.
pub const FRAMES_PER_SEC: u32 = 30;

/// The elapsed time a timer denotes, in nanoseconds: hours, minutes and
/// seconds as whole seconds, plus one thirtieth of a second per frame.
/// Multiplying before dividing keeps the remainder exact wherever a whole
/// number of nanoseconds can express it: fifteen frames are exactly half a
/// second, three frames exactly a tenth.
pub open spec fn timer_nanos(t: Timer) -> int {
    (t.hours * 3600 + t.minutes * 60 + t.seconds) * 1_000_000_000 + (t.frames * 1_000_000_000) / (
    FRAMES_PER_SEC as int)
}

/// An elapsed time: whole seconds and a sub-second remainder in
/// nanoseconds.
#[derive(Clone, Copy, PartialEq, Eq, Structural, Debug)]
pub struct GameTime {
    pub secs: u64,
    pub nanos: u32,
}

impl GameTime {
    /// The remainder stays below one second.
    pub open spec fn wf(&self) -> bool {
        self.nanos < 1_000_000_000
    }

    /// The whole time in nanoseconds.
    pub open spec fn total_nanos(&self) -> int {
        self.secs * 1_000_000_000 + self.nanos
    }

    pub fn zero() -> (t: GameTime)
        ensures
            t.wf(),
            t.secs == 0,
            t.nanos == 0,
            t.total_nanos() == 0,
    {
        GameTime { secs: 0, nanos: 0 }
    }

    /// Convert a decoded timer into an elapsed time, carrying whole
    /// seconds of frame time into the seconds part.
    pub fn from_timer(timer: &Timer) -> (t: GameTime)
        ensures
            t.wf(),
            t.total_nanos() == timer_nanos(*timer),
    {
        let whole: u64 = (timer.hours as u64) * 3600 + (timer.minutes as u64) * 60
            + (timer.seconds as u64);
        proof {
            assert((timer.frames as u64) * 1_000_000_000u64 <= 4294967295u64
                * 1_000_000_000u64) by (nonlinear_arith)
                requires
                    timer.frames as u64 <= 4294967295u64,
            ;
        }
        let frame_nanos: u64 = (timer.frames as u64) * 1_000_000_000 / (FRAMES_PER_SEC as u64);
        let secs: u64 = whole + frame_nanos / 1_000_000_000;
        let nanos: u32 = (frame_nanos % 1_000_000_000) as u32;
        proof {
            vstd::arithmetic::div_mod::lemma_fundamental_div_mod(
                frame_nanos as int,
                1_000_000_000,
            );
        }
        GameTime { secs, nanos }
    }
}

/// A decoded snapshot of the fields the tracker cares about: the room the
/// player is in, and the two state codes driving milestone detection.
///
/// The value `u32::MAX` in `state` (and, by construction, in the other
/// fields) is the sentinel for "no snapshot has been decoded yet"; see
/// [`State::new`]. Real snapshots decoded from the process never carry it.
#[derive(Clone, Copy, PartialEq, Eq, Debug)]
pub struct State {
    pub room: (u32, u32),
    pub gamestate: u32,
    pub state: u32,
}

/// The sentinel snapshot standing for "no history yet".
pub open spec fn sentinel() -> State {
    State { room: (u32::MAX, u32::MAX), gamestate: u32::MAX, state: u32::MAX }
}

impl State {
    /// The sentinel "uninitialized" snapshot: all fields `u32::MAX`.
    pub fn new() -> (s: State)
        ensures
            s == sentinel(),
    {
        State { room: (u32::MAX, u32::MAX), gamestate: u32::MAX, state: u32::MAX }
    }
}

/// The 32-bit little-endian integer at byte offset `off` of `bytes`.
pub open spec fn spec_u32_at(bytes: Seq<u8>, off: int) -> u32 {
    spec_u32_from_le_bytes(bytes.subrange(off, off + 4))
}

/// Read the 32-bit little-endian integer at byte offset `off`.
fn read_u32_at(bytes: &[u8], off: usize) -> (x: u32)
    requires
        off + 4 <= bytes@.len(),
        bytes@.len() <= usize::MAX,
    ensures
        x == spec_u32_at(bytes@, off as int),
{
    let part = slice_subrange(bytes, off, off + 4);
    u32_from_le_bytes(part)
}

/// The five logical fields of the game's state struct, decoded.
#[derive(Clone, Copy, PartialEq, Eq, Structural, Debug)]
pub struct GameObject {
    pub room_x: u32,
    pub room_y: u32,
    pub state: u32,
    pub gamestate: u32,
    pub timer: Timer,
}

/// What it means for `g` to be the decoding of `bytes` under `rev`: each
/// field is the little-endian 32-bit integer at its configured offset, and
/// the timer's four counters sit consecutively at the timer offset.
pub open spec fn decodes_to(rev: Revision, bytes: Seq<u8>, g: GameObject) -> bool {
    &&& g.room_x == spec_u32_at(bytes, rev.room_x_offset as int)
    &&& g.room_y == spec_u32_at(bytes, rev.room_y_offset as int)
    &&& g.state == spec_u32_at(bytes, rev.state_offset as int)
    &&& g.gamestate == spec_u32_at(bytes, rev.gamestate_offset as int)
    &&& g.timer.frames == spec_u32_at(bytes, rev.timer_offset as int)
    &&& g.timer.seconds == spec_u32_at(bytes, rev.timer_offset + 4)
    &&& g.timer.minutes == spec_u32_at(bytes, rev.timer_offset + 8)
    &&& g.timer.hours == spec_u32_at(bytes, rev.timer_offset + 12)
}

impl GameObject {
    /// Decode the game's state struct from a raw copy of its bytes.
    ///
    /// The buffer must be exactly the revision's struct size: a mismatch
    /// is a revision/process integration defect, and callers fail loudly
    /// before calling rather than decode garbage.
    pub fn from_bytes(revision: &Revision, bytes: &[u8]) -> (g: GameObject)
        requires
            revision.wf(),
            bytes@.len() == revision.game_object_size,
        ensures
            decodes_to(*revision, bytes@, g),
    {
        GameObject {
            room_x: read_u32_at(bytes, revision.room_x_offset),
            room_y: read_u32_at(bytes, revision.room_y_offset),
            state: read_u32_at(bytes, revision.state_offset),
            gamestate: read_u32_at(bytes, revision.gamestate_offset),
            timer: Timer {
                frames: read_u32_at(bytes, revision.timer_offset),
                seconds: read_u32_at(bytes, revision.timer_offset + 4),
                minutes: read_u32_at(bytes, revision.timer_offset + 8),
                hours: read_u32_at(bytes, revision.timer_offset + 12),
            },
        }
    }

    /// Split a decoded object into the tracker's snapshot and the elapsed
    /// time its timer denotes.
    pub fn into_state(self) -> (r: (State, GameTime))
        ensures
            r.0.room.0 == self.room_x,
            r.0.room.1 == self.room_y,
            r.0.gamestate == self.gamestate,
            r.0.state == self.state,
            r.1.wf(),
            r.1.total_nanos() == timer_nanos(self.timer),
    {
        (
            State {
                room: (self.room_x, self.room_y),
                gamestate: self.gamestate,
                state: self.state,
            },
            GameTime::from_timer(&self.timer),
        )
    }
}

/// Decoding is deterministic: a buffer and a descriptor determine the
/// decoded object; re-decoding identical bytes yields an identical
/// snapshot.
pub proof fn lemma_decode_deterministic(
    rev: Revision,
    bytes: Seq<u8>,
    g1: GameObject,
    g2: GameObject,
)
    requires
        decodes_to(rev, bytes, g1),
        decodes_to(rev, bytes, g2),
    ensures
        g1 == g2,
{
}

} // verus!
