//! The poll-driven state machine: it holds the previous and current
//! snapshot, and turns each freshly decoded snapshot into at most one
//! update carrying the elapsed time and an optional milestone event.

use vstd::prelude::*;

use crate::revision::Revision;
use crate::snapshot::{sentinel, GameTime, State};

verus! {

/// The milestone events a timing client can be told about.
#[derive(Clone, Copy, PartialEq, Eq, Structural, Debug)]
pub enum Event {
    NewGame,
    Verdigris,
    Vermilion,
    Victoria,
    Violet,
    Vitellary,
    IntermissionOne,
    IntermissionTwo,
    GameComplete,
    Reset,
}

/// The unit of output per poll: the elapsed time, and the milestone event
/// that fired on this poll, if any.
#[derive(Clone, Copy, PartialEq, Eq, Debug)]
pub struct Update {
    pub time: GameTime,
    pub event: Option<Event>,
}

/// Whether `code` is a `gamestate` under which a run is in progress.
pub open spec fn spec_playing(rev: Revision, code: u32) -> bool {
    rev.playing_states@.contains(code)
}

/// Whether `x` lies in the inclusive range `lo..=hi`.
pub open spec fn in_range(lo: u32, hi: u32, x: u32) -> bool {
    lo <= x && x <= hi
}

/// Whether `(lo, hi)` is one of the split table's ranges.
pub open spec fn is_split_range(lo: u32, hi: u32) -> bool {
    ||| (lo == 3006 && hi == 3011)
    ||| (lo == 3060 && hi == 3065)
    ||| (lo == 3040 && hi == 3045)
    ||| (lo == 4091 && hi == 4099)
    ||| (lo == 3020 && hi == 3025)
    ||| (lo == 3085 && hi == 3087)
    ||| (lo == 3080 && hi == 3082)
    ||| (lo == 3503 && hi == 3509)
}

/// The split table, evaluated in its fixed order: the first rule whose
/// `state` range contains the current code but not the previous one
/// fires. The ranges are mutually disjoint, so at most one rule can
/// contain the current code at all.
pub open spec fn spec_split(cur: u32, prev: u32) -> Option<Event> {
    if in_range(3006, 3011, cur) && !in_range(3006, 3011, prev) {
        Some(Event::Verdigris)
    } else if in_range(3060, 3065, cur) && !in_range(3060, 3065, prev) {
        Some(Event::Vermilion)
    } else if in_range(3040, 3045, cur) && !in_range(3040, 3045, prev) {
        Some(Event::Victoria)
    } else if in_range(4091, 4099, cur) && !in_range(4091, 4099, prev) {
        Some(Event::Violet)
    } else if in_range(3020, 3025, cur) && !in_range(3020, 3025, prev) {
        Some(Event::Vitellary)
    } else if in_range(3085, 3087, cur) && !in_range(3085, 3087, prev) {
        Some(Event::IntermissionOne)
    } else if in_range(3080, 3082, cur) && !in_range(3080, 3082, prev) {
        Some(Event::IntermissionTwo)
    } else if in_range(3503, 3509, cur) && !in_range(3503, 3509, prev) {
        Some(Event::GameComplete)
    } else {
        None
    }
}

/// The `state` code the game sets one polling cycle before it decides
/// where the player actually goes; a milestone seen under it is trusted
/// only in one of two known-good rooms.
pub const AMBIGUOUS_STATE: u32 = 3006;

/// Whether the ambiguous-code suppression applies: the current `state` is
/// the guarded code, and the room is neither of the two rooms in which
/// that code legitimately leads to a milestone.
pub open spec fn spec_suppressed(cur: State) -> bool {
    &&& cur.state == AMBIGUOUS_STATE
    &&& !(cur.room.0 == 115 && cur.room.1 == 100)
    &&& !(cur.room.0 == 113 && cur.room.1 == 102)
}

/// The update one poll produces, given the tracker's (already shifted)
/// previous and current snapshots and the freshly decoded elapsed time.
///
/// Run boundaries come first and short-circuit milestone lookup: entering
/// a playing `gamestate` starts a run (`NewGame`, with the time reset to
/// zero), leaving one abandons it (`Reset`, with the decoded time). Then
/// the ambiguous-code suppression, then the split table.
pub open spec fn spec_step(rev: Revision, prev: State, cur: State, time: GameTime) -> Update {
    if spec_playing(rev, cur.gamestate) && !spec_playing(rev, prev.gamestate) {
        Update { time: GameTime { secs: 0, nanos: 0 }, event: Some(Event::NewGame) }
    } else if !spec_playing(rev, cur.gamestate) && spec_playing(rev, prev.gamestate) {
        Update { time, event: Some(Event::Reset) }
    } else if spec_suppressed(cur) {
        Update { time, event: None }
    } else {
        Update { time, event: spec_split(cur.state, prev.state) }
    }
}

/// How a fresh snapshot shifts the tracker's history: the very first real
/// snapshot seeds both slots, so no transition can fire on the first
/// poll; afterwards the current snapshot becomes the previous one.
pub open spec fn spec_advance(g: Game, s: State) -> Game {
    if g.previous.state == u32::MAX {
        Game { previous: s, current: s }
    } else {
        Game { previous: g.current, current: s }
    }
}

/// The tracker: the previous and current snapshot, both the sentinel
/// until the first poll.
pub struct Game {
    pub previous: State,
    pub current: State,
}

impl Game {
    /// A tracker with no history: both snapshots are the sentinel.
    pub fn new() -> (g: Game)
        ensures
            g.previous == sentinel(),
            g.current == sentinel(),
    {
        Game { previous: State::new(), current: State::new() }
    }

    /// Fold one freshly decoded snapshot into the tracker and produce
    /// this poll's update.
    ///
    /// The caller polls, decodes, and hands the snapshot and its elapsed
    /// time here; a failed poll must simply not call this, which leaves
    /// the tracker's history untouched.
    pub fn update(&mut self, revision: &Revision, state: State, time: GameTime) -> (u: Update)
        ensures
            *final(self) == spec_advance(*old(self), state),
            u == spec_step(*revision, final(self).previous, final(self).current, time),
    {
        if self.previous.state == u32::MAX {
            self.previous = state;
            self.current = state;
        } else {
            self.previous = self.current;
            self.current = state;
        }

        let playing_cur = revision.is_playing_state(self.current.gamestate);
        let playing_prev = revision.is_playing_state(self.previous.gamestate);
        if playing_cur && !playing_prev {
            return Update { time: GameTime::zero(), event: Some(Event::NewGame) };
        }
        if !playing_cur && playing_prev {
            return Update { time, event: Some(Event::Reset) };
        }

        let event: Option<Event> = if self.current.state == AMBIGUOUS_STATE
            && !(self.current.room.0 == 115 && self.current.room.1 == 100)
            && !(self.current.room.0 == 113 && self.current.room.1 == 102) {
            None
        } else {
            find_split(self.current.state, self.previous.state)
        };
        Update { time, event }
    }
}

/// A run boundary is announced exactly at a `gamestate` activity edge:
/// `NewGame` fires if and only if the current snapshot's `gamestate` is a
/// playing code and the previous one's is not, and then the reported time
/// is zero whatever elapsed time was decoded; `Reset` fires if and only
/// if the reverse edge was crossed, and carries the freshly decoded time.
pub proof fn lemma_run_boundary(rev: Revision, prev: State, cur: State, time: GameTime)
    ensures
        (spec_step(rev, prev, cur, time).event == Some(Event::NewGame)) <==> (spec_playing(
            rev,
            cur.gamestate,
        ) && !spec_playing(rev, prev.gamestate)),
        spec_playing(rev, cur.gamestate) && !spec_playing(rev, prev.gamestate) ==> spec_step(
            rev,
            prev,
            cur,
            time,
        ).time.total_nanos() == 0,
        (spec_step(rev, prev, cur, time).event == Some(Event::Reset)) <==> (!spec_playing(
            rev,
            cur.gamestate,
        ) && spec_playing(rev, prev.gamestate)),
        !spec_playing(rev, cur.gamestate) && spec_playing(rev, prev.gamestate) ==> spec_step(
            rev,
            prev,
            cur,
            time,
        ).time == time,
{
}

/// The split table's ranges are mutually disjoint, so milestone firing is
/// edge-triggered: when the previous and current `state` codes already sit
/// in the same rule's range, no rule fires.
pub proof fn lemma_edge_triggered(lo: u32, hi: u32, cur: u32, prev: u32)
    requires
        is_split_range(lo, hi),
        in_range(lo, hi, cur),
        in_range(lo, hi, prev),
    ensures
        spec_split(cur, prev) == None::<Event>,
{
}

/// Lifted to a whole poll: with no activity edge crossed, a poll whose
/// previous and current `state` codes sit in the same rule's range emits
/// no event at all.
pub proof fn lemma_step_edge_triggered(
    rev: Revision,
    prev: State,
    cur: State,
    time: GameTime,
    lo: u32,
    hi: u32,
)
    requires
        spec_playing(rev, cur.gamestate) == spec_playing(rev, prev.gamestate),
        is_split_range(lo, hi),
        in_range(lo, hi, cur.state),
        in_range(lo, hi, prev.state),
    ensures
        spec_step(rev, prev, cur, time).event is None,
{
}

/// The ambiguous-code suppression: with no activity edge crossed, a poll
/// whose current `state` is the guarded code emits nothing when the room
/// is neither known-good room, and is evaluated against the split table
/// as usual when the room is one of the two.
pub proof fn lemma_ambiguous_code(rev: Revision, prev: State, cur: State, time: GameTime)
    requires
        spec_playing(rev, cur.gamestate) == spec_playing(rev, prev.gamestate),
    ensures
        spec_suppressed(cur) ==> spec_step(rev, prev, cur, time).event is None,
        cur.state == AMBIGUOUS_STATE && ((cur.room.0 == 115 && cur.room.1 == 100) || (
        cur.room.0 == 113 && cur.room.1 == 102)) ==> spec_step(rev, prev, cur, time).event
            == spec_split(cur.state, prev.state),
{
}

/// The updates a whole sequence of polls produces, starting from tracker
/// state `g`: each snapshot is folded in as [`Game::update`] does.
pub open spec fn run_from(
    rev: Revision,
    g: Game,
    states: Seq<State>,
    times: Seq<GameTime>,
) -> Seq<Update>
    decreases states.len(),
{
    if states.len() == 0 {
        seq![]
    } else {
        let g1 = spec_advance(g, states[0]);
        seq![spec_step(rev, g1.previous, g1.current, times[0])] + run_from(
            rev,
            g1,
            states.drop_first(),
            times.drop_first(),
        )
    }
}

/// The updates a fresh tracker produces for a sequence of polls.
pub open spec fn spec_run(rev: Revision, states: Seq<State>, times: Seq<GameTime>) -> Seq<
    Update,
> {
    run_from(rev, Game { previous: sentinel(), current: sentinel() }, states, times)
}

/// For a tracker that already holds real snapshots, the `i`-th update of a
/// run compares snapshot `i` against snapshot `i - 1` (against the
/// tracker's current snapshot for the first poll).
proof fn lemma_run_from_index(
    rev: Revision,
    g: Game,
    states: Seq<State>,
    times: Seq<GameTime>,
    i: int,
)
    requires
        g.previous.state != u32::MAX,
        g.current.state != u32::MAX,
        states.len() == times.len(),
        forall|j: int| 0 <= j < states.len() ==> (#[trigger] states[j]).state != u32::MAX,
        0 <= i < states.len(),
    ensures
        run_from(rev, g, states, times)[i] == spec_step(
            rev,
            if i == 0 {
                g.current
            } else {
                states[i - 1]
            },
            states[i],
            times[i],
        ),
    decreases i,
{
    lemma_run_len(rev, g, states, times);
    let g1 = spec_advance(g, states[0]);
    let rest = states.drop_first();
    let rest_t = times.drop_first();
    assert(run_from(rev, g, states, times) == seq![
        spec_step(rev, g1.previous, g1.current, times[0]),
    ] + run_from(rev, g1, rest, rest_t));
    if i > 0 {
        lemma_run_from_index(rev, g1, rest, rest_t, i - 1);
        assert(rest[i - 1] == states[i]);
        if i >= 2 {
            assert(rest[i - 2] == states[i - 1]);
        }
        assert(g1.current == states[0]);
    }
}

/// The `i`-th update of a fresh run compares snapshot `i` against
/// snapshot `i - 1`; the first poll seeds the history, comparing the
/// first snapshot against itself.
pub proof fn lemma_run_characterized(
    rev: Revision,
    states: Seq<State>,
    times: Seq<GameTime>,
    i: int,
)
    requires
        states.len() == times.len(),
        forall|j: int| 0 <= j < states.len() ==> (#[trigger] states[j]).state != u32::MAX,
        0 <= i < states.len(),
    ensures
        spec_run(rev, states, times).len() == states.len(),
        spec_run(rev, states, times)[i] == spec_step(
            rev,
            states[
                if i == 0 {
                    0
                } else {
                    i - 1
                }
            ],
            states[i],
            times[i],
        ),
{
    lemma_run_len(rev, Game { previous: sentinel(), current: sentinel() }, states, times);
    let g0 = Game { previous: sentinel(), current: sentinel() };
    let g1 = spec_advance(g0, states[0]);
    if i > 0 {
        lemma_run_from_index(rev, g1, states.drop_first(), times.drop_first(), i - 1);
    }
}

/// A run yields one update per poll.
proof fn lemma_run_len(rev: Revision, g: Game, states: Seq<State>, times: Seq<GameTime>)
    requires
        states.len() == times.len(),
    ensures
        run_from(rev, g, states, times).len() == states.len(),
    decreases states.len(),
{
    if states.len() > 0 {
        lemma_run_len(rev, spec_advance(g, states[0]), states.drop_first(), times.drop_first());
    }
}

/// Feeding a fresh tracker a sequence of snapshots whose `gamestate`
/// moves from non-playing codes to playing codes at index `k` produces
/// exactly one `NewGame`, at index `k`, and it reports time zero whatever
/// elapsed value was decoded at that instant.
pub proof fn lemma_single_activation(
    rev: Revision,
    states: Seq<State>,
    times: Seq<GameTime>,
    k: int,
)
    requires
        states.len() == times.len(),
        forall|j: int| 0 <= j < states.len() ==> (#[trigger] states[j]).state != u32::MAX,
        1 <= k < states.len(),
        forall|j: int| 0 <= j < k ==> !spec_playing(rev, (#[trigger] states[j]).gamestate),
        forall|j: int|
            k <= j < states.len() ==> spec_playing(rev, (#[trigger] states[j]).gamestate),
    ensures
        forall|i: int|
            0 <= i < states.len() ==> ((#[trigger] spec_run(rev, states, times)[i].event == Some(
                Event::NewGame,
            )) <==> i == k),
        spec_run(rev, states, times)[k].time.total_nanos() == 0,
{
    assert forall|i: int| 0 <= i < states.len() implies ((#[trigger] spec_run(
        rev,
        states,
        times,
    )[i].event == Some(Event::NewGame)) <==> i == k) by {
        lemma_run_characterized(rev, states, times, i);
        let p = if i == 0 {
            0
        } else {
            i - 1
        };
        lemma_run_boundary(rev, states[p], states[i], times[i]);
    }
    lemma_run_characterized(rev, states, times, k);
    lemma_run_boundary(rev, states[k - 1], states[k], times[k]);
}

/// The reverse transition: a sequence whose `gamestate` leaves the
/// playing codes at index `k` produces exactly one `Reset`, at index `k`,
/// carrying the elapsed time decoded on that poll.
pub proof fn lemma_single_deactivation(
    rev: Revision,
    states: Seq<State>,
    times: Seq<GameTime>,
    k: int,
)
    requires
        states.len() == times.len(),
        forall|j: int| 0 <= j < states.len() ==> (#[trigger] states[j]).state != u32::MAX,
        1 <= k < states.len(),
        forall|j: int| 0 <= j < k ==> spec_playing(rev, (#[trigger] states[j]).gamestate),
        forall|j: int|
            k <= j < states.len() ==> !spec_playing(rev, (#[trigger] states[j]).gamestate),
    ensures
        forall|i: int|
            0 <= i < states.len() ==> ((#[trigger] spec_run(rev, states, times)[i].event == Some(
                Event::Reset,
            )) <==> i == k),
        spec_run(rev, states, times)[k].time == times[k],
{
    assert forall|i: int| 0 <= i < states.len() implies ((#[trigger] spec_run(
        rev,
        states,
        times,
    )[i].event == Some(Event::Reset)) <==> i == k) by {
        lemma_run_characterized(rev, states, times, i);
        let p = if i == 0 {
            0
        } else {
            i - 1
        };
        lemma_run_boundary(rev, states[p], states[i], times[i]);
    }
    lemma_run_characterized(rev, states, times, k);
    lemma_run_boundary(rev, states[k - 1], states[k], times[k]);
}

/// The split table in its fixed order, as executable code.
fn find_split(cur: u32, prev: u32) -> (r: Option<Event>)
    ensures
        r == spec_split(cur, prev),
{
    if 3006 <= cur && cur <= 3011 && !(3006 <= prev && prev <= 3011) {
        Some(Event::Verdigris)
    } else if 3060 <= cur && cur <= 3065 && !(3060 <= prev && prev <= 3065) {
        Some(Event::Vermilion)
    } else if 3040 <= cur && cur <= 3045 && !(3040 <= prev && prev <= 3045) {
        Some(Event::Victoria)
    } else if 4091 <= cur && cur <= 4099 && !(4091 <= prev && prev <= 4099) {
        Some(Event::Violet)
    } else if 3020 <= cur && cur <= 3025 && !(3020 <= prev && prev <= 3025) {
        Some(Event::Vitellary)
    } else if 3085 <= cur && cur <= 3087 && !(3085 <= prev && prev <= 3087) {
        Some(Event::IntermissionOne)
    } else if 3080 <= cur && cur <= 3082 && !(3080 <= prev && prev <= 3082) {
        Some(Event::IntermissionTwo)
    } else if 3503 <= cur && cur <= 3509 && !(3503 <= prev && prev <= 3509) {
        Some(Event::GameComplete)
    } else {
        None
    }
}

} // verus!
