//! Per-revision layout descriptors for the observed game's state struct,
//! the compiled-in table they are looked up from, and the parser for the
//! cache files the offline mining collaborator produces.

use vstd::prelude::*;

use crate::text::{spec_lines, spec_parse_u32, parse_u32, split_lines, str_eq};

verus! {

/// The byte layout of one revision of the game's state struct: the total
/// struct size, the offset of each field the tracker reads, and the set of
/// `gamestate` codes that mean a run is in progress.
#[derive(Debug)]
pub struct Revision {
    /// The source-control identifier this layout was mined from.
    pub commit_id: String,
    pub game_object_size: usize,
    pub room_x_offset: usize,
    pub room_y_offset: usize,
    pub state_offset: usize,
    pub gamestate_offset: usize,
    pub timer_offset: usize,
    pub playing_states: Vec<u32>,
}

impl Revision {
    /// Every field, at its width, lies inside the struct: four bytes per
    /// plain field, sixteen for the four-counter timer.
    pub open spec fn wf(&self) -> bool {
        &&& self.room_x_offset + 4 <= self.game_object_size
        &&& self.room_y_offset + 4 <= self.game_object_size
        &&& self.state_offset + 4 <= self.game_object_size
        &&& self.gamestate_offset + 4 <= self.game_object_size
        &&& self.timer_offset + 16 <= self.game_object_size
    }

    pub fn game_object_size(&self) -> (n: usize)
        ensures
            n == self.game_object_size,
    {
        self.game_object_size
    }

    /// Whether `state` is a `gamestate` code under which a run is in
    /// progress.
    pub fn is_playing_state(&self, state: u32) -> (r: bool)
        ensures
            r == self.playing_states@.contains(state),
    {
        let mut i: usize = 0;
        while i < self.playing_states.len()
            invariant
                i <= self.playing_states@.len(),
                forall|j: int| 0 <= j < i ==> self.playing_states@[j] != state,
            decreases self.playing_states@.len() - i,
        {
            if self.playing_states[i] == state {
                return true;
            }
            i = i + 1;
        }
        false
    }
}

/// The `gamestate` codes under which a run is in progress, common to every
/// supported revision: the in-game, map, teleporter and the two
/// game-complete modes.
pub open spec fn spec_playing_states() -> Seq<u32> {
    seq![0u32, 4u32, 5u32, 6u32, 7u32]
}

/// The field layout shared by the 2.2-era builds.
pub open spec fn layout_v2_2(rev: Revision) -> bool {
    &&& rev.game_object_size == 21384
    &&& rev.room_x_offset == 44
    &&& rev.room_y_offset == 48
    &&& rev.state_offset == 12
    &&& rev.gamestate_offset == 16
    &&& rev.timer_offset == 100
    &&& rev.playing_states@ =~= spec_playing_states()
}

/// The field layout shared by the 2.3-era builds.
pub open spec fn layout_v2_3(rev: Revision) -> bool {
    &&& rev.game_object_size == 22160
    &&& rev.room_x_offset == 52
    &&& rev.room_y_offset == 56
    &&& rev.state_offset == 12
    &&& rev.gamestate_offset == 20
    &&& rev.timer_offset == 112
    &&& rev.playing_states@ =~= spec_playing_states()
}

/// The field layout shared by the 2.4-era builds and current mainline.
pub open spec fn layout_v2_4(rev: Revision) -> bool {
    &&& rev.game_object_size == 22232
    &&& rev.room_x_offset == 60
    &&& rev.room_y_offset == 64
    &&& rev.state_offset == 16
    &&& rev.gamestate_offset == 24
    &&& rev.timer_offset == 120
    &&& rev.playing_states@ =~= spec_playing_states()
}

/// The identifiers the table answers: release tags, the moving mainline
/// name, and the full commit ids the tagged layouts were mined from.
pub open spec fn known_revision(name: Seq<char>) -> bool {
    ||| name == "2.2"@
    ||| name == "2.3"@
    ||| name == "2.4"@
    ||| name == "master"@
    ||| name == "b5089cdcdbd7b3a58eedee4f6b5bf3d0d1b43b1e"@
    ||| name == "48cddf57a67a90be0b6f6d8a780f766ca15942a7"@
}

/// Which layout each known identifier resolves to.
pub open spec fn rev_layout(name: Seq<char>, rev: Revision) -> bool {
    if name == "2.2"@ {
        layout_v2_2(rev)
    } else if name == "2.3"@ || name == "b5089cdcdbd7b3a58eedee4f6b5bf3d0d1b43b1e"@ {
        layout_v2_3(rev)
    } else {
        layout_v2_4(rev)
    }
}

/// Build the common playing-state list.
fn playing_states_vec() -> (v: Vec<u32>)
    ensures
        v@ =~= spec_playing_states(),
{
    let mut v: Vec<u32> = Vec::new();
    v.push(0);
    v.push(4);
    v.push(5);
    v.push(6);
    v.push(7);
    v
}

impl Revision {
    fn v2_2(commit_id: String) -> (r: Revision)
        ensures
            layout_v2_2(r),
            r.commit_id@ == commit_id@,
            r.wf(),
    {
        Revision {
            commit_id,
            game_object_size: 21384,
            room_x_offset: 44,
            room_y_offset: 48,
            state_offset: 12,
            gamestate_offset: 16,
            timer_offset: 100,
            playing_states: playing_states_vec(),
        }
    }

    fn v2_3(commit_id: String) -> (r: Revision)
        ensures
            layout_v2_3(r),
            r.commit_id@ == commit_id@,
            r.wf(),
    {
        Revision {
            commit_id,
            game_object_size: 22160,
            room_x_offset: 52,
            room_y_offset: 56,
            state_offset: 12,
            gamestate_offset: 20,
            timer_offset: 112,
            playing_states: playing_states_vec(),
        }
    }

    fn v2_4(commit_id: String) -> (r: Revision)
        ensures
            layout_v2_4(r),
            r.commit_id@ == commit_id@,
            r.wf(),
    {
        Revision {
            commit_id,
            game_object_size: 22232,
            room_x_offset: 60,
            room_y_offset: 64,
            state_offset: 16,
            gamestate_offset: 24,
            timer_offset: 120,
            playing_states: playing_states_vec(),
        }
    }

    /// Look a revision up by identifier: a release tag, the moving
    /// mainline name, or a full commit id. Unknown identifiers resolve to
    /// nothing; the caller must refuse to start rather than guess a
    /// layout.
    pub fn get(name: &str) -> (r: Option<Revision>)
        ensures
            r is Some <==> known_revision(name@),
            r is Some ==> r.unwrap().wf(),
            r is Some ==> r.unwrap().commit_id@ == name@,
            r is Some ==> rev_layout(name@, r.unwrap()),
    {
        proof {
            reveal_strlit("2.2");
            reveal_strlit("2.3");
            reveal_strlit("2.4");
            reveal_strlit("master");
            reveal_strlit("b5089cdcdbd7b3a58eedee4f6b5bf3d0d1b43b1e");
            reveal_strlit("48cddf57a67a90be0b6f6d8a780f766ca15942a7");
            assert("2.2"@[2] == '2' && "2.3"@[2] == '3' && "2.4"@[2] == '4');
            assert("2.3"@ != "2.2"@);
            assert("2.4"@ != "2.2"@ && "2.4"@ != "2.3"@);
            assert("master"@ != "2.2"@ && "master"@ != "2.3"@);
            assert("b5089cdcdbd7b3a58eedee4f6b5bf3d0d1b43b1e"@ != "2.2"@);
            assert("2.4"@ != "b5089cdcdbd7b3a58eedee4f6b5bf3d0d1b43b1e"@);
            assert("master"@.len() == 6 && "b5089cdcdbd7b3a58eedee4f6b5bf3d0d1b43b1e"@.len()
                == 40);
            assert("master"@ != "b5089cdcdbd7b3a58eedee4f6b5bf3d0d1b43b1e"@);
            assert("48cddf57a67a90be0b6f6d8a780f766ca15942a7"@ != "2.2"@);
            assert("48cddf57a67a90be0b6f6d8a780f766ca15942a7"@ != "2.3"@);
            assert("48cddf57a67a90be0b6f6d8a780f766ca15942a7"@[0] == '4'
                && "b5089cdcdbd7b3a58eedee4f6b5bf3d0d1b43b1e"@[0] == 'b');
            assert("48cddf57a67a90be0b6f6d8a780f766ca15942a7"@
                != "b5089cdcdbd7b3a58eedee4f6b5bf3d0d1b43b1e"@);
        }
        if str_eq(name, "2.2") {
            Some(Self::v2_2(String::from_str("2.2")))
        } else if str_eq(name, "2.3") {
            Some(Self::v2_3(String::from_str("2.3")))
        } else if str_eq(name, "2.4") {
            Some(Self::v2_4(String::from_str("2.4")))
        } else if str_eq(name, "master") {
            Some(Self::v2_4(String::from_str("master")))
        } else if str_eq(name, "b5089cdcdbd7b3a58eedee4f6b5bf3d0d1b43b1e") {
            Some(Self::v2_3(String::from_str("b5089cdcdbd7b3a58eedee4f6b5bf3d0d1b43b1e")))
        } else if str_eq(name, "48cddf57a67a90be0b6f6d8a780f766ca15942a7") {
            Some(Self::v2_4(String::from_str("48cddf57a67a90be0b6f6d8a780f766ca15942a7")))
        } else {
            None
        }
    }
}

/// Why a cache file was rejected.
#[derive(Clone, Copy, PartialEq, Eq, Structural, Debug)]
pub enum CacheError {
    /// Fewer than the eleven numeric lines the format requires.
    NotEnoughLines,
    /// One of the first eleven lines is not a decimal `u32`.
    BadNumber,
    /// The line after the numbers is not the expected format marker.
    BadIdentifier,
    /// The offsets and size describe a field outside the struct.
    FieldOutOfBounds,
}

/// The marker line that closes a well-formed cache file.
pub open spec fn spec_cache_marker() -> Seq<char> {
    "CACHE VERSION 2"@
}

/// The value of the `k`-th numeric line.
pub open spec fn line_val(lines: Seq<Seq<char>>, k: int) -> int {
    spec_parse_u32(lines[k]).unwrap() as int
}

/// The smallest index at or after `k` (and below eleven) whose line is
/// missing or fails to parse; eleven if all the numeric lines are good.
pub open spec fn first_bad_line(lines: Seq<Seq<char>>, k: int) -> int
    decreases 11 - k,
{
    if k < 0 || k >= 11 {
        11
    } else if k >= lines.len() || !spec_parse_u32(lines[k]).is_some() {
        k
    } else {
        first_bad_line(lines, k + 1)
    }
}

/// The field bounds check on the parsed values: line five is the struct
/// size, lines six to ten the offsets, in the order room x, room y, state,
/// gamestate, timer.
pub open spec fn cache_bounds_ok(lines: Seq<Seq<char>>) -> bool {
    &&& line_val(lines, 6) + 4 <= line_val(lines, 5)
    &&& line_val(lines, 7) + 4 <= line_val(lines, 5)
    &&& line_val(lines, 8) + 4 <= line_val(lines, 5)
    &&& line_val(lines, 9) + 4 <= line_val(lines, 5)
    &&& line_val(lines, 10) + 16 <= line_val(lines, 5)
}

/// A cache file that parses: eleven numeric lines, the marker line, and
/// offsets that lie inside the declared struct size.
pub open spec fn cache_ok(lines: Seq<Seq<char>>) -> bool {
    &&& first_bad_line(lines, 0) == 11
    &&& lines.len() >= 12
    &&& lines[11] == spec_cache_marker()
    &&& cache_bounds_ok(lines)
}

/// The error a rejected cache file draws, checked in file order: the
/// numeric lines first, then the marker, then the bounds.
pub open spec fn spec_cache_error(lines: Seq<Seq<char>>) -> CacheError {
    if first_bad_line(lines, 0) < 11 {
        if first_bad_line(lines, 0) >= lines.len() {
            CacheError::NotEnoughLines
        } else {
            CacheError::BadNumber
        }
    } else if lines.len() < 12 || lines[11] != spec_cache_marker() {
        CacheError::BadIdentifier
    } else {
        CacheError::FieldOutOfBounds
    }
}

/// If the lines up to `k` are all good, the first bad line is at or after
/// `k`.
proof fn lemma_first_bad_line_from(lines: Seq<Seq<char>>, k: int)
    requires
        0 <= k <= 11,
        forall|j: int|
            0 <= j < k ==> j < lines.len() && (#[trigger] spec_parse_u32(lines[j])).is_some(),
    ensures
        first_bad_line(lines, 0) == first_bad_line(lines, k),
    decreases k,
{
    if k > 0 {
        lemma_first_bad_line_from(lines, k - 1);
        assert(spec_parse_u32(lines[k - 1]).is_some());
    }
}

impl Revision {
    /// Parse a mined cache file: five playing-state codes, the struct
    /// size, the five field offsets, and the closing marker line, each on
    /// a line of its own. Rejects files whose offsets fall outside the
    /// declared struct size, so that every descriptor handed out is
    /// well formed.
    pub fn from_cache_contents(commit_id: String, contents: &str) -> (r: Result<
        Revision,
        CacheError,
    >)
        ensures
            r is Ok <==> cache_ok(spec_lines(contents@)),
            r is Ok ==> ({
                let lines = spec_lines(contents@);
                let rev = r.unwrap();
                &&& rev.wf()
                &&& rev.commit_id@ == commit_id@
                &&& rev.playing_states@ =~= seq![
                    line_val(lines, 0) as u32,
                    line_val(lines, 1) as u32,
                    line_val(lines, 2) as u32,
                    line_val(lines, 3) as u32,
                    line_val(lines, 4) as u32,
                ]
                &&& rev.game_object_size == line_val(lines, 5)
                &&& rev.room_x_offset == line_val(lines, 6)
                &&& rev.room_y_offset == line_val(lines, 7)
                &&& rev.state_offset == line_val(lines, 8)
                &&& rev.gamestate_offset == line_val(lines, 9)
                &&& rev.timer_offset == line_val(lines, 10)
            }),
            r is Err ==> r.unwrap_err() == spec_cache_error(spec_lines(contents@)),
    {
        let lines = split_lines(contents);
        let ghost lv = spec_lines(contents@);
        let mut values: Vec<u32> = Vec::new();
        let mut k: usize = 0;
        while k < 11
            invariant
                k <= 11,
                lv == spec_lines(contents@),
                lines@.len() == lv.len(),
                forall|i: int| 0 <= i < lines@.len() ==> #[trigger] lines@[i]@ == lv[i],
                values@.len() == k,
                forall|j: int|
                    0 <= j < k ==> j < lv.len() && (#[trigger] spec_parse_u32(lv[j])).is_some(),
                forall|j: int| 0 <= j < k ==> #[trigger] values@[j] == line_val(lv, j),
            decreases 11 - k,
        {
            if k >= lines.len() {
                proof {
                    lemma_first_bad_line_from(lv, k as int);
                }
                return Err(CacheError::NotEnoughLines);
            }
            match parse_u32(lines[k].as_str()) {
                Some(v) => {
                    values.push(v);
                },
                None => {
                    proof {
                        lemma_first_bad_line_from(lv, k as int);
                    }
                    return Err(CacheError::BadNumber);
                },
            }
            k = k + 1;
        }
        proof {
            lemma_first_bad_line_from(lv, 11);
        }
        if lines.len() < 12 {
            return Err(CacheError::BadIdentifier);
        }
        if !str_eq(lines[11].as_str(), "CACHE VERSION 2") {
            return Err(CacheError::BadIdentifier);
        }
        let size: u64 = values[5] as u64;
        if (values[6] as u64) + 4 > size || (values[7] as u64) + 4 > size || (values[8] as u64) + 4
            > size || (values[9] as u64) + 4 > size || (values[10] as u64) + 16 > size {
            return Err(CacheError::FieldOutOfBounds);
        }
        let mut playing_states: Vec<u32> = Vec::new();
        playing_states.push(values[0]);
        playing_states.push(values[1]);
        playing_states.push(values[2]);
        playing_states.push(values[3]);
        playing_states.push(values[4]);
        Ok(
            Revision {
                commit_id,
                game_object_size: values[5] as usize,
                room_x_offset: values[6] as usize,
                room_y_offset: values[7] as usize,
                state_offset: values[8] as usize,
                gamestate_offset: values[9] as usize,
                timer_offset: values[10] as usize,
                playing_states,
            },
        )
    }
}

} // verus!
