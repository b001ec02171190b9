use vitellary::revision::Revision;
use vitellary::snapshot::{GameTime, State};
use vitellary::tracker::{Event, Game, Update};

fn rev() -> Revision {
    Revision::get("master").unwrap()
}

fn snap(room: (u32, u32), gamestate: u32, state: u32) -> State {
    State { room, gamestate, state }
}

fn secs(n: u64) -> GameTime {
    GameTime { secs: n, nanos: 0 }
}

#[test]
fn first_poll_seeds_history_without_event() {
    let rev = rev();
    let mut game = Game::new();
    // first real snapshot is already in a playing gamestate: both slots are
    // seeded with it, so no transition can fire
    let u = game.update(&rev, snap((1, 1), 0, 100), secs(7));
    assert_eq!(u.event, None);
    assert_eq!(u.time, secs(7));
}

#[test]
fn activation_fires_exactly_one_new_game_with_zero_time() {
    let rev = rev();
    let mut game = Game::new();
    // gamestate 1 is not a playing code; 0 is
    let polls = [
        (snap((1, 1), 1, 0), secs(3)),
        (snap((1, 1), 1, 0), secs(4)),
        (snap((1, 1), 0, 0), secs(5)),
        (snap((1, 1), 0, 0), secs(6)),
    ];
    let updates: Vec<Update> =
        polls.iter().map(|(s, t)| game.update(&rev, *s, *t)).collect();
    let new_games: Vec<usize> = updates
        .iter()
        .enumerate()
        .filter(|(_, u)| u.event == Some(Event::NewGame))
        .map(|(i, _)| i)
        .collect();
    assert_eq!(new_games, vec![2]);
    // the decoded elapsed time at that instant was 5 s, but NewGame resets it
    assert_eq!(updates[2].time, GameTime { secs: 0, nanos: 0 });
}

#[test]
fn deactivation_fires_exactly_one_reset_with_decoded_time() {
    let rev = rev();
    let mut game = Game::new();
    let polls = [
        (snap((1, 1), 0, 0), secs(3)),
        (snap((1, 1), 0, 0), secs(4)),
        (snap((1, 1), 1, 0), secs(5)),
        (snap((1, 1), 1, 0), secs(6)),
    ];
    let updates: Vec<Update> =
        polls.iter().map(|(s, t)| game.update(&rev, *s, *t)).collect();
    let resets: Vec<usize> = updates
        .iter()
        .enumerate()
        .filter(|(_, u)| u.event == Some(Event::Reset))
        .map(|(i, _)| i)
        .collect();
    assert_eq!(resets, vec![2]);
    assert_eq!(updates[2].time, secs(5));
}

#[test]
fn milestone_fires_on_range_entry() {
    let rev = rev();
    let mut game = Game::new();
    game.update(&rev, snap((1, 1), 0, 100), secs(1));
    let u = game.update(&rev, snap((1, 1), 0, 3042), secs(2));
    assert_eq!(u.event, Some(Event::Victoria));
    assert_eq!(u.time, secs(2));
}

#[test]
fn milestone_is_edge_triggered() {
    let rev = rev();
    let mut game = Game::new();
    game.update(&rev, snap((1, 1), 0, 3042), secs(1));
    // both previous and current state sit inside Victoria's range: no edge
    let u = game.update(&rev, snap((1, 1), 0, 3043), secs(2));
    assert_eq!(u.event, None);
}

#[test]
fn ambiguous_code_suppressed_in_wrong_room() {
    let rev = rev();
    let mut game = Game::new();
    game.update(&rev, snap((50, 50), 0, 100), secs(1));
    // state 3006 outside both known-good rooms: suppressed
    let u = game.update(&rev, snap((50, 50), 0, 3006), secs(2));
    assert_eq!(u.event, None);
}

#[test]
fn ambiguous_code_allowed_in_known_rooms() {
    let rev = rev();
    let mut game = Game::new();
    game.update(&rev, snap((115, 100), 0, 100), secs(1));
    let u = game.update(&rev, snap((115, 100), 0, 3006), secs(2));
    assert_eq!(u.event, Some(Event::Verdigris));

    let mut game = Game::new();
    game.update(&rev, snap((113, 102), 0, 100), secs(1));
    let u = game.update(&rev, snap((113, 102), 0, 3006), secs(2));
    assert_eq!(u.event, Some(Event::Verdigris));
}

#[test]
fn deeper_code_in_guarded_range_not_suppressed() {
    let rev = rev();
    let mut game = Game::new();
    game.update(&rev, snap((50, 50), 0, 100), secs(1));
    // 3007 is in Verdigris's range but is not the guarded code
    let u = game.update(&rev, snap((50, 50), 0, 3007), secs(2));
    assert_eq!(u.event, Some(Event::Verdigris));
}

#[test]
fn run_boundary_shortcircuits_milestones() {
    let rev = rev();
    let mut game = Game::new();
    game.update(&rev, snap((1, 1), 1, 100), secs(1));
    // activation and a milestone-range entry on the same poll: only NewGame
    let u = game.update(&rev, snap((1, 1), 0, 3042), secs(2));
    assert_eq!(u.event, Some(Event::NewGame));
    assert_eq!(u.time, GameTime { secs: 0, nanos: 0 });
}

#[test]
fn all_split_ranges_fire_their_events() {
    let rev = rev();
    let cases = [
        (3006, Event::Verdigris),
        (3060, Event::Vermilion),
        (3040, Event::Victoria),
        (4091, Event::Violet),
        (3020, Event::Vitellary),
        (3085, Event::IntermissionOne),
        (3080, Event::IntermissionTwo),
        (3503, Event::GameComplete),
    ];
    for (code, expected) in cases {
        let mut game = Game::new();
        // room (115, 100) keeps the 3006 guard out of the way
        game.update(&rev, snap((115, 100), 0, 0), secs(1));
        let u = game.update(&rev, snap((115, 100), 0, code), secs(2));
        assert_eq!(u.event, Some(expected), "state code {code}");
    }
}

#[test]
fn failed_poll_leaves_history_untouched() {
    let rev = rev();
    let mut game = Game::new();
    game.update(&rev, snap((1, 1), 1, 0), secs(1));
    // a failed poll simply does not call update; the activation still fires
    // on the next successful poll
    let u = game.update(&rev, snap((1, 1), 0, 0), secs(9));
    assert_eq!(u.event, Some(Event::NewGame));
}

#[test]
fn is_playing_state_matches_table() {
    let rev = rev();
    for code in [0u32, 4, 5, 6, 7] {
        assert!(rev.is_playing_state(code));
    }
    for code in [1u32, 2, 3, 8, 100, u32::MAX] {
        assert!(!rev.is_playing_state(code));
    }
}
