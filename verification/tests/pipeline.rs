use vitellary::protocol::render_update;
use vitellary::revision::{CacheError, Revision};
use vitellary::snapshot::GameObject;
use vitellary::tracker::Game;

fn put_u32(buf: &mut [u8], off: usize, v: u32) {
    buf[off..off + 4].copy_from_slice(&v.to_le_bytes());
}

/// Raw bytes for one poll, laid out for the given revision.
fn poll_bytes(
    rev: &Revision,
    room: (u32, u32),
    gamestate: u32,
    state: u32,
    timer: [u32; 4],
) -> Vec<u8> {
    let mut buf = vec![0u8; rev.game_object_size()];
    put_u32(&mut buf, rev.room_x_offset, room.0);
    put_u32(&mut buf, rev.room_y_offset, room.1);
    put_u32(&mut buf, rev.state_offset, state);
    put_u32(&mut buf, rev.gamestate_offset, gamestate);
    for (i, v) in timer.iter().enumerate() {
        put_u32(&mut buf, rev.timer_offset + 4 * i, *v);
    }
    buf
}

#[test]
fn bytes_to_messages_whole_run() {
    let rev = Revision::get("2.3").unwrap();
    let mut game = Game::new();
    let polls = [
        // on the menu: gamestate 1 is not a playing code
        poll_bytes(&rev, (0, 0), 1, 0, [0, 0, 0, 0]),
        // the run starts
        poll_bytes(&rev, (0, 0), 0, 0, [0, 1, 0, 0]),
        // a milestone range is entered at 1:05 and 15 frames, half a second
        poll_bytes(&rev, (0, 0), 0, 3061, [15, 5, 1, 0]),
        // back to the menu: the run is abandoned at 1:06
        poll_bytes(&rev, (0, 0), 1, 3061, [0, 6, 1, 0]),
    ];
    let mut messages: Vec<String> = Vec::new();
    for buf in &polls {
        assert_eq!(buf.len(), rev.game_object_size());
        let (state, time) = GameObject::from_bytes(&rev, buf).into_state();
        let update = game.update(&rev, state, time);
        let (time_msg, event_msg) = render_update(&update);
        messages.push(time_msg);
        if let Some(event_msg) = event_msg {
            messages.push(event_msg);
        }
    }
    assert_eq!(
        messages,
        vec![
            "setgametime 0.00",
            "setgametime 0.00",
            "start",
            "setgametime 65.50",
            "split",
            "setgametime 66.00",
            "reset",
        ]
    );
}

#[test]
fn empty_cache_file_is_rejected() {
    let r = Revision::from_cache_contents("x".to_string(), "");
    assert_eq!(r.unwrap_err(), CacheError::NotEnoughLines);
}
