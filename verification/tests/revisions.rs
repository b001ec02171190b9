use vitellary::revision::{CacheError, Revision};

#[test]
fn known_identifiers_resolve() {
    for name in [
        "2.2",
        "2.3",
        "2.4",
        "master",
        "b5089cdcdbd7b3a58eedee4f6b5bf3d0d1b43b1e",
        "48cddf57a67a90be0b6f6d8a780f766ca15942a7",
    ] {
        let rev = Revision::get(name).expect(name);
        assert_eq!(rev.commit_id, name);
        // every field fits inside the struct
        assert!(rev.room_x_offset + 4 <= rev.game_object_size);
        assert!(rev.room_y_offset + 4 <= rev.game_object_size);
        assert!(rev.state_offset + 4 <= rev.game_object_size);
        assert!(rev.gamestate_offset + 4 <= rev.game_object_size);
        assert!(rev.timer_offset + 16 <= rev.game_object_size);
    }
}

#[test]
fn unknown_identifier_is_refused() {
    // the one fatal startup error: an unknown revision resolves to nothing,
    // so the caller refuses to start before opening any socket
    assert!(Revision::get("2.1").is_none());
    assert!(Revision::get("").is_none());
    assert!(Revision::get("Master").is_none());
    assert!(Revision::get("48cddf57a67a90be0b6f6d8a780f766ca15942a8").is_none());
}

#[test]
fn game_object_size_getter() {
    let rev = Revision::get("2.2").unwrap();
    assert_eq!(rev.game_object_size(), rev.game_object_size);
}

fn good_cache() -> String {
    // five playing states, the struct size, five offsets, the marker
    "0\n4\n5\n6\n7\n100\n0\n4\n8\n12\n16\nCACHE VERSION 2\n".to_string()
}

#[test]
fn cache_file_parses() {
    let rev = Revision::from_cache_contents("abc123".to_string(), &good_cache()).unwrap();
    assert_eq!(rev.commit_id, "abc123");
    assert_eq!(rev.playing_states, vec![0, 4, 5, 6, 7]);
    assert_eq!(rev.game_object_size, 100);
    assert_eq!(rev.room_x_offset, 0);
    assert_eq!(rev.room_y_offset, 4);
    assert_eq!(rev.state_offset, 8);
    assert_eq!(rev.gamestate_offset, 12);
    assert_eq!(rev.timer_offset, 16);
}

#[test]
fn cache_file_with_crlf_parses() {
    let contents = good_cache().replace('\n', "\r\n");
    let rev = Revision::from_cache_contents("abc123".to_string(), &contents).unwrap();
    assert_eq!(rev.game_object_size, 100);
}

#[test]
fn cache_file_too_short() {
    let r = Revision::from_cache_contents("x".to_string(), "0\n4\n5\n");
    assert_eq!(r.unwrap_err(), CacheError::NotEnoughLines);
}

#[test]
fn cache_file_bad_number() {
    let contents = "0\n4\nfive\n6\n7\n100\n0\n4\n8\n12\n16\nCACHE VERSION 2\n";
    let r = Revision::from_cache_contents("x".to_string(), contents);
    assert_eq!(r.unwrap_err(), CacheError::BadNumber);
    // a number that does not fit in 32 bits is just as bad
    let contents = "0\n4\n4294967296\n6\n7\n100\n0\n4\n8\n12\n16\nCACHE VERSION 2\n";
    let r = Revision::from_cache_contents("x".to_string(), contents);
    assert_eq!(r.unwrap_err(), CacheError::BadNumber);
}

#[test]
fn cache_file_bad_identifier() {
    let contents = "0\n4\n5\n6\n7\n100\n0\n4\n8\n12\n16\nCACHE VERSION 1\n";
    let r = Revision::from_cache_contents("x".to_string(), contents);
    assert_eq!(r.unwrap_err(), CacheError::BadIdentifier);
    // numbers alone, with no marker line at all
    let contents = "0\n4\n5\n6\n7\n100\n0\n4\n8\n12\n16\n";
    let r = Revision::from_cache_contents("x".to_string(), contents);
    assert_eq!(r.unwrap_err(), CacheError::BadIdentifier);
}

#[test]
fn cache_file_field_out_of_bounds() {
    // the timer needs sixteen bytes; at offset 90 of a 100-byte struct it
    // sticks out
    let contents = "0\n4\n5\n6\n7\n100\n0\n4\n8\n12\n90\nCACHE VERSION 2\n";
    let r = Revision::from_cache_contents("x".to_string(), contents);
    assert_eq!(r.unwrap_err(), CacheError::FieldOutOfBounds);
}

#[test]
fn cache_file_boundary_values() {
    // a numeric line at exactly u32::MAX parses
    let contents = "4294967295\n4\n5\n6\n7\n100\n0\n4\n8\n12\n16\nCACHE VERSION 2\n";
    let rev = Revision::from_cache_contents("x".to_string(), contents).unwrap();
    assert_eq!(rev.playing_states[0], u32::MAX);
    // extra lines after the marker are ignored
    let contents = "0\n4\n5\n6\n7\n100\n0\n4\n8\n12\n16\nCACHE VERSION 2\ntrailing\n";
    assert!(Revision::from_cache_contents("x".to_string(), contents).is_ok());
}
