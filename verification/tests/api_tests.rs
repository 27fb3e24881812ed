use mars_rover::Direction;
use mars_rover::MarsRover;
use mars_rover::Position;

#[test]
fn direction_deltas_match_the_table() {
    assert_eq!(Direction::North.get_delta(), (0, 1));
    assert_eq!(Direction::East.get_delta(), (1, 0));
    assert_eq!(Direction::South.get_delta(), (0, -1));
    assert_eq!(Direction::West.get_delta(), (-1, 0));
}

#[test]
fn direction_rotations_cycle() {
    assert_eq!(Direction::North.turn_left(), Direction::West);
    assert_eq!(Direction::West.turn_left(), Direction::South);
    assert_eq!(Direction::South.turn_left(), Direction::East);
    assert_eq!(Direction::East.turn_left(), Direction::North);
    assert_eq!(Direction::North.turn_right(), Direction::East);
    assert_eq!(Direction::East.turn_right(), Direction::South);
    assert_eq!(Direction::South.turn_right(), Direction::West);
    assert_eq!(Direction::West.turn_right(), Direction::North);
}

#[test]
fn direction_default_is_north() {
    assert_eq!(Direction::default(), Direction::North);
}

#[test]
fn direction_canonical_letters() {
    assert_eq!(Direction::North.canonical_letter(), "N");
    assert_eq!(Direction::East.canonical_letter(), "E");
    assert_eq!(Direction::South.canonical_letter(), "S");
    assert_eq!(Direction::West.canonical_letter(), "W");
}

#[test]
fn direction_parse_accepts_all_spellings() {
    assert_eq!(Direction::parse("north").unwrap(), Direction::North);
    assert_eq!(Direction::parse("N").unwrap(), Direction::North);
    assert_eq!(Direction::parse("East").unwrap(), Direction::East);
    assert_eq!(Direction::parse("s").unwrap(), Direction::South);
    assert_eq!(Direction::parse("WEST").unwrap(), Direction::West);
}

#[test]
fn direction_parse_rejects_other_text() {
    let err = Direction::parse("up").unwrap_err();
    assert_eq!(err.message(), "Invalid direction 'up'");
}

#[test]
fn position_holds_its_coordinates() {
    let p = Position::new(3, -4);
    assert_eq!(p.x(), 3);
    assert_eq!(p.y(), -4);
}

#[test]
fn rover_accessors_report_state() {
    let mut rover = MarsRover::new("2:3:E").unwrap();
    assert_eq!(rover.position().x(), 2);
    assert_eq!(rover.position().y(), 3);
    assert_eq!(rover.direction(), Direction::East);
    rover.move_forward();
    assert_eq!(rover.position().x(), 3);
    assert_eq!(rover.position().y(), 3);
}
