use mars_rover::MarsRover;

#[test]
fn mars_rover_move_and_turns_left_from_north() {
    let mut rover = MarsRover::new("0:0:N").unwrap();
    rover.move_forward();
    rover.turn_left();
    assert_eq!(
        rover.to_text(),
        "0:1:W",
        "State of the rover did not match after moving forward and turning left"
    );
}

#[test]
fn mars_rover_move_and_turns_left_from_west() {
    let mut rover = MarsRover::new("0:0:W").unwrap();
    rover.move_forward();
    rover.turn_left();
    assert_eq!(
        rover.to_text(),
        "-1:0:S",
        "State of the rover did not match after moving forward and turning left"
    );
}

#[test]
fn mars_rover_move_and_turns_left_from_south() {
    let mut rover = MarsRover::new("0:0:S").unwrap();
    rover.move_forward();
    rover.turn_left();
    assert_eq!(
        rover.to_text(),
        "0:-1:E",
        "State of the rover did not match after moving forward and turning left"
    );
}

#[test]
fn mars_rover_move_and_turns_left_from_east() {
    let mut rover = MarsRover::new("0:0:E").unwrap();
    rover.move_forward();
    rover.turn_left();
    assert_eq!(
        rover.to_text(),
        "1:0:N",
        "State of the rover did not match after moving forward and turning left"
    );
}

#[test]
fn mars_rover_move_and_turns_right_from_north() {
    let mut rover = MarsRover::new("0:0:N").unwrap();
    rover.move_forward();
    rover.turn_right();
    assert_eq!(
        rover.to_text(),
        "0:1:E",
        "State of the rover did not match after moving forward and turning right"
    );
}

#[test]
fn mars_rover_move_and_turns_right_from_east() {
    let mut rover = MarsRover::new("0:0:E").unwrap();
    rover.move_forward();
    rover.turn_right();
    assert_eq!(
        rover.to_text(),
        "1:0:S",
        "State of the rover did not match after moving forward and turning right"
    );
}

#[test]
fn mars_rover_move_and_turns_right_from_south() {
    let mut rover = MarsRover::new("0:0:S").unwrap();
    rover.move_forward();
    rover.turn_right();
    assert_eq!(
        rover.to_text(),
        "0:-1:W",
        "State of the rover did not match after moving forward and turning right"
    );
}

#[test]
fn mars_rover_move_and_turns_right_from_west() {
    let mut rover = MarsRover::new("0:0:W").unwrap();
    rover.move_forward();
    rover.turn_right();
    assert_eq!(
        rover.to_text(),
        "-1:0:N",
        "State of the rover did not match after moving forward and turning right"
    );
}
