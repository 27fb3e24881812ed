use mars_rover::MarsRover;

#[test]
fn movement_tests_mars_rover_square_pattern() {
    let mut rover = MarsRover::new("0:0:N").unwrap();
    rover.execute_commands("MMRMMLMMRMMLMMRMM").unwrap();
    assert_eq!(
        rover.to_text(),
        "6:6:E",
        "Rover should complete a square and return to starting position"
    );
}

#[test]
fn movement_tests_mars_rover_return_to_start() {
    let mut rover = MarsRover::new("0:0:N").unwrap();
    rover.execute_commands("MMMMLLMMMM").unwrap();
    assert_eq!(
        rover.to_text(),
        "0:0:S",
        "Rover should return to starting position but face opposite direction"
    );
}

#[test]
fn mars_rover_move_north() {
    let mut rover = MarsRover::new("0:0:N").unwrap();
    rover.move_forward();
    assert_eq!(
        rover.to_text(),
        "0:1:N",
        "State of the rover did not match after moving forward"
    );
}

#[test]
fn mars_rover_move_west() {
    let mut rover = MarsRover::new("0:0:W").unwrap();
    rover.move_forward();
    assert_eq!(
        rover.to_text(),
        "-1:0:W",
        "State of the rover did not match after moving forward"
    );
}

#[test]
fn mars_rover_move_south() {
    let mut rover = MarsRover::new("0:0:S").unwrap();
    rover.move_forward();
    assert_eq!(
        rover.to_text(),
        "0:-1:S",
        "State of the rover did not match after moving forward"
    );
}

#[test]
fn mars_rover_move_east() {
    let mut rover = MarsRover::new("0:0:E").unwrap();
    rover.move_forward();
    assert_eq!(
        rover.to_text(),
        "1:0:E",
        "State of the rover did not match after moving forward"
    );
}

#[test]
fn mars_rover_large_coordinates_positive() {
    let mut rover = MarsRover::new("1000000:1000000:N").unwrap();
    rover.execute_commands("MMMM").unwrap();
    assert_eq!(
        rover.to_text(),
        "1000000:1000004:N",
        "State of the rover did not match with large coordinates"
    );
}

#[test]
fn mars_rover_large_coordinates_negative() {
    let mut rover = MarsRover::new("-1000000:-1000000:S").unwrap();
    rover.execute_commands("MMMM").unwrap();
    assert_eq!(
        rover.to_text(),
        "-1000000:-1000004:S",
        "State of the rover did not match with large coordinates"
    );
}
