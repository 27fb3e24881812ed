use mars_rover::Axis;
use mars_rover::MarsRover;
use mars_rover::RoverError;

#[test]
fn partial_failure_keeps_prefix_mutations() {
    let mut rover = MarsRover::new("0:0:N").unwrap();
    let result = rover.execute_commands("MMXMM");
    let err = result.unwrap_err();
    assert!(matches!(err, RoverError::InvalidCommand { character: 'X' }));
    assert_eq!(err.message(), "Invalid command: X");
    assert_eq!(rover.to_text(), "0:2:N");
}

#[test]
fn single_invalid_command_leaves_state_unchanged() {
    let mut rover = MarsRover::new("4:-2:E").unwrap();
    let err = rover.command('m').unwrap_err();
    assert!(matches!(err, RoverError::InvalidCommand { character: 'm' }));
    assert_eq!(rover.to_text(), "4:-2:E");
}

#[test]
fn empty_command_sequence_is_noop() {
    let mut rover = MarsRover::new("7:8:W").unwrap();
    rover.execute_commands("").unwrap();
    assert_eq!(rover.to_text(), "7:8:W");
}

#[test]
fn whitespace_variants_are_trimmed() {
    let rover = MarsRover::new("\t 1:2:N \n").unwrap();
    assert_eq!(rover.to_text(), "1:2:N");
}

#[test]
fn empty_text_is_invalid_format() {
    assert!(matches!(MarsRover::new(""), Err(RoverError::InvalidFormat)));
}

#[test]
fn all_whitespace_text_is_invalid_format() {
    assert!(matches!(MarsRover::new("   "), Err(RoverError::InvalidFormat)));
}

#[test]
fn too_many_fields_is_invalid_format() {
    assert!(matches!(MarsRover::new("0:0:0:N"), Err(RoverError::InvalidFormat)));
}

#[test]
fn one_field_is_invalid_format() {
    assert!(matches!(MarsRover::new("5"), Err(RoverError::InvalidFormat)));
}

#[test]
fn empty_fields_fail_on_x_first() {
    let err = MarsRover::new("::").unwrap_err();
    assert!(matches!(err, RoverError::InvalidCoordinate { axis: Axis::X, .. }));
    assert_eq!(err.message(), "Invalid x coordinate ''");
}

#[test]
fn empty_direction_field_is_invalid_direction() {
    let err = MarsRover::new("1:2:").unwrap_err();
    assert!(matches!(err, RoverError::InvalidDirection { .. }));
    assert_eq!(err.message(), "Invalid direction ''");
}

#[test]
fn x_error_carries_offending_text() {
    let err = MarsRover::new("abc:0:N").unwrap_err();
    assert!(matches!(err, RoverError::InvalidCoordinate { axis: Axis::X, .. }));
    assert_eq!(err.message(), "Invalid x coordinate 'abc'");
}

#[test]
fn y_error_carries_offending_text() {
    let err = MarsRover::new("0:1x:N").unwrap_err();
    assert!(matches!(err, RoverError::InvalidCoordinate { axis: Axis::Y, .. }));
    assert_eq!(err.message(), "Invalid y coordinate '1x'");
}

#[test]
fn direction_error_carries_offending_text() {
    let err = MarsRover::new("0:0:Q").unwrap_err();
    assert!(matches!(err, RoverError::InvalidDirection { .. }));
    assert_eq!(err.message(), "Invalid direction 'Q'");
}

#[test]
fn long_direction_spellings_are_accepted() {
    assert_eq!(MarsRover::new("0:0:north").unwrap().to_text(), "0:0:N");
    assert_eq!(MarsRover::new("0:0:EAST").unwrap().to_text(), "0:0:E");
    assert_eq!(MarsRover::new("0:0:SoUtH").unwrap().to_text(), "0:0:S");
    assert_eq!(MarsRover::new("0:0:west").unwrap().to_text(), "0:0:W");
}

#[test]
fn short_direction_spellings_are_accepted() {
    assert_eq!(MarsRover::new("0:0:n").unwrap().to_text(), "0:0:N");
    assert_eq!(MarsRover::new("0:0:e").unwrap().to_text(), "0:0:E");
    assert_eq!(MarsRover::new("0:0:s").unwrap().to_text(), "0:0:S");
    assert_eq!(MarsRover::new("0:0:w").unwrap().to_text(), "0:0:W");
}

#[test]
fn near_miss_direction_spellings_are_rejected() {
    assert!(MarsRover::new("0:0:nort").is_err());
    assert!(MarsRover::new("0:0:norths").is_err());
    assert!(MarsRover::new("0:0:ne").is_err());
}

#[test]
fn explicit_plus_sign_is_accepted() {
    let rover = MarsRover::new("+5:-7:E").unwrap();
    assert_eq!(rover.to_text(), "5:-7:E");
}

#[test]
fn leading_zeros_are_canonicalized() {
    let rover = MarsRover::new("007:-000:N").unwrap();
    assert_eq!(rover.to_text(), "7:0:N");
}

#[test]
fn extreme_coordinates_round_trip() {
    let rover = MarsRover::new("2147483647:-2147483648:N").unwrap();
    assert_eq!(rover.to_text(), "2147483647:-2147483648:N");
}

#[test]
fn out_of_range_x_is_rejected() {
    let err = MarsRover::new("2147483648:0:N").unwrap_err();
    assert!(matches!(err, RoverError::InvalidCoordinate { axis: Axis::X, .. }));
}

#[test]
fn out_of_range_y_is_rejected() {
    let err = MarsRover::new("0:-2147483649:N").unwrap_err();
    assert!(matches!(err, RoverError::InvalidCoordinate { axis: Axis::Y, .. }));
}

#[test]
fn very_long_digit_string_is_rejected() {
    let err = MarsRover::new("99999999999999999999999999:0:N").unwrap_err();
    assert!(matches!(err, RoverError::InvalidCoordinate { axis: Axis::X, .. }));
}

#[test]
fn bare_sign_is_rejected() {
    let err = MarsRover::new("-:0:N").unwrap_err();
    assert!(matches!(err, RoverError::InvalidCoordinate { axis: Axis::X, .. }));
}

#[test]
fn inner_whitespace_is_not_trimmed() {
    assert!(MarsRover::new("1 :2:N").is_err());
    assert!(MarsRover::new("1: 2:N").is_err());
}
