use vstd::prelude::*;
use vstd::string::StringExecFns;

verus! {

/// The coordinate axis a parse failure refers to.
#[derive(Clone, Copy, Debug, PartialEq, Eq, Structural)]
pub enum Axis {
    X,
    Y,
}

/// The recoverable failures this library reports. Every error is returned to
/// the caller as a value; nothing panics or aborts.
#[derive(Debug)]
pub enum RoverError {
    /// The initial-state text does not split into exactly three `:`-delimited
    /// fields.
    InvalidFormat,
    /// A coordinate field is not a valid signed integer in range.
    InvalidCoordinate { axis: Axis, text: String },
    /// The direction field matches no recognized spelling.
    InvalidDirection { text: String },
    /// A command character outside M, L, R was supplied.
    InvalidCommand { character: char },
}

/// The human-readable rendering of an error.
pub open spec fn spec_message(e: &RoverError) -> Seq<char> {
    match e {
        RoverError::InvalidFormat => "Invalid initial state"@,
        RoverError::InvalidCoordinate { axis, text } => {
            if axis == Axis::X {
                "Invalid x coordinate '"@ + text@ + "'"@
            } else {
                "Invalid y coordinate '"@ + text@ + "'"@
            }
        },
        RoverError::InvalidDirection { text } => "Invalid direction '"@ + text@ + "'"@,
        RoverError::InvalidCommand { character } => "Invalid command: "@ + seq![*character],
    }
}

/// Relies on String::push: appends exactly the one given character at the
/// end of the string.
#[verifier::external_body]
fn push_char(s: &mut String, c: char)
    ensures
        final(s)@ == old(s)@ + seq![c],
{
    s.push(c);
}

impl RoverError {
    /// Renders the error as a human-readable message.
    pub fn message(&self) -> (m: String)
        ensures
            m@ == spec_message(self),
    {
        match self {
            RoverError::InvalidFormat => String::from_str("Invalid initial state"),
            RoverError::InvalidCoordinate { axis, text } => {
                let mut m = match axis {
                    Axis::X => String::from_str("Invalid x coordinate '"),
                    Axis::Y => String::from_str("Invalid y coordinate '"),
                };
                m.append(text.as_str());
                m.append("'");
                m
            },
            RoverError::InvalidDirection { text } => {
                let mut m = String::from_str("Invalid direction '");
                m.append(text.as_str());
                m.append("'");
                m
            },
            RoverError::InvalidCommand { character } => {
                let mut m = String::from_str("Invalid command: ");
                push_char(&mut m, *character);
                m
            },
        }
    }
}

} // verus!
