pub mod direction;
pub mod errors;
pub mod position;
pub mod rover;
pub mod text;

pub use direction::Direction;
pub use errors::Axis;
pub use errors::RoverError;
pub use position::Position;
pub use rover::MarsRover;
