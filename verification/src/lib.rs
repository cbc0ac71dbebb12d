//! Verified core of the robot soccer stack: the simulator's game rules and
//! the motor-controller firmware's integer logic.

pub mod sensor;
pub mod text;
pub mod keyed;
pub mod game;
pub mod state;
pub mod field;
pub mod motor;
pub mod link;
