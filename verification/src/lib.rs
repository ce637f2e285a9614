//! Verified core of a servo controller that receives target positions over a
//! serial link: message types and configuration, the frame reassembly state
//! machine for COBS-delimited frames, and the servo update rule.

pub mod contracts;
pub mod servo;
pub mod frame;
