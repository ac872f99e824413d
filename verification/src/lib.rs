//! Decimal text for unsigned 64-bit integers, written backward into a fixed
//! buffer, together with the harness that measures it against the standard
//! formatter over every digit-length class.

pub mod baseline;
pub mod bench;
pub mod class;
pub mod clock;
pub mod decimal;
pub mod display;
pub mod sampling;
pub mod sink;
pub mod stats;
