//! Core logic of a four-motor rover controller.
//!
//! Commands arrive over a byte-stuffed framed serial stream, one small
//! JSON object per frame.  Decoded commands are merged field-by-field
//! into a persistent drive state, a safety watchdog forces the vehicle
//! to neutral when commands stop arriving, and a motor layer maps the
//! abstract drive commands onto direction pins and a duty cycle.

pub mod command;
pub mod frame;
pub mod motor;
pub mod parse;
pub mod session;
pub mod units;
pub mod watchdog;
