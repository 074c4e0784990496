//! Smoothed signal strength of proximity beacons.
//!
//! Readings arrive in batches.  Each reading is folded into the running
//! average that [`diff_map`] keeps for its beacon and reporting device, by
//! the rule in [`smoothing`]; an aggregate that rests on enough readings
//! yields a calibration event ([`publication`]).  [`program_logic`] holds the
//! steps that handle one reading and one batch, and [`aggregation`] states
//! what holds of the table whatever is folded in.
pub mod aggregation;
pub mod data_types;
pub mod decimal;
pub mod diff_map;
pub mod program_logic;
pub mod publication;
pub mod smoothing;
