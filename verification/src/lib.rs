//! GPS time reconciliation: decode NMEA sentences from a GPS receiver into an
//! absolute UTC timestamp, select which sentence to trust, and compensate the
//! chosen timestamp for the latency between reception and application.

pub mod compensator;
pub mod datetime;
pub mod decoder;
pub mod driver;
pub mod selector;
