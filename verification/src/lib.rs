//! Command/response correlation layer for the PMTK protocol spoken by MTK GPS
//! receivers over a serial line.
//!
//! The crate covers the pure half of every exchange: computing the XOR
//! checksum of a sentence body, framing a command as `$BODY*HH\r\n`,
//! validating the checksum of an incoming line, scanning a bounded number of
//! lines for an acknowledgement (`$PMTK001`) or a generic reply (`$PMTK...`),
//! and mapping the comma-separated fields of a reply into typed results.
//! Reading and writing the serial port itself is left to the caller, who
//! feeds received lines into the correlators one at a time or as a batch.

pub mod checksum;
pub mod commands;
pub mod correlate;
pub mod replies;
pub mod text;

pub use checksum::{add_checksum, checksum_of, is_valid_checksum};
pub use correlate::{correlate_ack, correlate_reply, Pmtk001Ack};
pub use replies::{DgpsMode, EpoData, NmeaOutput, Sbas, SbasMode};
