//! Parser for CAN network description files in the DBC text format.
//!
//! A description names the messages of a CAN network and, for each message,
//! the signals that its frame carries: where their bits lie, how raw values
//! scale to physical ones, and what single raw values are called. This crate
//! reads such a text into a [`Dbc`]: the list of its [`Message`]s, each with
//! its [`Signal`]s.
//!
//! The text is scanned several times. [`extract`] finds what belongs to whole
//! messages (names, sizes, transmitters, cycle times) and what is said of
//! single signals elsewhere in the text (initial values, value tables).
//! [`signals`] goes through the text line by line and puts every signal line
//! under the message header that came last. [`merge`] joins the findings by
//! message number, and [`entry`] holds the ways in: from a text, or from
//! bytes.
//!
//! The patterns that the scans look for are regular expressions ([`pattern`]);
//! matching them is left to the `regex` crate. Every contract that depends on
//! a match speaks of it through [`pattern::regex_captures`] and
//! [`pattern::regex_captures_iter`], which name what the matcher finds.
//! [`laws`] states what holds of every description that is read.

pub mod entry;
pub mod extract;
pub mod laws;
pub mod merge;
pub mod model;
pub mod pattern;
pub mod signal_table;
pub mod signals;
pub mod table;
pub mod text;

pub use entry::SliceError;
pub use model::{Dbc, Error, Message, MessageID, Signal};
