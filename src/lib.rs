//! A recorder for a sensor experiment: it ingests lines from a serial device
//! into a readings stream and, beside it, writes a timeline of activity labels.
//! Both streams carry millisecond timestamps from one wall clock.
//!
//! The library holds the decisions of the recorder: which device lines become
//! records and when the buffer is flushed, the script of the autonomous
//! activity timeline, the text of every persisted line and every on-screen cue,
//! and the naming of session directories. The program around it performs the
//! I/O that these decisions call for.

pub mod text;
pub mod activity;
pub mod timeline;
pub mod plan;
pub mod ingest;
pub mod session;
pub mod cues;
