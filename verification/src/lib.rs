//! Capture of log lines for one unit of work at a time.
//!
//! A [`logger::GlobalLogger`] is a sink with one slot. While a session is
//! open on it, every record that passes the severity filter adds one line
//! to the buffer of the session, tagged with the dotted path of the scopes
//! that are open at that moment; closing the session hands the text out.

pub mod laws;
pub mod level;
pub mod line;
pub mod logger;
pub mod path;
