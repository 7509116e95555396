//! Incremental statement-completion engine for an interactive shell.
//!
//! Input arrives one line at a time.  After each line the caller asks
//! whether the text collected so far forms one syntactically closed
//! statement, or whether more input is needed because a quote, an array
//! literal, a heredoc, a trailing escape or a trailing logical operator
//! is still open.  The decision is incremental: bytes already examined
//! are never re-scanned.

pub mod bytes;
pub mod laws;
pub mod model;
pub mod quotes;
