//! Reading a development-container configuration.
//!
//! The configuration itself is produced by an external command-line tool;
//! this crate holds the logic around that call: deciding the command line,
//! decoding the tool's captured output, and scrubbing the known diagnostic
//! noise out of the decoded text. The caller performs the path probe and the
//! process launch and hands the results in as plain values.

mod chars;
mod errors;
mod filter;
mod invoke;
mod output;

pub use errors::Error;
pub use invoke::executable_name;
pub use invoke::plan_invocation;
pub use invoke::PathStatus;
pub use filter::is_noise_line;
pub use filter::keeps_char;
pub use filter::kept_line;
pub use filter::lemma_scrub_idempotent;
pub use filter::lemma_scrub_keeps_quiet_text;
pub use filter::no_noise_lines;
pub use filter::no_noise_rest;
pub use filter::remove_node_stuff;
pub use filter::scrub;
pub use filter::scrub_rest;
pub use output::clean_text;
pub use output::cleaned;
pub use output::is_space;
pub use output::process_output;
pub use output::trim_back;
pub use output::trim_front;
pub use output::trimmed;
