//! Scans a byte buffer for runs of printable text, like the classic
//! `strings` tool, with a twist: each printable character may have its
//! letter case flipped, as directed by a per-character flip decision.
//!
//! The pipeline decodes the buffer under a selected encoding, classifies
//! each decoded character as printable or not, accumulates printable runs,
//! applies the case transform character by character, and emits every run
//! that is strictly longer than the configured minimum length, optionally
//! prefixed with a lowercase-hexadecimal offset.

pub mod classify;
pub mod decode;
pub mod laws;
pub mod options;
pub mod pipeline;
pub mod scan;

pub use classify::is_ascii_printable;
pub use decode::ScanItem;
pub use options::Encoding;
pub use options::Options;
pub use options::StringsError;
pub use pipeline::find_strings_ascii;
pub use pipeline::find_strings_utf16;
