//! Auditing how recently the files of a directory tree were read.
//!
//! The library holds the decisions of such an audit and proves them; it never
//! touches the disk itself. Whoever drives it reads directories and file
//! metadata and hands over what was seen:
//!
//! * [`walker::Walker`] decides, one step of reading at a time, which
//!   directories are read and which paths are reported;
//! * [`tree`] says what a walk of a whole directory tree reports, and proves
//!   that the walker reports exactly that;
//! * [`access_time`] turns what the metadata of a file said into whole seconds
//!   since the Unix epoch;
//! * [`report`] renders the line that is printed for a file.

pub mod access_time;
pub mod error;
pub mod report;
pub mod tree;
pub mod walker;
