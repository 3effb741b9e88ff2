//! Verified core of a tag-to-command lookup tool.
//!
//! Short aliases ("tags") map to shell command strings.  The library owns the
//! logic of the interactive search session: a cursor-addressable text editor
//! over the query string, a prefix search against the tag repository, a
//! wraparound suggestion list, and the state machine that commits one selected
//! command.  Terminal drawing, file reading and writing, and the clipboard
//! live outside, in the surrounding binary.

pub mod cmd;
pub mod repo;
pub mod text;
