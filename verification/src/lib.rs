//! Verified core of a batch media-file renamer: path checks, scan selection,
//! collision handling, backup planning, timestamp offsets, and the decision
//! logic of the rename and undo runs.

pub mod backup;
pub mod conflict;
pub mod dates;
pub mod models;
pub mod offset;
pub mod path;
pub mod rename;
pub mod replay;
pub mod scan;
pub mod text;
pub mod undo;
