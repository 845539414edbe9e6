//! Editor-integration core of a source formatter: position translation,
//! incremental document patching, workspace folder bookkeeping and the
//! conversion of a line diff into editor text edits.

pub mod position;
pub mod patch;
pub mod lines;
pub mod diff;
pub mod format;
pub mod folders;
pub mod session;
