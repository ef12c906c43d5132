//! Error types of the counter store.

use vstd::prelude::*;

verus! {

/// A failure of the underlying storage engine.
#[derive(Clone, Copy, Debug, PartialEq, Eq, Structural)]
pub enum StorageError {
    /// The database file could not be opened or created, or its schema
    /// could not be set up.
    Unopenable,
    /// A writer held the database lock for longer than the busy timeout.
    Busy,
    /// Any other storage failure.
    Failed,
}

/// A failure of inserting a new counter row.
#[derive(Clone, Copy, Debug, PartialEq, Eq, Structural)]
pub enum InsertError {
    /// A counter of that name already exists.
    AlreadyExists,
    /// The underlying storage failed.
    Storage(StorageError),
}

/// A failure of reading a caller-supplied numeric argument.
#[derive(Clone, Copy, Debug, PartialEq, Eq, Structural)]
pub enum ParseError {
    /// The text is not an optional sign followed by one or more digits.
    Malformed,
    /// The text is a well-formed decimal but its value does not fit a
    /// signed 64-bit integer.
    OutOfRange,
}

/// A failure of rendering a counter's template.
#[derive(Clone, Copy, Debug, PartialEq, Eq, Structural)]
pub enum RenderError {
    /// The named counter does not exist.
    UnknownCounter,
    /// The chain of template references revisits a counter that is
    /// already being rendered.
    CycleDetected,
    /// The underlying storage failed.
    Storage(StorageError),
}

} // verus!
