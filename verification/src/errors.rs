//! System-level error kinds. Business-rule violations are reported as values
//! of this enum, never as panics.

use vstd::prelude::*;

verus! {

/// Failure kinds of the [`crate::system::System`] mutators and queries.
#[derive(Clone, Copy, Debug, PartialEq, Eq, Structural)]
pub enum SysError {
    AlreadyExists,
    DoesntExist,
    CannotUpdate,
    CannotDelete,
}

/// Result of a system-level operation.
pub type SysResult<T> = Result<T, SysError>;

} // verus!
