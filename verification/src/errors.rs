use vstd::prelude::*;

verus! {

/// The error taxonomy of the folder core.
///
/// `NotInitialized`: the shared folder slot holds no snapshot (before
/// `initialize`, or while a reload has taken the snapshot out).
/// `NotFound`: a workspace or view is absent, or the view is in trash.
/// `InvalidInput`: a request that can never succeed, such as an import with
/// neither raw data nor a file path.
/// `Internal`: an unexpected condition, such as a layout kind with no
/// registered content handler.
#[derive(Clone, Copy, Debug, PartialEq, Eq, Structural)]
pub enum FolderError {
    NotInitialized,
    NotFound,
    InvalidInput,
    Internal,
}

/// The error returned when an operation needs a loaded snapshot and the
/// folder slot is empty.
pub fn folder_not_init_error() -> (r: FolderError)
    ensures
        r == FolderError::NotInitialized,
{
    FolderError::NotInitialized
}

} // verus!
