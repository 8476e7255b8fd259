use vstd::prelude::*;

use crate::errors::AppError;

verus! {

/// Storage of named byte blobs under a directory. The server reads files for
/// `GET /files/<name>` and writes them for `POST /files/<name>`; what the
/// store answers is up to the implementation.
pub trait FileSystemAccess {
    /// The bytes stored under `src`.
    fn try_read(&self, src: &str) -> Result<Vec<u8>, AppError>;

    /// Stores `d` under `src`, replacing what was there.
    fn try_write(&self, src: &str, d: &[u8]) -> Result<(), AppError>;

    /// Whether the directory exists.
    fn check_dir_exists(&self) -> bool;

    /// Creates the directory where it does not exist yet.
    fn try_create(&self) -> Result<(), AppError>;
}

} // verus!
