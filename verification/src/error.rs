//! The errors that the server's request handling answers with.
use vstd::prelude::*;
use crate::crypto::CryptoError;

verus! {

/// What failed inside the server while serving a request.
#[derive(Debug, Clone, Copy, PartialEq, Eq, Structural)]
pub enum Failure {
    /// Sealing or opening a stored value failed.
    Crypto(CryptoError),
    /// Hashing a secret with bcrypt failed.
    Hashing,
}

/// The answer to a request that could not be served.
#[derive(Debug, Clone, Copy, PartialEq, Eq, Structural)]
pub enum AppError {
    /// 401: no valid credentials for this request.
    Unauthorized,
    /// 404: the addressed row does not exist.
    NotFound,
    /// 500: the server failed.
    Internal(Failure),
}

/// A row that a lookup found, or `NotFound`.
pub fn require_found<T>(row: Option<T>) -> (res: Result<T, AppError>)
    ensures
        match row {
            Some(r) => res == Ok::<T, AppError>(r),
            None => res == Err::<T, AppError>(AppError::NotFound),
        },
{
    match row {
        Some(r) => Ok(r),
        None => Err(AppError::NotFound),
    }
}

/// An update or delete that touched `affected` rows: `NotFound` when it
/// touched none.
pub fn require_affected(affected: u64) -> (res: Result<(), AppError>)
    ensures
        affected == 0 ==> res == Err::<(), AppError>(AppError::NotFound),
        affected > 0 ==> res == Ok::<(), AppError>(()),
{
    if affected == 0 {
        Err(AppError::NotFound)
    } else {
        Ok(())
    }
}

} // verus!
