use vstd::prelude::*;

verus! {

/// Error taxonomy of the execution core.
///
/// Configuration errors are fatal at construction time; the remaining
/// variants carry a description of a runtime failure surfaced by a
/// collaborator at the process boundary.
#[derive(Debug, Clone)]
pub enum AppError {
    Config(String),
    Io(String),
    Serde(String),
    Strategy(String),
    Exchange(String),
    Other(String),
}

impl AppError {
    /// The description carried by the error, whichever variant it is.
    pub fn message(&self) -> (r: &String)
        ensures
            r@ == self.message_view(),
    {
        match self {
            AppError::Config(m) => m,
            AppError::Io(m) => m,
            AppError::Serde(m) => m,
            AppError::Strategy(m) => m,
            AppError::Exchange(m) => m,
            AppError::Other(m) => m,
        }
    }

    pub open spec fn message_view(&self) -> Seq<char> {
        match self {
            AppError::Config(m) => m@,
            AppError::Io(m) => m@,
            AppError::Serde(m) => m@,
            AppError::Strategy(m) => m@,
            AppError::Exchange(m) => m@,
            AppError::Other(m) => m@,
        }
    }

    /// True exactly for configuration errors, which must prevent
    /// construction of the component that reported them.
    pub fn is_config(&self) -> (r: bool)
        ensures
            r == (self is Config),
    {
        match self {
            AppError::Config(_) => true,
            _ => false,
        }
    }
}

pub type AppResult<T> = Result<T, AppError>;

} // verus!
