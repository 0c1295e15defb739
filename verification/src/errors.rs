use vstd::prelude::*;

verus! {

/// The error kinds an operation can surface.
///
/// `NotFound`, `BadInput` and the three `Invalid*` kinds are user-correctable
/// conditions; `StorageError` and `SettingsMissing` are server-side failures
/// (the latter means the singleton settings record is absent, a fatal
/// consistency violation).
#[derive(Clone, Copy, Debug, PartialEq, Eq, Structural)]
pub enum Error {
    /// The addressed entity is absent, or filtered out of the admin surface.
    NotFound,
    /// A malformed identifier.
    BadInput,
    /// An explicit URL that is not one or more ASCII letters, digits or hyphens.
    InvalidSlug,
    /// A non-empty date field that is not a valid `YYYY-MM-DD` date.
    InvalidDate,
    /// A posts-per-page value that does not parse as an integer greater than zero.
    InvalidPositiveInteger,
    /// A persistence-layer failure; never retried automatically.
    StorageError,
    /// The singleton settings record is absent.
    SettingsMissing,
}

/// Is the error a user-correctable validation condition (as opposed to a
/// server-side failure)?
pub open spec fn spec_is_user_error(e: Error) -> bool {
    !(e == Error::StorageError || e == Error::SettingsMissing)
}

impl Error {
    /// Distinguishes user-correctable conditions from server-side failures.
    pub fn is_user_error(&self) -> (r: bool)
        ensures
            r == spec_is_user_error(*self),
    {
        !(matches!(*self, Error::StorageError) || matches!(*self, Error::SettingsMissing))
    }

    /// A human-readable message for the error, for the web layer to render.
    pub fn message(&self) -> (m: &'static str) {
        match *self {
            Error::NotFound => "post not found",
            Error::BadInput => "invalid post ID",
            Error::InvalidSlug => "invalid URL, must contain only letters (a-z, A-Z), digits (0-9), and hyphens (-)",
            Error::InvalidDate => "invalid date, must be in format YYYY-MM-DD",
            Error::InvalidPositiveInteger => "invalid 'posts per page' value, must be a positive integer",
            Error::StorageError => "unable to access storage",
            Error::SettingsMissing => "settings not found; this means the database is corrupt",
        }
    }
}

} // verus!
