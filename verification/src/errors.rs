//! The application's errors.
use vstd::prelude::*;

verus! {

/// An error of the server, with its message.
pub enum AppError {
    IoError(String),
    DatabaseError(String),
    OtherError(String),
    ServerError(String),
    PageNotFound(String),
    PluginError(String),
}

impl AppError {
    /// The text the error is shown as.
    pub open spec fn spec_message(self) -> Seq<char> {
        match self {
            AppError::IoError(m) => "I/O error: "@ + m@,
            AppError::DatabaseError(m) => "Database error: "@ + m@,
            AppError::OtherError(m) => "Other error: "@ + m@,
            AppError::ServerError(m) => "Server error: "@ + m@,
            AppError::PageNotFound(m) => "Page Not Found: "@ + m@,
            AppError::PluginError(m) => "Plugin error: "@ + m@,
        }
    }

    /// The text the error is shown as: a label for its kind, then its message.
    pub fn message(&self) -> (r: String)
        ensures
            r@ == self.spec_message(),
    {
        let (label, m) = match self {
            AppError::IoError(m) => ("I/O error: ", m),
            AppError::DatabaseError(m) => ("Database error: ", m),
            AppError::OtherError(m) => ("Other error: ", m),
            AppError::ServerError(m) => ("Server error: ", m),
            AppError::PageNotFound(m) => ("Page Not Found: ", m),
            AppError::PluginError(m) => ("Plugin error: ", m),
        };
        let mut r = label.to_owned();
        r.append(m.as_str());
        r
    }
}

} // verus!
