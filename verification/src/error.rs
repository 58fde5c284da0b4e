//! The error type of the message centre and its numeric business codes.
use vstd::prelude::*;

verus! {

/// Every failure the message centre reports to its callers.
#[derive(Debug, PartialEq, Eq)]
pub enum BmsgError {
    NotFound,
    ServiceNotFound,
    Unauthorized,
    StorageError(String),
    DeliveryError(String),
    ElectionError(String),
    RegistryError(String),
    InvalidRequest(String),
    Internal(String),
}

impl Clone for BmsgError {
    fn clone(&self) -> (r: Self)
        ensures
            r == *self,
    {
        match self {
            BmsgError::NotFound => BmsgError::NotFound,
            BmsgError::ServiceNotFound => BmsgError::ServiceNotFound,
            BmsgError::Unauthorized => BmsgError::Unauthorized,
            BmsgError::StorageError(m) => BmsgError::StorageError(m.clone()),
            BmsgError::DeliveryError(m) => BmsgError::DeliveryError(m.clone()),
            BmsgError::ElectionError(m) => BmsgError::ElectionError(m.clone()),
            BmsgError::RegistryError(m) => BmsgError::RegistryError(m.clone()),
            BmsgError::InvalidRequest(m) => BmsgError::InvalidRequest(m.clone()),
            BmsgError::Internal(m) => BmsgError::Internal(m.clone()),
        }
    }
}

impl BmsgError {
    /// The four-digit business code of an error.
    pub open spec fn spec_code(self) -> u16 {
        match self {
            BmsgError::NotFound => 1004,
            BmsgError::ServiceNotFound => 1004,
            BmsgError::Unauthorized => 1002,
            BmsgError::InvalidRequest(_) => 1003,
            _ => 1000,
        }
    }

    /// The human-readable text of an error.
    pub open spec fn spec_text(self) -> Seq<char> {
        match self {
            BmsgError::NotFound => "message not found"@,
            BmsgError::ServiceNotFound => "service not found"@,
            BmsgError::Unauthorized => "unauthorized: invalid secret"@,
            BmsgError::StorageError(m) => "storage error: "@ + m@,
            BmsgError::DeliveryError(m) => "delivery error: "@ + m@,
            BmsgError::ElectionError(m) => "election error: "@ + m@,
            BmsgError::RegistryError(m) => "registry error: "@ + m@,
            BmsgError::InvalidRequest(m) => "invalid request: "@ + m@,
            BmsgError::Internal(m) => "internal error: "@ + m@,
        }
    }

    /// Business code (4 digits): 1004 not found, 1002 unauthorized,
    /// 1003 invalid request, 1000 for every internal failure.
    pub fn code(&self) -> (c: u16)
        ensures
            c == self.spec_code(),
    {
        match self {
            BmsgError::NotFound => 1004,
            BmsgError::ServiceNotFound => 1004,
            BmsgError::Unauthorized => 1002,
            BmsgError::InvalidRequest(_) => 1003,
            BmsgError::StorageError(_)
            | BmsgError::DeliveryError(_)
            | BmsgError::ElectionError(_)
            | BmsgError::RegistryError(_)
            | BmsgError::Internal(_) => 1000,
        }
    }

    /// The message text of the error, as its `Display` form reads.
    pub fn to_string(&self) -> (s: String)
        ensures
            s@ == self.spec_text(),
    {
        match self {
            BmsgError::NotFound => String::from_str("message not found"),
            BmsgError::ServiceNotFound => String::from_str("service not found"),
            BmsgError::Unauthorized => String::from_str("unauthorized: invalid secret"),
            BmsgError::StorageError(m) => String::from_str("storage error: ").concat(m.as_str()),
            BmsgError::DeliveryError(m) => String::from_str("delivery error: ").concat(m.as_str()),
            BmsgError::ElectionError(m) => String::from_str("election error: ").concat(m.as_str()),
            BmsgError::RegistryError(m) => String::from_str("registry error: ").concat(m.as_str()),
            BmsgError::InvalidRequest(m) => String::from_str("invalid request: ").concat(
                m.as_str(),
            ),
            BmsgError::Internal(m) => String::from_str("internal error: ").concat(m.as_str()),
        }
    }
}

} // verus!
