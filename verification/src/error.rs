use vstd::prelude::*;

verus! {

/// What can go wrong while the local mirror is brought up to date.
#[derive(Clone, Copy, Debug, PartialEq, Eq, Structural)]
pub enum SyncError {
    /// The base URL, the user name or the password is not configured.
    MissingCredentials,
    /// The login response holds no token line.
    AuthRejected,
    /// A request could not be carried out.
    TransportFailure,
    /// A response does not have the expected shape.
    MalformedResponse,
    /// The last segment of an article identifier is not a hexadecimal number.
    MalformedIdentifier,
    /// The store refused a row.
    StorageError,
}

impl SyncError {
    /// The name of the error kind.
    pub fn describe(&self) -> (s: String)
        ensures
            s@ == (match *self {
                SyncError::MissingCredentials => "MissingCredentials"@,
                SyncError::AuthRejected => "AuthRejected"@,
                SyncError::TransportFailure => "TransportFailure"@,
                SyncError::MalformedResponse => "MalformedResponse"@,
                SyncError::MalformedIdentifier => "MalformedIdentifier"@,
                SyncError::StorageError => "StorageError"@,
            }),
    {
        match self {
            SyncError::MissingCredentials => String::from_str("MissingCredentials"),
            SyncError::AuthRejected => String::from_str("AuthRejected"),
            SyncError::TransportFailure => String::from_str("TransportFailure"),
            SyncError::MalformedResponse => String::from_str("MalformedResponse"),
            SyncError::MalformedIdentifier => String::from_str("MalformedIdentifier"),
            SyncError::StorageError => String::from_str("StorageError"),
        }
    }
}

} // verus!
