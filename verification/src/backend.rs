//! Shared structs used to communicate with the backend.

use vstd::prelude::*;

use vstd::string::StringExecFns;

verus! {

/// Relevant metadata about the state of an uploaded object on the backend
/// server.
pub struct RegisteredObjectData {
    /// The ID of the object.
    pub id: String,
    /// A private secret that must be sent in an [`ObjectKeepAliveRequest`]
    /// to keep the backend server from deleting the object entry.
    pub keep_alive_key: String,
}

impl Clone for RegisteredObjectData {
    fn clone(&self) -> (r: Self)
        ensures
            r == *self,
    {
        RegisteredObjectData { id: self.id.clone(), keep_alive_key: self.keep_alive_key.clone() }
    }
}

/// Request sent to the backend server to keep it from deleting an object
/// entry.
pub struct ObjectKeepAliveRequest {
    /// The secret returned in [`RegisteredObjectData`], used to identify and
    /// authenticate the refresh.
    pub keep_alive_key: String,
}

impl Clone for ObjectKeepAliveRequest {
    fn clone(&self) -> (r: Self)
        ensures
            r == *self,
    {
        ObjectKeepAliveRequest { keep_alive_key: self.keep_alive_key.clone() }
    }
}

/// Data that is returned when the server has an error.
pub struct ErrorResponse {
    /// The code associated with the raised error.
    pub code: String,
    /// A helpful message about the error that has occurred.
    pub message: String,
}

impl ErrorResponse {
    /// Creates a new [`ErrorResponse`].
    pub fn new(code: String, message: String) -> (r: ErrorResponse)
        ensures
            r.code == code,
            r.message == message,
    {
        ErrorResponse { code, message }
    }

    /// The error rendered as `code: message`, as it is logged and shown.
    pub fn display_string(&self) -> (r: String)
        ensures
            r@ == self.code@ + ": "@ + self.message@,
    {
        let mut r = self.code.clone();
        r.append(": ");
        r.append(self.message.as_str());
        proof {
            assert(r@ =~= self.code@ + ": "@ + self.message@);
        }
        r
    }
}

impl Clone for ErrorResponse {
    fn clone(&self) -> (r: Self)
        ensures
            r == *self,
    {
        ErrorResponse { code: self.code.clone(), message: self.message.clone() }
    }
}

} // verus!
