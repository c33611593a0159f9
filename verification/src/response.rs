//! The uniform response body every endpoint answers with.

use vstd::prelude::*;
use vstd::string::StringExecFns;

verus! {

/// The JSON envelope: optional payload, numeric status, human message.
pub struct GeneralBody<T> {
    pub data: Option<T>,
    pub status: u16,
    pub message: String,
}

/// The stock message for a status code the service answers with.
pub fn response_message(status: u16) -> (r: Option<&'static str>)
    ensures
        r == spec_response_message(status),
        r matches Some(m) ==> m@ == spec_body_message(status),
{
    match status {
        200u16 => Some("Successfully!"),
        500u16 => Some("Internal server error!"),
        401u16 => Some("Unauthorized!"),
        400u16 => Some("Bad request!"),
        _ => None,
    }
}

/// Which statuses carry a stock message, and which one.
pub open spec fn spec_response_message(status: u16) -> Option<&'static str> {
    if status == 200 || status == 500 || status == 401 || status == 400 {
        Some(
            if status == 200 {
                "Successfully!"
            } else if status == 500 {
                "Internal server error!"
            } else if status == 401 {
                "Unauthorized!"
            } else {
                "Bad request!"
            },
        )
    } else {
        None
    }
}

/// The message text a body built for this status carries.
pub open spec fn spec_body_message(status: u16) -> Seq<char> {
    if status == 200 {
        "Successfully!"@
    } else if status == 500 {
        "Internal server error!"@
    } else if status == 401 {
        "Unauthorized!"@
    } else if status == 400 {
        "Bad request!"@
    } else {
        "Undefied!"@
    }
}

impl<T> GeneralBody<T> {
    /// A body with the stock message of its status.
    pub fn new(status: u16, data: Option<T>) -> (r: GeneralBody<T>)
        ensures
            r.status == status,
            r.data == data,
            r.message@ == spec_body_message(status),
    {
        let message = match response_message(status) {
            Some(m) => String::from_str(m),
            None => String::from_str("Undefied!"),
        };
        GeneralBody { data, status, message }
    }

    /// A body with a caller-chosen message.
    pub fn new_custom(status: u16, message: String, data: Option<T>) -> (r: GeneralBody<T>)
        ensures
            r.status == status,
            r.data == data,
            r.message == message,
    {
        GeneralBody { data, status, message }
    }
}

} // verus!
