//! Error values surfaced by the service operations.

use vstd::prelude::*;
use vstd::string::StringExecFns;

verus! {

/// A request-level failure carrying a human-readable message.
#[derive(Debug)]
pub struct AppError {
    pub message: String,
}

impl AppError {
    pub fn new(err_message: String) -> (r: AppError)
        ensures
            r.message == err_message,
    {
        AppError { message: err_message }
    }
}

/// Everything a service operation can reject, one variant per rule.
///
/// Cancellation deliberately collapses "not found", "not the owner" and
/// "already ended" into the single `ReservationNotCancellable` variant, so a
/// caller cannot tell someone else's reservation from a missing one.
#[derive(Clone, Copy, Debug, PartialEq, Eq, Structural)]
pub enum ServiceError {
    /// `time_from` does not lie strictly before `time_to`.
    InvalidTimeRange,
    /// `time_from` is not strictly in the future.
    TimeNotInFuture,
    /// The requested therapy and bed do not resolve to the same salon.
    TherapyBedSalonMismatch,
    /// The bed does not exist or a waiting reservation overlaps the slot.
    BedUnavailable,
    /// The reservation is missing, owned by someone else, or not waiting.
    ReservationNotCancellable,
    /// The username is already taken by another account.
    UsernameTaken,
    /// No account matches the given identifier or username.
    UserNotFound,
    /// Hashing or checking a password failed in the password backend.
    PasswordBackend,
    /// The acting account does not have the customer role.
    NotCustomerRole,
    /// No salon matches the given identifier, or it is not the caller's.
    SalonNotFound,
    /// No branch matches the given identifier, or it is not the caller's.
    BranchNotFound,
    /// No bed matches the given identifier, or it is not the caller's.
    BedNotFound,
    /// No therapy matches the given identifier, or it is not the caller's.
    TherapyNotFound,
    /// The acting account owns no salon yet.
    NoSalonOwned,
    /// Page or limit is not a positive number, or addresses no valid row.
    InvalidPaging,
    /// The request carries no identity the account table can confirm, or a
    /// role the route does not accept.
    Unauthorized,
}

impl ServiceError {
    /// The user-facing message for this failure.
    pub fn message(&self) -> (r: &'static str)
        ensures
            r@ == self.message_spec(),
    {
        match self {
            ServiceError::InvalidTimeRange => "time to must be greater than time from",
            ServiceError::TimeNotInFuture => "time from must be in the future",
            ServiceError::TherapyBedSalonMismatch => "therapy and salon bed are not in same salon!",
            ServiceError::BedUnavailable => "This bed already booked at this time.",
            ServiceError::ReservationNotCancellable => {
                "This reservation of this user already canceled or not found."
            },
            ServiceError::UsernameTaken => "username already existed.",
            ServiceError::UserNotFound => "user_id is invalid!",
            ServiceError::PasswordBackend => "password could not be processed!",
            ServiceError::NotCustomerRole => "This account is not customer role.",
            ServiceError::SalonNotFound => "salon not found.",
            ServiceError::BranchNotFound => "Branch not found or not your branch!",
            ServiceError::BedNotFound => "Bed not found or not your salon bed!",
            ServiceError::TherapyNotFound => "therapy not found or not your therapy!",
            ServiceError::NoSalonOwned => "this user owns no salon!",
            ServiceError::InvalidPaging => "page and limit must greater than 0.",
            ServiceError::Unauthorized => "Unauthorized!",
        }
    }

    /// Wraps the message into an [`AppError`].
    pub fn to_app_error(&self) -> (r: AppError)
        ensures
            r.message@ == self.message_spec(),
    {
        AppError { message: String::from_str(self.message()) }
    }

    /// The message of this failure, as specification text.
    pub open spec fn message_spec(&self) -> Seq<char> {
        match self {
            ServiceError::InvalidTimeRange => "time to must be greater than time from"@,
            ServiceError::TimeNotInFuture => "time from must be in the future"@,
            ServiceError::TherapyBedSalonMismatch => "therapy and salon bed are not in same salon!"@,
            ServiceError::BedUnavailable => "This bed already booked at this time."@,
            ServiceError::ReservationNotCancellable => "This reservation of this user already canceled or not found."@,
            ServiceError::UsernameTaken => "username already existed."@,
            ServiceError::UserNotFound => "user_id is invalid!"@,
            ServiceError::PasswordBackend => "password could not be processed!"@,
            ServiceError::NotCustomerRole => "This account is not customer role."@,
            ServiceError::SalonNotFound => "salon not found."@,
            ServiceError::BranchNotFound => "Branch not found or not your branch!"@,
            ServiceError::BedNotFound => "Bed not found or not your salon bed!"@,
            ServiceError::TherapyNotFound => "therapy not found or not your therapy!"@,
            ServiceError::NoSalonOwned => "this user owns no salon!"@,
            ServiceError::InvalidPaging => "page and limit must greater than 0."@,
            ServiceError::Unauthorized => "Unauthorized!"@,
        }
    }
}

} // verus!
