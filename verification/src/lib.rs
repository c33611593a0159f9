//! Core rules of a salon booking service: time-slot reservations over salon
//! beds, a salon/branch/bed/therapy catalog, and role-scoped user accounts.
//!
//! The crate holds the business rules as verified functions over in-memory
//! stores; I/O layers are expected to wrap these and keep each store behind a
//! single writer, so every operation here is one atomic unit.

pub mod account;
pub mod claim;
mod clock;
pub mod database;
pub mod db_error;
pub mod error;
pub mod password;
pub mod response;
pub mod reservation;
pub mod salon;
pub mod salon_bed;
mod utils;

pub use utils::extract_page_and_limit;
pub use utils::get_query_from_to;
pub use utils::page_of;
pub use utils::total_pages;
