//! A bucket registry shared by request handlers, guarded by an access policy
//! that is evaluated before the registry is touched.

pub mod bucket;
pub mod policy;
pub mod registry;
pub mod api;
