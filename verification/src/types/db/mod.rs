//! Types of the stored records.

pub mod auth;
