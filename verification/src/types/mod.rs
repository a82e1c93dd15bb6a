//! Types shared across the platform.

pub mod db;
