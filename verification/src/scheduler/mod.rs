//! Periodic jobs: traffic resets by schedule and client expiry and limit checks.
pub mod jobs;
