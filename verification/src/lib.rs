//! Browsing and managing the objects of cloud storage buckets.
pub mod login;
pub mod text;
pub mod outside;
pub mod cloud;
pub mod listing;
pub mod details;
pub mod session;
pub mod laws;
