//! A seat inventory and booking engine for a fleet of scheduled buses.
//!
//! The engine keeps, for every bus and travel date, which seats are free,
//! and a ledger of bookings. Its one promise is that a seat of a bus on a
//! date is never held by two confirmed bookings: see `laws`.

pub mod auth;
pub mod catalog;
pub mod db;
pub mod details;
pub mod error;
pub mod laws;
pub mod ledger;
pub mod models;
pub mod oid;
pub mod search;
pub mod seats;
pub mod service;
pub mod store;
