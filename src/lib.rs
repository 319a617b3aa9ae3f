//! Scrapes upcoming drum corps events from a listing site, keeps them in an
//! event store, and plans one digest post per notification window.

pub mod dom;
pub mod time;
pub mod record;
pub mod extract;
pub mod store;
pub mod notify;
pub mod laws;
