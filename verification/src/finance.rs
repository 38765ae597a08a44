//! Finance statistics: what the nodes cost, what is left of it, and when they expire.
pub mod action;
pub mod billing;
pub mod effect;
pub mod event;
pub mod expiry;
pub mod page;
pub mod promise;
pub mod rates;
pub mod record;
pub mod roster;
pub mod run;
pub mod session;
pub mod stats;
pub mod takeover;
