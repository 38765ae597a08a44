//! The rules of the monitor-hub plugins: finance statistics and Telegram notices.
use vstd::prelude::*;

pub mod calendar;
pub mod finance;
pub mod heap;
pub mod json;
pub mod notify;
pub mod template;
pub mod text;

verus! {

} // verus!
