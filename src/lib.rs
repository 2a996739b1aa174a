//! Daily species assignment: each user is given one random catalog entry per
//! rotation window, and the same entry again until the window rolls over.

pub mod catalog;
pub mod clock;
pub mod ledger;
pub mod loader;
pub mod request;
