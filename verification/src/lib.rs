pub mod entry;
pub mod error;
pub mod header;
pub mod internal;
pub mod iter;
pub mod laws;
pub mod order;
pub mod pred;
pub mod store;
pub mod storeid;
