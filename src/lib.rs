//! An in-process, expiring key-value cache that stores values of several
//! types under string keys and hands them back only under the type they were
//! stored with.

mod sealed;
pub mod value;
pub mod shared;
pub mod clock;
pub mod cache;
pub mod laws;
