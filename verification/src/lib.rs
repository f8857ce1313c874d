//! Decision logic of the OpenDirectory bindings: what each directory call is
//! asked to do, how its options are read, and how its replies are turned into
//! the values handed back to the caller.
pub mod outcome;
pub mod node;
pub mod credentials;
pub mod query;
pub mod records;
pub mod expiry;
pub mod connect;
