//! Badge issuing and access control: who may read, create, revoke or share a
//! badge, and the life of a badge and of a request to see its claims.

pub mod error;
pub mod laws;
pub mod model;
pub mod principal;
pub mod rules;
pub mod store;
pub mod table;
pub mod util;
