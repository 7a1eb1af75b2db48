//! Rules of a small club's record service: the documents it hands to its
//! document store, and the replies it makes from what the store hands back.

pub mod document;
pub mod member;
pub mod reply;
pub mod roster;
pub mod search;
pub mod store;
