//! A persistent block store's verified core: the bounded piece cache, the
//! on-disk layout of piece files, and the rules by which a storage root is
//! accepted or refused.

pub mod cache;
pub mod clock;
pub mod error;
pub mod handler;
pub mod layout;
