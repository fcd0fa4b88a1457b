//! What the transports promise to those who use them: how what comes out of their
//! functions relates to what goes in, in terms of the values themselves.
pub mod addresses;
pub mod calls;
pub mod loops;
pub mod messages;
pub mod requests;
