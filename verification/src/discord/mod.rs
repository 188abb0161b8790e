//! The Discord RPC side: the rich presence that a profile shows and its
//! conversion into the fields that the C library takes.

pub mod c_string;
pub mod join_request;
pub mod rich_presence;
pub mod rpc;
