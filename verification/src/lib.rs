//! Verified core of a Discord rich presence client: the presence model,
//! the editing requests of its window, the periodic updater and the
//! conversion of a rich presence into the form the Discord RPC library takes.

pub mod decimal;
pub mod discord;
pub mod host;
pub mod keyed;
pub mod model;
pub mod update;
pub mod window;
