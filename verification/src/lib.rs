//! Lifecycle manager for a translucent "glass" window effect.
//!
//! The library tracks which windows and views currently carry an effect,
//! decides every mutation of the native view tree, and abstracts over two
//! incompatible native implementations: an advanced effect view with native
//! tint and variant support, and a fallback that emulates tinting with an
//! overlay sub-view.
//!
//! Native toolkit calls cannot be made from verified code, so the manager
//! keeps a model of the view tree it owns and emits [`store::NativeCommand`]
//! values; a thin host layer replays them on the UI thread.

pub mod backend;
pub mod color;
pub mod error;
pub mod handles;
pub mod laws;
pub mod manager;
pub mod models;
pub mod operations;
pub mod registry;
pub mod store;
