//! Control plane of a resident command launcher: a navigable stack of views,
//! each with its own query text and action set, driven over a small
//! request/response wire protocol by short-lived client invocations.

pub mod actions;
pub mod commands;
pub mod dispatch;
pub mod ipc;
pub mod paths;
pub mod platform;
pub mod keys;
pub mod navigation;
pub mod text;
pub mod toast;
pub mod window;
pub mod wire;
