//! The core logic of an application framework that hosts web frontends: access control of
//! frontend commands, event routing, IPC channels, path resolution, and the asset and file
//! scopes, specified and verified.

pub mod text;
pub mod glob_pattern;
pub mod url_pattern;
pub mod acl;
pub mod acl_scope;
pub mod command_scope;
pub mod error;
pub mod event;
pub mod listener;
pub mod scoped_listener;
pub mod path;
pub mod resources;
pub mod image;
pub mod z85;
pub mod random;
pub mod menu;
pub mod menu_manager;
pub mod ipc;
pub mod scope;
pub mod plugin;
pub mod tray;
pub mod app;
pub mod asset;
pub mod csp;
pub mod protocol;
pub mod ipc_protocol;
