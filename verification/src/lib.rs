//! The logic of a sandbox made of Linux namespaces: the messages between parent and child and
//! what each side does with them, the tools and where they run, the Lua functions of plugins,
//! the mounts and variables of the sandbox, and the dialog that shows it.
//!
//! Nothing here reads or writes but buffers. Whoever calls the library performs the requests
//! that it makes and hands the answers back.

pub mod browser;
pub mod child;
pub mod codec;
pub mod entries;
pub mod error;
pub mod glob;
pub mod info;
pub mod ipc;
pub mod json;
pub mod lua;
pub mod lua_runtime;
pub mod modal;
pub mod namespace;
pub mod parent;
pub mod process;
pub mod profiles;
pub mod report;
pub mod sandbox;
pub mod screen;
pub mod shell;
pub mod text;
pub mod tools;
pub mod view;
pub mod wire;
