//! Global environment variables: a setting that is written to the persistent
//! store of the platform and to the environment table of the running
//! process, and the lookup that reads it back.
//!
//! The library works on a `Host`, which holds as plain values what setting
//! and getting touch: the table of the process, and either the registry keys
//! or the startup files of the store. Whoever runs it against a real machine
//! performs the writes of `set_plan` there, and hands the getter a `Host`
//! that was filled from what the machine holds.

pub mod getter;
pub mod host;
pub mod laws;
pub mod profile;
pub mod setter;
pub mod shell;
pub mod table;
pub mod text;
pub mod write;

pub use getter::{get_global_env, get_global_env_unix};
pub use host::{Host, Platform, Store};
pub use setter::{set_global_env, SetError};
pub use shell::get_shell_config_file;
pub use table::Table;
pub use write::{Fault, Write};
