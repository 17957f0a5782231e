//! Looking a global variable up: in the process first, in the persistent
//! store of the platform after it.

use crate::host::{Host, HostState, Platform, Store};
use crate::profile::{find_export, lookup_export};
use crate::shell::{get_shell_config_file, shell_config_file};
use crate::text::{text_of, Text};
use vstd::prelude::*;

verus! {

/// The value that the environment table of the process has for `key`.
pub open spec fn process_value(host: HostState, key: Text) -> Option<Text> {
    if host.process.contains_key(key) {
        Some(host.process[key])
    } else {
        None
    }
}

/// The name of the shell in use: the value of `SHELL` in the process, and
/// `bash` where it has none.
pub open spec fn active_shell(host: HostState) -> Text {
    if host.process.contains_key("SHELL"@) {
        host.process["SHELL"@]
    } else {
        "bash"@
    }
}

/// The startup file that is searched for a variable: that of the shell in
/// use, as a path relative to the home directory.
pub open spec fn startup_file(host: HostState) -> Text {
    shell_config_file(active_shell(host))
}

/// The value that the startup file gives `key`: none where there is no home
/// directory or no such file in it, else that of the first line of the file
/// that assigns to `key`.
pub open spec fn file_value(host: HostState, key: Text) -> Option<Text> {
    match host.store.home() {
        Some(files) => if files.contains_key(startup_file(host)) {
            lookup_export(files[startup_file(host)], key)
        } else {
            None
        },
        None => None,
    }
}

/// The value that the registry gives `key`: that under the key of the user
/// where it has one, else that under the key of the machine.
pub open spec fn registry_value(host: HostState, key: Text) -> Option<Text> {
    if host.store.user() is Some && host.store.user().unwrap().contains_key(key) {
        Some(host.store.user().unwrap()[key])
    } else if host.store.machine() is Some && host.store.machine().unwrap().contains_key(key) {
        Some(host.store.machine().unwrap()[key])
    } else {
        None
    }
}

/// The value of `key` as the lookup of the platforms with startup files
/// finds it: that of the process, else that of the startup file.
pub open spec fn lookup_unix(host: HostState, key: Text) -> Option<Text> {
    match process_value(host, key) {
        Some(v) => Some(v),
        None => file_value(host, key),
    }
}

/// The value of the global variable `key`: that of the process where it has
/// one, else that of the persistent store of the platform.
pub open spec fn lookup(host: HostState, key: Text) -> Option<Text> {
    match process_value(host, key) {
        Some(v) => Some(v),
        None => match host.store.platform() {
            Platform::Registry => registry_value(host, key),
            Platform::ShellFiles => file_value(host, key),
        },
    }
}

impl Host {
    /// The startup file that is searched for a variable, as a path relative
    /// to the home directory.
    pub fn startup_file(&self) -> (file: String)
        ensures
            file@ == startup_file(self@),
    {
        match self.process.get("SHELL") {
            Some(shell) => get_shell_config_file(shell.as_str()),
            None => get_shell_config_file("bash"),
        }
    }
}

/// The value that the startup file gives `key`.
fn get_file_value(host: &Host, key: &str) -> (value: Option<String>)
    ensures
        text_of(value) == file_value(host@, key@),
{
    let file = host.startup_file();
    match &host.store {
        Store::ShellFiles { home: Some(files), .. } => match files.get(file.as_str()) {
            Some(content) => find_export(content.as_str(), key),
            None => None,
        },
        _ => None,
    }
}

/// The value that the registry gives `key`.
fn get_registry_value(host: &Host, key: &str) -> (value: Option<String>)
    ensures
        text_of(value) == registry_value(host@, key@),
{
    match &host.store {
        Store::Registry { user, machine, .. } => {
            if let Some(values) = user {
                if let Some(v) = values.get(key) {
                    return Some(v);
                }
            }
            if let Some(values) = machine {
                if let Some(v) = values.get(key) {
                    return Some(v);
                }
            }
            None
        },
        _ => None,
    }
}

/// Looks the global variable `key` up: in the environment table of the
/// process, and where that has none, in the persistent store of the host.
pub fn get_global_env(host: &Host, key: &str) -> (value: Option<String>)
    ensures
        text_of(value) == lookup(host@, key@),
{
    if let Some(v) = host.process.get(key) {
        return Some(v);
    }
    match host.store.platform() {
        Platform::Registry => get_registry_value(host, key),
        Platform::ShellFiles => get_file_value(host, key),
    }
}

/// Looks the global variable `key` up as the platforms with startup files
/// do: in the environment table of the process, and where that has none, in
/// the startup file of the shell in use.
pub fn get_global_env_unix(host: &Host, key: &str) -> (value: Option<String>)
    ensures
        text_of(value) == lookup_unix(host@, key@),
{
    if let Some(v) = host.process.get(key) {
        return Some(v);
    }
    get_file_value(host, key)
}

} // verus!
