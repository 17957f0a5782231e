//! A host as the setter and the getter see it: the environment table of the
//! running process, and the persistent store of the platform.

use crate::table::Table;
use crate::text::{Text, TextMap};
use vstd::prelude::*;

verus! {

/// The subkey of the current user's registry hive that holds the variables
/// of the user.
pub const USER_ENVIRONMENT_KEY: &'static str = "Environment";

/// The subkey of the local machine's registry hive that holds the variables
/// of the machine.
pub const MACHINE_ENVIRONMENT_KEY: &'static str =
    "SYSTEM\\CurrentControlSet\\Control\\Session Manager\\Environment";

/// The two families of platforms, told apart by where a global variable is
/// kept.
#[derive(Clone, Copy, Debug, PartialEq, Eq, Structural)]
pub enum Platform {
    /// The variable is a value of the per-user `Environment` registry key.
    Registry,
    /// The variable is an `export` line of a shell startup file.
    ShellFiles,
}

/// The persistent store of a host.
#[derive(Clone, Debug)]
pub enum Store {
    /// The two `Environment` registry keys: the one of the user, which is
    /// written and read, and the one of the machine, which is only read.
    /// One that cannot be opened is `None`. `writable` says whether the key
    /// of the user opens for writing and takes a value, `listening` whether
    /// the notice of a change gets delivered. `notices` holds, for each
    /// notice that was delivered, the area that it named.
    Registry {
        user: Option<Table>,
        machine: Option<Table>,
        writable: bool,
        listening: bool,
        notices: Vec<String>,
    },
    /// The text files under the home directory of the user, each under its
    /// path relative to that directory: `None` where no home directory can
    /// be determined. A file that cannot be read as text is left out.
    /// `writable` says whether a file there opens for appending and takes
    /// the text.
    ShellFiles { home: Option<Table>, writable: bool },
}

/// A host: the environment table of the process, and the persistent store.
#[derive(Clone, Debug)]
pub struct Host {
    pub process: Table,
    pub store: Store,
}

/// What a `Store` holds.
pub enum StoreState {
    Registry {
        user: Option<TextMap>,
        machine: Option<TextMap>,
        writable: bool,
        listening: bool,
        notices: Seq<Text>,
    },
    ShellFiles { home: Option<TextMap>, writable: bool },
}

/// What a `Host` holds.
pub struct HostState {
    pub process: TextMap,
    pub store: StoreState,
}

/// The texts of a list of strings.
pub open spec fn texts_of(strings: Seq<String>) -> Seq<Text> {
    Seq::new(strings.len(), |i: int| strings[i]@)
}

/// What a table holds, where there is one.
pub open spec fn table_view(table: Option<Table>) -> Option<TextMap> {
    match table {
        Some(t) => Some(t@),
        None => None,
    }
}

impl StoreState {
    /// The platform that keeps its variables in a store of this form.
    pub open spec fn platform(self) -> Platform {
        match self {
            StoreState::Registry { .. } => Platform::Registry,
            StoreState::ShellFiles { .. } => Platform::ShellFiles,
        }
    }

    /// The `Environment` key of the user, where the store has one that opens.
    pub open spec fn user(self) -> Option<TextMap> {
        match self {
            StoreState::Registry { user, .. } => user,
            StoreState::ShellFiles { .. } => None,
        }
    }

    /// The `Environment` key of the machine, where the store has one that
    /// opens.
    pub open spec fn machine(self) -> Option<TextMap> {
        match self {
            StoreState::Registry { machine, .. } => machine,
            StoreState::ShellFiles { .. } => None,
        }
    }

    /// Whether the store takes a write.
    pub open spec fn writable(self) -> bool {
        match self {
            StoreState::Registry { writable, .. } => writable,
            StoreState::ShellFiles { writable, .. } => writable,
        }
    }

    /// Whether the notice of a change gets delivered.
    pub open spec fn listening(self) -> bool {
        match self {
            StoreState::Registry { listening, .. } => listening,
            StoreState::ShellFiles { .. } => false,
        }
    }

    /// The areas that the notices named which were delivered, in their
    /// order.
    pub open spec fn notices(self) -> Seq<Text> {
        match self {
            StoreState::Registry { notices, .. } => notices,
            StoreState::ShellFiles { .. } => Seq::empty(),
        }
    }

    /// The files under the home directory, where the store has one.
    pub open spec fn home(self) -> Option<TextMap> {
        match self {
            StoreState::Registry { .. } => None,
            StoreState::ShellFiles { home, .. } => home,
        }
    }
}

impl View for Store {
    type V = StoreState;

    open spec fn view(&self) -> StoreState {
        match *self {
            Store::Registry { user, machine, writable, listening, notices } => {
                StoreState::Registry {
                    user: table_view(user),
                    machine: table_view(machine),
                    writable,
                    listening,
                    notices: texts_of(notices@),
                }
            },
            Store::ShellFiles { home, writable } => StoreState::ShellFiles {
                home: table_view(home),
                writable,
            },
        }
    }
}

impl View for Host {
    type V = HostState;

    open spec fn view(&self) -> HostState {
        HostState { process: self.process@, store: self.store@ }
    }
}

impl Store {
    /// The platform that keeps its variables in a store of this form.
    pub fn platform(&self) -> (platform: Platform)
        ensures
            platform == self@.platform(),
    {
        match self {
            Store::Registry { .. } => Platform::Registry,
            Store::ShellFiles { .. } => Platform::ShellFiles,
        }
    }
}

} // verus!
