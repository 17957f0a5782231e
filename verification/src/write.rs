//! The single writes that setting a global variable is made of.

use crate::host::{texts_of, Host, HostState, Store, StoreState};
use crate::text::{Text, TextMap};
use vstd::prelude::*;

verus! {

/// One write to a host.
#[derive(Clone, Debug)]
pub enum Write {
    /// Set the string value `name` of the `Environment` key of the user to
    /// `data`. The key has to exist.
    RegistryValue { name: String, data: String },
    /// Tell every top-level window that the settings under `area` changed,
    /// and wait at most `timeout_ms` milliseconds for each to answer.
    Notify { area: String, timeout_ms: u32 },
    /// Append `text` to the file `file` under the home directory of the
    /// user; the file is made where there is none.
    AppendFile { file: String, text: String },
    /// Give `key` the value `value` in the environment table of the process.
    ProcessVar { key: String, value: String },
}

/// What a `Write` says.
pub enum WriteView {
    RegistryValue { name: Text, data: Text },
    Notify { area: Text, timeout_ms: u32 },
    AppendFile { file: Text, text: Text },
    ProcessVar { key: Text, value: Text },
}

impl View for Write {
    type V = WriteView;

    open spec fn view(&self) -> WriteView {
        match *self {
            Write::RegistryValue { name, data } => WriteView::RegistryValue {
                name: name@,
                data: data@,
            },
            Write::Notify { area, timeout_ms } => WriteView::Notify { area: area@, timeout_ms },
            Write::AppendFile { file, text } => WriteView::AppendFile { file: file@, text: text@ },
            Write::ProcessVar { key, value } => WriteView::ProcessVar { key: key@, value: value@ },
        }
    }
}

/// Why a write did not take place.
#[derive(Clone, Copy, Debug, PartialEq, Eq, Structural)]
pub enum Fault {
    /// The store could not be opened or written.
    Io,
    /// No home directory could be determined.
    NoHome,
    /// The notice was not delivered in time.
    NotDelivered,
}

/// The files `files` after `text` is appended to `file`.
pub open spec fn appended(files: TextMap, file: Text, text: Text) -> TextMap {
    files.insert(
        file,
        if files.contains_key(file) {
            files[file] + text
        } else {
            text
        },
    )
}

impl HostState {
    /// How `write` ends on this host: a value can be set only under a key
    /// that opens and takes it, a notice reaches only those who listen, a
    /// file can be appended to only under a home directory that takes the
    /// text, and the table of the process takes every write.
    pub open spec fn outcome(self, write: WriteView) -> Result<(), Fault> {
        match write {
            WriteView::RegistryValue { .. } => if self.store.user() is None
                || !self.store.writable() {
                Err(Fault::Io)
            } else {
                Ok(())
            },
            WriteView::Notify { .. } => if self.store.listening() {
                Ok(())
            } else {
                Err(Fault::NotDelivered)
            },
            WriteView::AppendFile { .. } => if self.store.home() is None {
                Err(Fault::NoHome)
            } else if !self.store.writable() {
                Err(Fault::Io)
            } else {
                Ok(())
            },
            WriteView::ProcessVar { .. } => Ok(()),
        }
    }

    /// This host after `write`: as before where a fault keeps the write from
    /// taking place.
    pub open spec fn after(self, write: WriteView) -> HostState {
        if self.outcome(write) is Err {
            self
        } else {
            match write {
                WriteView::RegistryValue { name, data } => HostState {
                    process: self.process,
                    store: StoreState::Registry {
                        user: Some(self.store.user().unwrap().insert(name, data)),
                        machine: self.store.machine(),
                        writable: self.store.writable(),
                        listening: self.store.listening(),
                        notices: self.store.notices(),
                    },
                },
                WriteView::Notify { area, .. } => HostState {
                    process: self.process,
                    store: StoreState::Registry {
                        user: self.store.user(),
                        machine: self.store.machine(),
                        writable: self.store.writable(),
                        listening: self.store.listening(),
                        notices: self.store.notices().push(area),
                    },
                },
                WriteView::AppendFile { file, text } => HostState {
                    process: self.process,
                    store: StoreState::ShellFiles {
                        home: Some(appended(self.store.home().unwrap(), file, text)),
                        writable: self.store.writable(),
                    },
                },
                WriteView::ProcessVar { key, value } => HostState {
                    process: self.process.insert(key, value),
                    store: self.store,
                },
            }
        }
    }
}

impl Host {
    /// Performs `write` on this host, or reports the fault that keeps it
    /// from taking place and leaves the host as it is.
    pub fn perform(&mut self, write: &Write) -> (outcome: Result<(), Fault>)
        ensures
            outcome == old(self)@.outcome(write@),
            final(self)@ == old(self)@.after(write@),
    {
        match write {
            Write::RegistryValue { name, data } => match &mut self.store {
                Store::Registry { user: Some(values), writable: true, .. } => {
                    values.set(name.as_str(), data.as_str());
                    Ok(())
                },
                _ => Err(Fault::Io),
            },
            Write::Notify { area, .. } => match &mut self.store {
                Store::Registry { listening: true, notices, .. } => {
                    notices.push(area.clone());
                    assert(texts_of(notices@) == texts_of(old(self).store->notices@).push(area@));
                    Ok(())
                },
                _ => Err(Fault::NotDelivered),
            },
            Write::AppendFile { file, text } => match &mut self.store {
                Store::ShellFiles { home: None, .. } => Err(Fault::NoHome),
                Store::ShellFiles { home: Some(files), writable: true } => {
                    let mut content = match files.get(file.as_str()) {
                        Some(content) => content,
                        None => String::new(),
                    };
                    content.append(text.as_str());
                    files.set(file.as_str(), content.as_str());
                    Ok(())
                },
                Store::ShellFiles { .. } => Err(Fault::Io),
                Store::Registry { .. } => Err(Fault::NoHome),
            },
            Write::ProcessVar { key, value } => {
                self.process.set(key.as_str(), value.as_str());
                Ok(())
            },
        }
    }
}

} // verus!
