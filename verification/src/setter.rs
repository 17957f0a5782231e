//! Setting a global variable: the writes that it takes, and what they leave
//! of a host.

use crate::host::{Host, HostState, Platform, StoreState};
use crate::profile::{export_entry, export_line};
use crate::text::{chars_of, Text};
use crate::write::{appended, Fault, Write, WriteView};
use vstd::prelude::*;

verus! {

/// Why a global variable could not be set.
#[derive(Clone, Copy, Debug, PartialEq, Eq, Structural)]
pub enum SetError {
    /// The persistent store could not be opened or written.
    Io,
    /// No home directory could be determined, so there is no file to write.
    NoHome,
}

/// Whether `key` can name an environment variable: it is not empty and holds
/// no `=`.
pub open spec fn is_env_key(key: Text) -> bool {
    key.len() > 0 && !key.contains('=')
}

/// Whether `key` can name an environment variable.
pub fn is_valid_key(key: &str) -> (valid: bool)
    ensures
        valid == is_env_key(key@),
{
    let chars = chars_of(key);
    let mut at: usize = 0;
    while at < chars.len()
        invariant
            at <= chars.len(),
            chars@ == key@,
            forall|i: int| 0 <= i < at ==> chars[i] != '=',
        decreases chars.len() - at,
    {
        if chars[at] == '=' {
            return false;
        }
        at += 1;
    }
    chars.len() > 0
}

/// The writes that set `key` to `value` on `platform`, in their order: the
/// persistent store first, the process last.
pub open spec fn plan(platform: Platform, key: Text, value: Text) -> Seq<WriteView> {
    match platform {
        Platform::Registry => seq![
            WriteView::RegistryValue { name: key, data: value },
            WriteView::Notify { area: "Environment"@, timeout_ms: 5000 },
            WriteView::ProcessVar { key, value },
        ],
        Platform::ShellFiles => seq![
            WriteView::AppendFile { file: ".profile"@, text: export_entry(key, value) },
            WriteView::ProcessVar { key, value },
        ],
    }
}

/// What the outcome of one write means to the setter: a notice that was not
/// delivered is let go, any other fault ends the setting.
pub open spec fn settled(outcome: Result<(), Fault>) -> Result<(), SetError> {
    match outcome {
        Ok(_) => Ok(()),
        Err(Fault::NotDelivered) => Ok(()),
        Err(Fault::Io) => Err(SetError::Io),
        Err(Fault::NoHome) => Err(SetError::NoHome),
    }
}

/// The host after `writes` are performed in turn up to the first that ends
/// the setting, and how that went.
pub open spec fn run(host: HostState, writes: Seq<WriteView>) -> (HostState, Result<(), SetError>)
    decreases writes.len(),
{
    if writes.len() == 0 {
        (host, Ok(()))
    } else {
        match settled(host.outcome(writes[0])) {
            Ok(_) => run(host.after(writes[0]), writes.drop_first()),
            Err(e) => (host, Err(e)),
        }
    }
}

/// Whether a variable can be set on `host`: the store of its platform has
/// to be there and to take the write. A home directory that cannot be
/// determined is a failure of its own; every other one is a failure of the
/// store.
pub open spec fn set_result(host: HostState) -> Result<(), SetError> {
    match host.store {
        StoreState::Registry { user, writable, .. } => if user is None || !writable {
            Err(SetError::Io)
        } else {
            Ok(())
        },
        StoreState::ShellFiles { home, writable } => if home is None {
            Err(SetError::NoHome)
        } else if !writable {
            Err(SetError::Io)
        } else {
            Ok(())
        },
    }
}

/// The host after `key` is set to `value`. Where that fails, nothing has
/// changed. Else the process has the variable, and so has the store: the
/// user's registry key as a value, or the user's `.profile` as one more
/// line at its end. After the registry was written, a notice of the change
/// under `Environment` went out, and was delivered where the host listens.
pub open spec fn after_set(host: HostState, key: Text, value: Text) -> HostState {
    if set_result(host) is Err {
        host
    } else {
        HostState {
            process: host.process.insert(key, value),
            store: match host.store {
                StoreState::Registry { user, machine, writable, listening, notices } => {
                    StoreState::Registry {
                        user: Some(user.unwrap().insert(key, value)),
                        machine,
                        writable,
                        listening,
                        notices: if listening {
                            notices.push("Environment"@)
                        } else {
                            notices
                        },
                    }
                },
                StoreState::ShellFiles { home, writable } => StoreState::ShellFiles {
                    home: Some(appended(home.unwrap(), ".profile"@, export_entry(key, value))),
                    writable,
                },
            },
        }
    }
}

/// Performing the writes of the plan sets the variable.
pub proof fn law_run_of_plan(host: HostState, key: Text, value: Text)
    ensures
        run(host, plan(host.store.platform(), key, value)) == (
            after_set(host, key, value),
            set_result(host),
        ),
{
    let writes = plan(host.store.platform(), key, value);
    reveal_with_fuel(run, 4);
    match host.store {
        StoreState::Registry { .. } => {
            assert(writes.drop_first() == seq![writes[1], writes[2]]);
            assert(writes.drop_first().drop_first() == seq![writes[2]]);
            assert(writes.drop_first().drop_first().drop_first().len() == 0);
        },
        StoreState::ShellFiles { .. } => {
            assert(writes.drop_first() == seq![writes[1]]);
            assert(writes.drop_first().drop_first().len() == 0);
        },
    }
}

/// The writes that set `key` to `value` on `platform`, in their order.
pub fn set_plan(platform: Platform, key: &str, value: &str) -> (writes: Vec<Write>)
    ensures
        writes@.len() == plan(platform, key@, value@).len(),
        forall|i: int| 0 <= i < writes@.len() ==> writes[i]@ == plan(platform, key@, value@)[i],
{
    let mut writes: Vec<Write> = Vec::new();
    match platform {
        Platform::Registry => {
            writes.push(Write::RegistryValue { name: key.to_string(), data: value.to_string() });
            writes.push(Write::Notify { area: "Environment".to_string(), timeout_ms: 5000 });
        },
        Platform::ShellFiles => {
            writes.push(
                Write::AppendFile { file: ".profile".to_string(), text: export_line(key, value) },
            );
        },
    }
    writes.push(Write::ProcessVar { key: key.to_string(), value: value.to_string() });
    writes
}

/// What the outcome of one write means to the setter.
pub fn settle(outcome: Result<(), Fault>) -> (result: Result<(), SetError>)
    ensures
        result == settled(outcome),
{
    match outcome {
        Ok(_) => Ok(()),
        Err(Fault::NotDelivered) => Ok(()),
        Err(Fault::Io) => Err(SetError::Io),
        Err(Fault::NoHome) => Err(SetError::NoHome),
    }
}

/// Sets the global variable `key` to `value`: persists it in the store of
/// the host, and puts it into the environment table of the process.
pub fn set_global_env(host: &mut Host, key: &str, value: &str) -> (result: Result<(), SetError>)
    requires
        is_env_key(key@),
    ensures
        result == set_result(old(host)@),
        final(host)@ == after_set(old(host)@, key@, value@),
{
    let writes = set_plan(host.store.platform(), key, value);
    let ghost todo = plan(host@.store.platform(), key@, value@);
    proof {
        law_run_of_plan(host@, key@, value@);
        assert(todo.skip(0) == todo);
    }
    let mut done: usize = 0;
    while done < writes.len()
        invariant
            done <= writes.len() == todo.len(),
            forall|i: int| 0 <= i < writes@.len() ==> writes[i]@ == todo[i],
            run(old(host)@, todo) == run(host@, todo.skip(done as int)),
            run(old(host)@, todo) == (after_set(old(host)@, key@, value@), set_result(old(host)@)),
        decreases writes.len() - done,
    {
        let ghost rest = todo.skip(done as int);
        assert(rest[0] == todo[done as int]);
        assert(rest.drop_first() == todo.skip(done + 1));
        match settle(host.perform(&writes[done])) {
            Ok(_) => {},
            Err(e) => {
                return Err(e);
            },
        }
        done += 1;
    }
    Ok(())
}

} // verus!
