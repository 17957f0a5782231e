use global_env::setter::{is_valid_key, set_plan, settle};
use global_env::{set_global_env, Fault, Host, Platform, SetError, Store, Table, Write};

fn value(text: &str) -> Option<String> {
    Some(text.to_string())
}

fn unix_host() -> Host {
    Host {
        process: Table::new(),
        store: Store::ShellFiles { home: Some(Table::new()), writable: true },
    }
}

fn homeless_host() -> Host {
    Host { process: Table::new(), store: Store::ShellFiles { home: None, writable: true } }
}

fn registry_host(listening: bool) -> Host {
    Host {
        process: Table::new(),
        store: Store::Registry {
            user: Some(Table::new()),
            machine: Some(Table::new()),
            writable: true,
            listening,
            notices: Vec::new(),
        },
    }
}

fn home_file(host: &Host, file: &str) -> Option<String> {
    match &host.store {
        Store::ShellFiles { home: Some(files), .. } => files.get(file),
        _ => None,
    }
}

fn user_value(host: &Host, name: &str) -> Option<String> {
    match &host.store {
        Store::Registry { user: Some(values), .. } => values.get(name),
        _ => None,
    }
}

fn notices(host: &Host) -> Vec<String> {
    match &host.store {
        Store::Registry { notices, .. } => notices.clone(),
        _ => Vec::new(),
    }
}

fn machine_value(host: &Host, name: &str) -> Option<String> {
    match &host.store {
        Store::Registry { machine: Some(values), .. } => values.get(name),
        _ => None,
    }
}

#[test]
fn valid_key_is_not_empty_and_has_no_equals_sign() {
    assert!(is_valid_key("FOO"));
    assert!(is_valid_key("MY_TOOL_HOME"));
    assert!(is_valid_key("with space"));
    assert!(is_valid_key("\u{e9}"));
    assert!(!is_valid_key(""));
    assert!(!is_valid_key("="));
    assert!(!is_valid_key("A=B"));
    assert!(!is_valid_key("=A"));
    assert!(!is_valid_key("A="));
}

#[test]
fn plan_for_startup_files_appends_and_sets() {
    let plan = set_plan(Platform::ShellFiles, "FOO", "bar");
    assert_eq!(plan.len(), 2);
    match &plan[0] {
        Write::AppendFile { file, text } => {
            assert_eq!(file, ".profile");
            assert_eq!(text, "export FOO=\"bar\"\n");
        }
        other => panic!("{:?}", other),
    }
    match &plan[1] {
        Write::ProcessVar { key, value } => {
            assert_eq!(key, "FOO");
            assert_eq!(value, "bar");
        }
        other => panic!("{:?}", other),
    }
}

#[test]
fn plan_for_registry_sets_notifies_and_sets() {
    let plan = set_plan(Platform::Registry, "FOO", "bar");
    assert_eq!(plan.len(), 3);
    match &plan[0] {
        Write::RegistryValue { name, data } => {
            assert_eq!(name, "FOO");
            assert_eq!(data, "bar");
        }
        other => panic!("{:?}", other),
    }
    match &plan[1] {
        Write::Notify { area, timeout_ms } => {
            assert_eq!(area, "Environment");
            assert_eq!(*timeout_ms, 5000);
        }
        other => panic!("{:?}", other),
    }
    match &plan[2] {
        Write::ProcessVar { key, value } => {
            assert_eq!(key, "FOO");
            assert_eq!(value, "bar");
        }
        other => panic!("{:?}", other),
    }
}

#[test]
fn settle_lets_an_undelivered_notice_go() {
    assert_eq!(settle(Ok(())), Ok(()));
    assert_eq!(settle(Err(Fault::NotDelivered)), Ok(()));
    assert_eq!(settle(Err(Fault::Io)), Err(SetError::Io));
    assert_eq!(settle(Err(Fault::NoHome)), Err(SetError::NoHome));
}

#[test]
fn perform_writes_where_the_store_is_there() {
    let mut host = unix_host();
    let append = Write::AppendFile { file: "notes".to_string(), text: "a\n".to_string() };
    assert_eq!(host.perform(&append), Ok(()));
    assert_eq!(host.perform(&append), Ok(()));
    assert_eq!(home_file(&host, "notes"), value("a\na\n"));
    let var = Write::ProcessVar { key: "K".to_string(), value: "v".to_string() };
    assert_eq!(host.perform(&var), Ok(()));
    assert_eq!(host.process.get("K"), value("v"));

    let mut host = registry_host(true);
    let set = Write::RegistryValue { name: "K".to_string(), data: "v".to_string() };
    assert_eq!(host.perform(&set), Ok(()));
    assert_eq!(user_value(&host, "K"), value("v"));
    assert_eq!(machine_value(&host, "K"), None);
    let notify = Write::Notify { area: "Environment".to_string(), timeout_ms: 5000 };
    assert_eq!(notices(&host), Vec::<String>::new());
    assert_eq!(host.perform(&notify), Ok(()));
    assert_eq!(notices(&host), vec!["Environment".to_string()]);
    let other = Write::Notify { area: "Policy".to_string(), timeout_ms: 1 };
    assert_eq!(host.perform(&other), Ok(()));
    assert_eq!(notices(&host), vec!["Environment".to_string(), "Policy".to_string()]);
}

#[test]
fn perform_reports_the_fault_and_changes_nothing() {
    let append = Write::AppendFile { file: ".profile".to_string(), text: "a\n".to_string() };
    let set = Write::RegistryValue { name: "K".to_string(), data: "v".to_string() };
    let notify = Write::Notify { area: "Environment".to_string(), timeout_ms: 5000 };

    let mut host = homeless_host();
    assert_eq!(host.perform(&append), Err(Fault::NoHome));
    assert_eq!(host.perform(&set), Err(Fault::Io));
    assert_eq!(host.perform(&notify), Err(Fault::NotDelivered));
    assert_eq!(home_file(&host, ".profile"), None);

    let mut host = registry_host(false);
    assert_eq!(host.perform(&append), Err(Fault::NoHome));
    assert_eq!(host.perform(&notify), Err(Fault::NotDelivered));
    assert_eq!(user_value(&host, "K"), None);
    assert_eq!(notices(&host), Vec::<String>::new());

    let mut host = Host {
        process: Table::new(),
        store: Store::Registry {
            user: None,
            machine: Some(Table::new()),
            writable: true,
            listening: true,
            notices: Vec::new(),
        },
    };
    assert_eq!(host.perform(&set), Err(Fault::Io));
    assert_eq!(machine_value(&host, "K"), None);

    let mut host = Host {
        process: Table::new(),
        store: Store::Registry {
            user: Some(Table::new()),
            machine: None,
            writable: false,
            listening: true,
            notices: Vec::new(),
        },
    };
    assert_eq!(host.perform(&set), Err(Fault::Io));
    assert_eq!(user_value(&host, "K"), None);

    let mut host = Host {
        process: Table::new(),
        store: Store::ShellFiles { home: Some(Table::new()), writable: false },
    };
    assert_eq!(host.perform(&append), Err(Fault::Io));
    assert_eq!(home_file(&host, ".profile"), None);

    let mut host =
        Host { process: Table::new(), store: Store::ShellFiles { home: None, writable: false } };
    assert_eq!(host.perform(&append), Err(Fault::NoHome));
}

#[test]
fn set_appends_one_line_to_profile() {
    let mut host = unix_host();
    assert_eq!(set_global_env(&mut host, "FOO", "bar"), Ok(()));
    assert_eq!(home_file(&host, ".profile"), value("export FOO=\"bar\"\n"));
    assert_eq!(host.process.get("FOO"), value("bar"));
}

#[test]
fn set_twice_appends_two_lines() {
    let mut host = unix_host();
    assert_eq!(set_global_env(&mut host, "FOO", "bar"), Ok(()));
    assert_eq!(set_global_env(&mut host, "FOO", "baz"), Ok(()));
    assert_eq!(home_file(&host, ".profile"), value("export FOO=\"bar\"\nexport FOO=\"baz\"\n"));
    assert_eq!(host.process.get("FOO"), value("baz"));
}

#[test]
fn set_keeps_what_profile_held_and_leaves_other_files() {
    let mut files = Table::new();
    files.set(".profile", "# mine\n");
    files.set(".bashrc", "alias ll='ls -l'\n");
    let mut host = Host {
        process: Table::new(),
        store: Store::ShellFiles { home: Some(files), writable: true },
    };
    assert_eq!(set_global_env(&mut host, "FOO", "bar"), Ok(()));
    assert_eq!(home_file(&host, ".profile"), value("# mine\nexport FOO=\"bar\"\n"));
    assert_eq!(home_file(&host, ".bashrc"), value("alias ll='ls -l'\n"));
}

#[test]
fn set_writes_profile_whatever_the_shell() {
    let mut host = unix_host();
    host.process.set("SHELL", "zsh");
    assert_eq!(set_global_env(&mut host, "FOO", "bar"), Ok(()));
    assert_eq!(home_file(&host, ".profile"), value("export FOO=\"bar\"\n"));
    assert_eq!(home_file(&host, ".zshrc"), None);
}

#[test]
fn set_without_home_fails_and_changes_nothing() {
    let mut host = homeless_host();
    assert_eq!(set_global_env(&mut host, "FOO", "bar"), Err(SetError::NoHome));
    assert_eq!(host.process.get("FOO"), None);
    assert!(matches!(host.store, Store::ShellFiles { home: None, .. }));
}

#[test]
fn set_into_a_home_that_takes_no_write_fails_and_changes_nothing() {
    let mut files = Table::new();
    files.set(".profile", "# mine\n");
    let mut host = Host {
        process: Table::new(),
        store: Store::ShellFiles { home: Some(files), writable: false },
    };
    assert_eq!(set_global_env(&mut host, "FOO", "bar"), Err(SetError::Io));
    assert_eq!(host.process.get("FOO"), None);
    assert_eq!(home_file(&host, ".profile"), value("# mine\n"));
}

#[test]
fn set_under_a_key_that_takes_no_write_fails_and_changes_nothing() {
    let mut host = Host {
        process: Table::new(),
        store: Store::Registry {
            user: Some(Table::new()),
            machine: None,
            writable: false,
            listening: true,
            notices: Vec::new(),
        },
    };
    assert_eq!(set_global_env(&mut host, "FOO", "bar"), Err(SetError::Io));
    assert_eq!(host.process.get("FOO"), None);
    assert_eq!(user_value(&host, "FOO"), None);
    assert_eq!(notices(&host), Vec::<String>::new());
}

#[test]
fn set_puts_the_value_under_the_user_key() {
    let mut host = registry_host(true);
    assert_eq!(set_global_env(&mut host, "FOO", "bar"), Ok(()));
    assert_eq!(user_value(&host, "FOO"), value("bar"));
    assert_eq!(machine_value(&host, "FOO"), None);
    assert_eq!(host.process.get("FOO"), value("bar"));
    assert_eq!(notices(&host), vec!["Environment".to_string()]);
    assert_eq!(set_global_env(&mut host, "FOO", "baz"), Ok(()));
    assert_eq!(user_value(&host, "FOO"), value("baz"));
    assert_eq!(host.process.get("FOO"), value("baz"));
    assert_eq!(notices(&host), vec!["Environment".to_string(), "Environment".to_string()]);
}

#[test]
fn set_succeeds_though_the_notice_is_not_delivered() {
    let mut host = registry_host(false);
    assert_eq!(set_global_env(&mut host, "FOO", "bar"), Ok(()));
    assert_eq!(user_value(&host, "FOO"), value("bar"));
    assert_eq!(host.process.get("FOO"), value("bar"));
    assert_eq!(notices(&host), Vec::<String>::new());
}

#[test]
fn set_without_user_key_fails_and_changes_nothing() {
    let mut host = Host {
        process: Table::new(),
        store: Store::Registry {
            user: None,
            machine: Some(Table::new()),
            writable: true,
            listening: true,
            notices: Vec::new(),
        },
    };
    assert_eq!(set_global_env(&mut host, "FOO", "bar"), Err(SetError::Io));
    assert_eq!(host.process.get("FOO"), None);
    assert_eq!(machine_value(&host, "FOO"), None);
    assert!(matches!(host.store, Store::Registry { user: None, .. }));
}
