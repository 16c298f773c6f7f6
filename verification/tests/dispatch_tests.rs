use ssh_bridge::auth::{prepare_auth, AuthMethod};
use ssh_bridge::dispatch::{Action, Dispatcher, Step};
use ssh_bridge::protocol::{Command, FileEntry, Response};

fn live_dispatcher() -> Dispatcher {
    let mut d = Dispatcher::new();
    let _ = d.on_connect_result(Ok(()));
    assert!(d.is_active());
    d
}

#[test]
fn idle_rejects_every_session_operation() {
    let not_connected = Response::Error { message: "Not connected".to_string() };
    let cmds = vec![
        Command::Exec { command: "ls".to_string() },
        Command::SftpList { path: "/".to_string() },
        Command::SftpRemove { path: "/f".to_string() },
        Command::SftpMkdir { path: "/d".to_string() },
        Command::SftpRmdir { path: "/d".to_string() },
        Command::GetHomeDir,
        Command::SftpDownload { remote: "/r".to_string(), local: "/l".to_string() },
        Command::SftpUpload { local: "/l".to_string(), remote: "/r".to_string() },
    ];
    for cmd in cmds {
        let mut d = Dispatcher::new();
        let step = d.plan(cmd);
        assert_eq!(step, Step::Reply { response: not_connected.clone() });
        assert!(!d.is_active());
    }
}

#[test]
fn connect_without_credentials_yields_error_and_no_session() {
    let mut d = Dispatcher::new();
    let step = d.plan(Command::Connect {
        host: "h".to_string(),
        port: 22,
        username: "u".to_string(),
        password: None,
        private_key: None,
    });
    let action = match step {
        Step::Perform { action } => action,
        Step::Reply { .. } => panic!("a connect must be attempted"),
    };
    let (password, private_key) = match action {
        Action::Connect { password, private_key, .. } => (password, private_key),
        _ => panic!("wrong action"),
    };
    let err = match prepare_auth(password, private_key) {
        Err(m) => m,
        Ok(_) => panic!("no method could have been chosen"),
    };
    assert_eq!(err, "Missing auth method");
    let r = d.on_connect_result(Err(err));
    assert_eq!(r, Response::Error { message: "Missing auth method".to_string() });
    assert!(!d.is_active());
}

#[test]
fn prepare_auth_prefers_key_and_rejects_bad_key() {
    match prepare_auth(Some("pw".to_string()), None) {
        Ok(AuthMethod::Password { password }) => assert_eq!(password, "pw"),
        _ => panic!("a password must be chosen"),
    }
    // Key material takes precedence over a password, and unparsable key
    // material fails the attempt.
    match prepare_auth(Some("pw".to_string()), Some("not a key".to_string())) {
        Ok(AuthMethod::Password { .. }) => panic!("the key must take precedence"),
        Ok(AuthMethod::Key { .. }) => panic!("this material cannot parse"),
        Err(m) => assert!(!m.is_empty()),
    }
}

#[test]
fn connect_then_disconnect_then_operation() {
    let mut d = Dispatcher::new();
    let _ = d.plan(Command::Connect {
        host: "h".to_string(),
        port: 22,
        username: "u".to_string(),
        password: Some("p".to_string()),
        private_key: None,
    });
    let r = d.on_connect_result(Ok(()));
    assert_eq!(r, Response::Connected);
    assert!(d.is_active());
    let step = d.plan(Command::Disconnect);
    assert_eq!(step, Step::Reply { response: Response::Disconnected });
    assert!(!d.is_active());
    let step = d.plan(Command::Exec { command: "ls".to_string() });
    assert_eq!(
        step,
        Step::Reply { response: Response::Error { message: "Not connected".to_string() } }
    );
}

#[test]
fn disconnect_while_idle_is_idempotent() {
    let mut d = Dispatcher::new();
    let step = d.plan(Command::Disconnect);
    assert_eq!(step, Step::Reply { response: Response::Disconnected });
    assert!(!d.is_active());
}

#[test]
fn connect_while_active_discards_the_old_session() {
    let mut d = live_dispatcher();
    let step = d.plan(Command::Connect {
        host: "h2".to_string(),
        port: 22,
        username: "u".to_string(),
        password: Some("p".to_string()),
        private_key: None,
    });
    assert!(matches!(step, Step::Perform { action: Action::Connect { .. } }));
    assert!(!d.is_active());
    let r = d.on_connect_result(Err("no route to host".to_string()));
    assert_eq!(r, Response::Error { message: "no route to host".to_string() });
    assert!(!d.is_active());
}

#[test]
fn exec_output_is_the_collected_text() {
    let mut d = live_dispatcher();
    let r = d.on_exec_result(Ok(b"hello\n".to_vec()));
    assert_eq!(r, Response::Output { output: "hello\n".to_string() });
    assert!(d.is_active());
}

#[test]
fn exec_output_decodes_lossily() {
    let mut d = live_dispatcher();
    let r = d.on_exec_result(Ok(vec![0x68, 0xff, 0x69]));
    assert_eq!(r, Response::Output { output: "h\u{fffd}i".to_string() });
    let r = d.on_exec_result(Err("channel failure".to_string()));
    assert_eq!(r, Response::Error { message: "channel failure".to_string() });
    assert!(d.is_active());
}

#[test]
fn home_dir_is_the_trimmed_probe_output() {
    let mut d = live_dispatcher();
    let step = d.plan(Command::GetHomeDir);
    assert_eq!(step, Step::Perform { action: Action::HomeDir { command: "echo $HOME".to_string() } });
    let r = d.on_home_dir_result(Ok(b"  /home/alice\n".to_vec()));
    assert_eq!(r, Response::HomeDir { path: "/home/alice".to_string() });
}

#[test]
fn listing_keeps_order_and_defaults_missing_sizes() {
    let mut d = live_dispatcher();
    let raw = vec![
        ("sub".to_string(), true, None),
        ("b.txt".to_string(), false, Some(42u64)),
        ("a.txt".to_string(), false, None),
    ];
    let r = d.on_list_result(Ok(raw));
    assert_eq!(
        r,
        Response::Files {
            files: vec![
                FileEntry { name: "sub".to_string(), is_dir: true, size: 0 },
                FileEntry { name: "b.txt".to_string(), is_dir: false, size: 42 },
                FileEntry { name: "a.txt".to_string(), is_dir: false, size: 0 },
            ],
        }
    );
    let r = d.on_list_result(Err("no such directory".to_string()));
    assert_eq!(r, Response::Error { message: "no such directory".to_string() });
    assert!(d.is_active());
}

#[test]
fn unit_operations_settle_to_ok_or_error() {
    let mut d = live_dispatcher();
    assert_eq!(d.on_unit_result(Ok(())), Response::Okay);
    assert_eq!(
        d.on_unit_result(Err("permission denied".to_string())),
        Response::Error { message: "permission denied".to_string() }
    );
    assert!(d.is_active());
}

#[test]
fn session_operations_map_to_their_actions() {
    let mut d = live_dispatcher();
    assert_eq!(
        d.plan(Command::SftpList { path: "/x".to_string() }),
        Step::Perform { action: Action::List { path: "/x".to_string() } }
    );
    assert_eq!(
        d.plan(Command::SftpRemove { path: "/x".to_string() }),
        Step::Perform { action: Action::Remove { path: "/x".to_string() } }
    );
    assert_eq!(
        d.plan(Command::SftpMkdir { path: "/x".to_string() }),
        Step::Perform { action: Action::Mkdir { path: "/x".to_string() } }
    );
    assert_eq!(
        d.plan(Command::SftpRmdir { path: "/x".to_string() }),
        Step::Perform { action: Action::Rmdir { path: "/x".to_string() } }
    );
    assert_eq!(
        d.plan(Command::SftpDownload { remote: "/r".to_string(), local: "/l".to_string() }),
        Step::Perform { action: Action::Download { remote: "/r".to_string(), local: "/l".to_string() } }
    );
    assert_eq!(
        d.plan(Command::SftpUpload { local: "/l".to_string(), remote: "/r".to_string() }),
        Step::Perform { action: Action::Upload { local: "/l".to_string(), remote: "/r".to_string() } }
    );
}

#[test]
fn malformed_line_is_one_error_and_changes_nothing() {
    let mut d = live_dispatcher();
    let step = d.handle_line("this is not json");
    assert_eq!(
        step,
        Step::Reply { response: Response::Error { message: "malformed JSON line".to_string() } }
    );
    assert!(d.is_active());
    // The next valid command still dispatches normally.
    let step = d.handle_line("{\"cmd\":\"Exec\",\"command\":\"ls\"}");
    assert_eq!(step, Step::Perform { action: Action::Exec { command: "ls".to_string() } });
    assert!(d.is_active());
}

#[test]
fn malformed_line_while_idle_stays_idle() {
    let mut d = Dispatcher::new();
    let step = d.handle_line("{\"cmd\":42}");
    assert!(matches!(step, Step::Reply { response: Response::Error { .. } }));
    assert!(!d.is_active());
    let step = d.handle_line("{\"cmd\":\"Disconnect\"}");
    assert_eq!(step, Step::Reply { response: Response::Disconnected });
}
