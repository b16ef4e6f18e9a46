use mer_driver::{
    driver_kind, Category, ConfigError, DriverKind, LocalDriver, MEALArgs, Output,
    ParamMap, Phase, SSHDriver, SessionAction, SessionEvent, SpawnError, MEAL,
};

fn map(pairs: &[(&str, &str)]) -> ParamMap {
    let mut m = ParamMap::new();
    for (k, v) in pairs {
        m.insert(k.to_string(), v.to_string());
    }
    m
}

const TOKENS: [(&str, &str); 4] = [
    ("readyToken", "@!#READY#!@"),
    ("startToken", "@!#START#!@"),
    ("stopToken", "@!#STOP#!@"),
    ("exitToken", "@!#EXIT#!@"),
];

fn descriptor(conn_type: &str, connection: &[(&str, &str)], extra: &[(&str, &str)], skip: Option<&str>) -> MEALArgs {
    let identity = map(&[("uid", "1"), ("name", "DialoGPT-small"), ("connType", conn_type)]);
    let mut exec: Vec<(&str, &str)> = TOKENS.iter().copied().filter(|(k, _)| Some(*k) != skip).collect();
    exec.extend_from_slice(extra);
    MEALArgs { meal_config: vec![identity, map(connection), map(&exec)] }
}

fn local_descriptor() -> MEALArgs {
    descriptor("local", &[], &[("path", "/models/dialo"), ("command", "python3 inference.py")], None)
}

#[test]
fn missing_token_is_config_error() {
    for key in ["readyToken", "startToken", "stopToken", "exitToken"] {
        let args = descriptor("local", &[], &[], Some(key));
        match MEAL::create("local", args) {
            Err(ConfigError::MissingField { driver, category, key: k }) => {
                assert_eq!(driver, Some(DriverKind::Local));
                assert_eq!(category, Category::Execution);
                assert_eq!(k, key);
            }
            other => panic!("unexpected: {:?}", other.map(|m| m.driver_type())),
        }
    }
}

#[test]
fn empty_token_is_config_error() {
    let args = descriptor("remote", &[], &[("stopToken", "")], None);
    assert!(matches!(
        MEAL::create("remote", args),
        Err(ConfigError::EmptyField { driver: Some(DriverKind::Remote), category: Category::Execution, ref key }) if key == "stopToken"
    ));
}

#[test]
fn descriptor_without_execution_group() {
    let args = MEALArgs { meal_config: vec![map(&[("connType", "local")])] };
    assert!(matches!(
        MEAL::create("local", args),
        Err(ConfigError::MissingGroup(Category::Execution))
    ));
}

#[test]
fn unknown_driver_is_named() {
    assert!(matches!(
        MEAL::create("docker", local_descriptor()),
        Err(ConfigError::UnknownDriver(ref t)) if t == "docker"
    ));
    assert!(matches!(driver_kind("ssh"), Err(ConfigError::UnknownDriver(_))));
    assert!(matches!(driver_kind("local"), Ok(DriverKind::Local)));
    assert!(matches!(driver_kind("remote"), Ok(DriverKind::Remote)));
}

#[test]
fn create_selects_driver() {
    let m = MEAL::create("local", local_descriptor()).unwrap();
    let text = m.driver_type();
    assert!(text.starts_with("LocalDriver {\n    static_fields: {\n"));
    assert!(text.contains("        \"name\": \"DialoGPT-small\",\n"));
    assert!(text.contains("    model_params: {\n        \"readyToken\": \"@!#READY#!@\",\n"));
    assert!(text.contains("    connection_params: {},\n}"));
    let m = MEAL::from_descriptor(descriptor("remote", &[], &[], None)).unwrap();
    assert!(m.driver_type().starts_with("SSHDriver {"));
}

#[test]
fn from_descriptor_needs_conn_type() {
    let args = MEALArgs { meal_config: vec![map(&[("name", "x")]), map(&[]), map(&TOKENS)] };
    assert!(matches!(
        MEAL::from_descriptor(args),
        Err(ConfigError::MissingField { driver: None, category: Category::Identity, ref key }) if key == "connType"
    ));
}

#[test]
fn field_lookup() {
    let args = local_descriptor();
    assert_eq!(args.field(Category::Identity, "name").unwrap(), "DialoGPT-small");
    assert!(matches!(
        args.field(Category::Connection, "host"),
        Err(ConfigError::MissingField { category: Category::Connection, .. })
    ));
}

#[test]
fn param_map_later_value_wins() {
    let mut m = ParamMap::new();
    m.insert("k".to_string(), "1".to_string());
    m.insert("k".to_string(), "2".to_string());
    assert_eq!(m.get("k").unwrap(), "2");
    assert_eq!(m.get("j"), None);
}

#[test]
fn missing_workdir_starts_nothing() {
    let d = LocalDriver::new(local_descriptor()).unwrap();
    assert_eq!(d.working_dir().unwrap(), "/models/dialo");
    match d.launch(false) {
        Err(SpawnError::PathNotFound(p)) => assert_eq!(p, "/models/dialo"),
        _ => panic!("expected PathNotFound"),
    }
}

#[test]
fn local_launch_runs_in_workdir() {
    let d = LocalDriver::new(local_descriptor()).unwrap();
    let mut l = d.launch(true).unwrap();
    assert_eq!(l.command, "cd /models/dialo && python3 inference.py");
    assert_eq!(l.relay.phase(), Phase::AwaitingReady);
    assert_eq!(l.relay.on_stdout("@!#READY#!@"), vec![]);
    assert_eq!(l.relay.phase(), Phase::Ready);
}

#[test]
fn local_launch_without_command() {
    let args = descriptor("local", &[], &[("path", "/m")], None);
    let d = LocalDriver::new(args).unwrap();
    assert!(matches!(
        d.launch(true),
        Err(SpawnError::Config(ConfigError::MissingField { driver: Some(DriverKind::Local), category: Category::Execution, ref key })) if key == "command"
    ));
}

fn remote_descriptor() -> MEALArgs {
    descriptor(
        "remote",
        &[("host", "gpu.example"), ("port", "22"), ("user", "model"), ("pass", "pw123")],
        &[("path", "/srv/model"), ("command", "./serve")],
        None,
    )
}

#[test]
fn remote_target_values() {
    let d = SSHDriver::new(remote_descriptor()).unwrap();
    let t = d.target().unwrap();
    assert_eq!(t.address, "gpu.example:22");
    assert_eq!(t.user, "model");
    assert_eq!(t.password, "pw123");
    let d = SSHDriver::new(descriptor("remote", &[("host", "h")], &[], None)).unwrap();
    assert!(matches!(
        d.target(),
        Err(ConfigError::MissingField { driver: Some(DriverKind::Remote), category: Category::Connection, ref key }) if key == "port"
    ));
    assert!(d.begin().is_err());
}

#[test]
fn rejected_credentials_close_transport() {
    let d = SSHDriver::new(remote_descriptor()).unwrap();
    let (mut s, a) = d.begin().unwrap();
    assert!(matches!(a, SessionAction::Connect(ref addr) if addr == "gpu.example:22"));
    assert!(matches!(
        s.on_event(SessionEvent::Connected),
        SessionAction::Authenticate { ref user, ref password } if user == "model" && password == "pw123"
    ));
    assert!(matches!(
        s.on_event(SessionEvent::AuthRejected),
        SessionAction::Abort { error: SpawnError::AuthenticationFailed, close_transport: true }
    ));
    assert!(matches!(s.on_event(SessionEvent::SessionOpened), SessionAction::Ignore));
}

#[test]
fn remote_setup_reaches_relay() {
    let d = SSHDriver::new(remote_descriptor()).unwrap();
    let (mut s, _) = d.begin().unwrap();
    s.on_event(SessionEvent::Connected);
    assert!(matches!(s.on_event(SessionEvent::AuthAccepted), SessionAction::OpenSession));
    assert!(matches!(s.on_event(SessionEvent::SessionOpened), SessionAction::CheckPath(ref p) if p == "/srv/model"));
    assert!(matches!(
        s.on_event(SessionEvent::PathChecked(true)),
        SessionAction::Execute(ref c) if c == "cd /srv/model && ./serve"
    ));
    match s.on_event(SessionEvent::ExecStarted) {
        SessionAction::Relay(mut r) => {
            assert_eq!(r.on_stdout("x@!#READY#!@"), vec![]);
            assert_eq!(r.on_request("hi"), Some("@!#START#!@hi@!#STOP#!@".to_string()));
            assert_eq!(r.on_stdout("@!#START#!@hi@!#STOP#!@"), vec![Output::Response("hi".to_string())]);
        }
        _ => panic!("expected a relay"),
    }
}

#[test]
fn remote_missing_path_aborts() {
    let d = SSHDriver::new(remote_descriptor()).unwrap();
    let (mut s, _) = d.begin().unwrap();
    s.on_event(SessionEvent::Connected);
    s.on_event(SessionEvent::AuthAccepted);
    s.on_event(SessionEvent::SessionOpened);
    assert!(matches!(
        s.on_event(SessionEvent::PathChecked(false)),
        SessionAction::Abort { error: SpawnError::PathNotFound(ref p), close_transport: true } if p == "/srv/model"
    ));
}

#[test]
fn remote_connect_failure() {
    let d = SSHDriver::new(remote_descriptor()).unwrap();
    let (mut s, _) = d.begin().unwrap();
    assert!(matches!(
        s.on_event(SessionEvent::ConnectFailed("refused".to_string())),
        SessionAction::Abort { error: SpawnError::ConnectFailed(ref m), close_transport: false } if m == "refused"
    ));
}

#[test]
fn empty_password_is_a_credential() {
    let d = SSHDriver::new(descriptor(
        "remote",
        &[("host", "h"), ("port", "22"), ("user", "u"), ("pass", "")],
        &[("path", "/p"), ("command", "c")],
        None,
    ))
    .unwrap();
    let t = d.target().unwrap();
    assert_eq!(t.password, "");
}

#[test]
fn failed_path_check_closes_transport() {
    let d = SSHDriver::new(remote_descriptor()).unwrap();
    let (mut s, _) = d.begin().unwrap();
    s.on_event(SessionEvent::Connected);
    s.on_event(SessionEvent::AuthAccepted);
    s.on_event(SessionEvent::SessionOpened);
    assert!(matches!(
        s.on_event(SessionEvent::PathCheckFailed("gone".to_string())),
        SessionAction::Abort { error: SpawnError::SessionFailed(ref m), close_transport: true } if m == "gone"
    ));
}

#[test]
fn password_change_is_not_success() {
    let d = SSHDriver::new(remote_descriptor()).unwrap();
    let (mut s, _) = d.begin().unwrap();
    s.on_event(SessionEvent::Connected);
    assert!(matches!(
        s.on_event(SessionEvent::PasswordChangeRequested("new pw".to_string())),
        SessionAction::Abort { error: SpawnError::PasswordChangeRequested(ref m), close_transport: true } if m == "new pw"
    ));
    let (mut s, _) = d.begin().unwrap();
    s.on_event(SessionEvent::Connected);
    assert!(matches!(
        s.on_event(SessionEvent::AuthError("reset".to_string())),
        SessionAction::Abort { error: SpawnError::ConnectFailed(ref m), close_transport: true } if m == "reset"
    ));
}

#[test]
fn empty_workdir_value_is_accepted() {
    let d = LocalDriver::new(descriptor("local", &[], &[("path", ""), ("command", "run")], None)).unwrap();
    let l = d.launch(true).unwrap();
    assert_eq!(l.command, "cd  && run");
}
