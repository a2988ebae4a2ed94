use sshelper::cli::{parse_args, Command};
use sshelper::launch::{plan_connect, ssh_command, ConnectPlan};
use sshelper::store::{Connection, InputError, Store};
use sshelper::text::{parse_u32, push_decimal};

fn profile(name: &str, host: &str, port: u32, user: &str, key: Option<&str>) -> Connection {
    Connection {
        name: name.to_string(),
        host: host.to_string(),
        port,
        username: user.to_string(),
        password: None,
        key_path: key.map(|k| k.to_string()),
    }
}

fn args(words: &[&str]) -> Vec<String> {
    words.iter().map(|w| w.to_string()).collect()
}

#[test]
fn add_to_empty_store_records_the_fields() {
    let mut store = Store::new();
    let r = store.add_connection("box1", "1.2.3.4", "22", "ubuntu", "/home/u/.ssh/id");
    assert!(r.is_ok());
    assert_eq!(store.len(), 1);
    let c = &store.connections[0];
    assert_eq!(c.name, "box1");
    assert_eq!(c.host, "1.2.3.4");
    assert_eq!(c.port, 22);
    assert_eq!(c.username, "ubuntu");
    assert_eq!(c.key_path.as_deref(), Some("/home/u/.ssh/id"));
    assert!(c.password.is_none());
}

#[test]
fn add_trims_every_field() {
    let mut store = Store::new();
    let r = store.add_connection("  box1\n", "\t1.2.3.4 ", " 22\n", "ubuntu\r\n", " /k \n");
    assert!(r.is_ok());
    let c = &store.connections[0];
    assert_eq!(c.name, "box1");
    assert_eq!(c.host, "1.2.3.4");
    assert_eq!(c.port, 22);
    assert_eq!(c.username, "ubuntu");
    assert_eq!(c.key_path.as_deref(), Some("/k"));
}

#[test]
fn add_with_bad_port_is_refused_and_store_unchanged() {
    let mut store = Store::new();
    store.append(profile("a", "h", 1, "u", None));
    let r = store.add_connection("box1", "1.2.3.4", "twenty", "ubuntu", "/k");
    assert!(matches!(r, Err(InputError::InvalidPort)));
    assert_eq!(store.len(), 1);
    let r = store.add_connection("box1", "1.2.3.4", "", "ubuntu", "/k");
    assert!(matches!(r, Err(InputError::InvalidPort)));
    assert_eq!(store.len(), 1);
}

#[test]
fn append_puts_the_record_last() {
    let mut store = Store::new();
    store.append(profile("a", "h1", 1, "u", None));
    store.append(profile("b", "h2", 2, "v", Some("/k")));
    assert_eq!(store.len(), 2);
    let last = &store.connections[1];
    assert_eq!(last.name, "b");
    assert_eq!(last.host, "h2");
    assert_eq!(last.port, 2);
    assert_eq!(last.key_path.as_deref(), Some("/k"));
    assert_eq!(store.connections[0].name, "a");
}

#[test]
fn append_allows_duplicate_names() {
    let mut store = Store::new();
    store.append(profile("dup", "first", 1, "u", None));
    store.append(profile("dup", "second", 2, "u", None));
    assert_eq!(store.len(), 2);
}

#[test]
fn find_by_name_returns_first_of_duplicates() {
    let mut store = Store::new();
    store.append(profile("other", "h0", 1, "u", None));
    store.append(profile("dup", "first", 2, "u", None));
    store.append(profile("dup", "second", 3, "u", None));
    let c = store.find_by_name("dup").expect("a profile named dup");
    assert_eq!(c.host, "first");
    assert_eq!(c.port, 2);
}

#[test]
fn find_by_name_misses() {
    let empty = Store::new();
    assert!(empty.find_by_name("box1").is_none());
    let mut store = Store::new();
    store.append(profile("box1", "h", 1, "u", None));
    assert!(store.find_by_name("box2").is_none());
    assert!(store.find_by_name("Box1").is_none());
}

#[test]
fn list_prints_name_then_host() {
    let mut store = Store::new();
    store.append(profile("box1", "1.2.3.4", 22, "ubuntu", None));
    assert_eq!(store.list_lines(), vec!["Name:box1".to_string(), "Host:1.2.3.4".to_string()]);
}

#[test]
fn list_keeps_store_order() {
    let mut store = Store::new();
    store.append(profile("b", "h2", 1, "u", None));
    store.append(profile("a", "h1", 1, "u", None));
    assert_eq!(store.list_lines(), vec!["Name:b", "Host:h2", "Name:a", "Host:h1"]);
    assert!(Store::new().list_lines().is_empty());
}

#[test]
fn connect_builds_command_with_key() {
    let mut store = Store::new();
    store.append(profile("box1", "1.2.3.4", 22, "ubuntu", Some("/k")));
    match plan_connect(&store, "box1") {
        ConnectPlan::Launch { command, report } => {
            assert_eq!(command, "ssh -v -i /k ubuntu@1.2.3.4 -p 22");
            assert_eq!(
                report,
                vec![
                    "Trying to connect to box1",
                    "SSH Command: ssh -v -i /k ubuntu@1.2.3.4 -p 22",
                    "Username: ubuntu",
                    "Host: 1.2.3.4",
                    "Port: 22",
                    "Key Path: /k",
                ]
            );
        }
        ConnectPlan::NotFound { .. } => panic!("box1 should be found"),
    }
}

#[test]
fn command_without_key_omits_identity_flag() {
    let c = profile("box1", "example.org", 2222, "root", None);
    assert_eq!(ssh_command(&c), "ssh -v root@example.org -p 2222");
}

#[test]
fn connect_on_empty_store_reports_not_found() {
    let store = Store::new();
    match plan_connect(&store, "anything") {
        ConnectPlan::NotFound { message } => {
            assert_eq!(message, "No connection found with the name: anything");
        }
        ConnectPlan::Launch { .. } => panic!("nothing should launch"),
    }
}

#[test]
fn connect_without_name_is_a_usage_error() {
    assert!(matches!(parse_args(&args(&["sshelper", "connect"])), Command::MissingName));
}

#[test]
fn dispatch_recognises_subcommands() {
    assert!(matches!(parse_args(&args(&["sshelper", "add"])), Command::Add));
    assert!(matches!(parse_args(&args(&["sshelper", "list"])), Command::List));
    match parse_args(&args(&["sshelper", "connect", "box1"])) {
        Command::Connect { name } => assert_eq!(name, "box1"),
        _ => panic!("connect with a name"),
    }
    assert!(matches!(parse_args(&args(&["sshelper"])), Command::Unknown));
    assert!(matches!(parse_args(&args(&["sshelper", "remove"])), Command::Unknown));
    assert!(matches!(parse_args(&args(&["sshelper", "ADD"])), Command::Unknown));
}

#[test]
fn port_boundaries_format_in_command() {
    let low = profile("lo", "h", 0, "u", None);
    let high = profile("hi", "h", 65535, "u", Some("/k"));
    assert_eq!(ssh_command(&low), "ssh -v u@h -p 0");
    assert_eq!(ssh_command(&high), "ssh -v -i /k u@h -p 65535");
    assert_eq!(parse_u32("0"), Some(0));
    assert_eq!(parse_u32("65535"), Some(65535));
}

#[test]
fn decimal_text_of_ports() {
    for n in [0u32, 7, 10, 22, 100, 65535, 4294967295] {
        let mut s = String::from("x");
        push_decimal(&mut s, n);
        assert_eq!(s, format!("x{}", n));
        assert_eq!(parse_u32(&s[1..]), Some(n));
    }
}

#[test]
fn parse_u32_edges() {
    assert_eq!(parse_u32("+5"), Some(5));
    assert_eq!(parse_u32("007"), Some(7));
    assert_eq!(parse_u32("4294967295"), Some(4294967295));
    assert_eq!(parse_u32("4294967296"), None);
    assert_eq!(parse_u32("99999999999999999999"), None);
    assert_eq!(parse_u32(""), None);
    assert_eq!(parse_u32("+"), None);
    assert_eq!(parse_u32("-1"), None);
    assert_eq!(parse_u32("12a"), None);
    assert_eq!(parse_u32(" 1"), None);
}
