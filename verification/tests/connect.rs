use ex_open_directory::connect::{connect_next, ConnectAction, ConnectEvent};
use ex_open_directory::credentials::{connect_credentials, scan_connect_options, OptValue};
use ex_open_directory::node::{node_target, NodeTarget, NodeTypeArg};
use ex_open_directory::outcome::{call_outcome, err_to_string, same_text};

const NODE_TYPE_ERROR: &str = "node_type must be :local, :search, or {:server, url}";

fn s(x: &str) -> String {
    x.to_string()
}

fn opt(k: &str, v: Option<&str>) -> (String, OptValue) {
    match v {
        Some(t) => (s(k), OptValue::Text(s(t))),
        None => (s(k), OptValue::NotText),
    }
}

#[test]
fn local_atom_opens_local_nodes() {
    assert!(matches!(node_target(&NodeTypeArg::Atom(s("local"))), Ok(NodeTarget::LocalNodes)));
}

#[test]
fn search_atom_opens_authentication_node() {
    assert!(matches!(node_target(&NodeTypeArg::Atom(s("search"))), Ok(NodeTarget::Authentication)));
}

#[test]
fn server_tuple_opens_named_server() {
    let r = node_target(&NodeTypeArg::Tagged(s("server"), s("/LDAPv3/ldap.example.com")));
    match r {
        Ok(NodeTarget::Server(url)) => assert_eq!(url, "/LDAPv3/ldap.example.com"),
        _ => panic!("expected a server target"),
    }
}

#[test]
fn unknown_atom_is_refused() {
    match node_target(&NodeTypeArg::Atom(s("server"))) {
        Err(e) => assert_eq!(e, NODE_TYPE_ERROR),
        Ok(_) => panic!("a bare :server atom names no node"),
    }
}

#[test]
fn wrong_tag_is_refused() {
    match node_target(&NodeTypeArg::Tagged(s("local"), s("x"))) {
        Err(e) => assert_eq!(e, NODE_TYPE_ERROR),
        Ok(_) => panic!("only :server tags a URL"),
    }
}

#[test]
fn other_term_is_refused() {
    match node_target(&NodeTypeArg::Other) {
        Err(e) => assert_eq!(e, NODE_TYPE_ERROR),
        Ok(_) => panic!("expected an error"),
    }
}

#[test]
fn node_type_is_case_sensitive() {
    assert!(node_target(&NodeTypeArg::Atom(s("Local"))).is_err());
}

#[test]
fn no_options_set_no_credentials() {
    assert_eq!(connect_credentials(&vec![]), Ok(None));
}

#[test]
fn both_credentials_are_set() {
    let opts = vec![opt("username", Some("admin")), opt("password", Some("secret"))];
    assert_eq!(connect_credentials(&opts), Ok(Some((s("admin"), s("secret")))));
}

#[test]
fn username_alone_sets_nothing() {
    let opts = vec![opt("username", Some("admin"))];
    assert_eq!(connect_credentials(&opts), Ok(None));
    assert_eq!(scan_connect_options(&opts), Ok((Some(s("admin")), None)));
}

#[test]
fn password_alone_sets_nothing() {
    let opts = vec![opt("password", Some("secret"))];
    assert_eq!(connect_credentials(&opts), Ok(None));
}

#[test]
fn later_option_replaces_earlier() {
    let opts = vec![
        opt("username", Some("first")),
        opt("password", Some("p1")),
        opt("username", Some("second")),
        opt("password", Some("p2")),
    ];
    assert_eq!(connect_credentials(&opts), Ok(Some((s("second"), s("p2")))));
}

#[test]
fn unknown_options_are_ignored() {
    let opts = vec![
        opt("timeout", None),
        opt("username", Some("u")),
        opt("realm", Some("EXAMPLE")),
        opt("password", Some("p")),
    ];
    assert_eq!(connect_credentials(&opts), Ok(Some((s("u"), s("p")))));
}

#[test]
fn non_string_username_is_refused() {
    let opts = vec![opt("username", None), opt("password", Some("p"))];
    assert_eq!(connect_credentials(&opts), Err(s("username must be a string")));
}

#[test]
fn non_string_password_is_refused() {
    let opts = vec![opt("username", Some("u")), opt("password", None)];
    assert_eq!(connect_credentials(&opts), Err(s("password must be a string")));
}

#[test]
fn first_bad_option_is_reported() {
    let opts = vec![opt("password", None), opt("username", None)];
    assert_eq!(scan_connect_options(&opts), Err(s("password must be a string")));
}

#[test]
fn bad_option_is_refused_even_when_replaced_later() {
    let opts = vec![opt("username", None), opt("username", Some("u")), opt("password", Some("p"))];
    assert_eq!(connect_credentials(&opts), Err(s("username must be a string")));
}

#[test]
fn error_description_is_reported() {
    assert_eq!(err_to_string(Some(s("Credentials could not be verified"))), "Credentials could not be verified");
}

#[test]
fn missing_error_is_unknown() {
    assert_eq!(err_to_string(None), "Unknown error");
}

#[test]
fn successful_call_is_ok() {
    assert_eq!(call_outcome(true, Some(s("ignored"))), Ok(()));
}

#[test]
fn failed_call_reports_its_error() {
    assert_eq!(call_outcome(false, Some(s("bad password"))), Err(s("bad password")));
    assert_eq!(call_outcome(false, None), Err(s("Unknown error")));
}

#[test]
fn same_text_compares_whole_strings() {
    assert!(same_text(&s("local"), "local"));
    assert!(!same_text(&s("locale"), "local"));
    assert!(!same_text(&s(""), "local"));
}

fn step(event: ConnectEvent, opts: &Vec<(String, OptValue)>) -> ConnectAction {
    connect_next(&event, opts)
}

#[test]
fn connection_starts_by_opening_the_named_node() {
    let bad = vec![opt("username", None)];
    assert!(matches!(
        step(ConnectEvent::Started(NodeTypeArg::Atom(s("search"))), &bad),
        ConnectAction::OpenNode(NodeTarget::Authentication)
    ));
    match step(ConnectEvent::Started(NodeTypeArg::Other), &bad) {
        ConnectAction::Fail(m) => assert_eq!(m, NODE_TYPE_ERROR),
        _ => panic!("expected the node-type error"),
    }
}

#[test]
fn node_open_failure_wins_over_bad_options() {
    let bad = vec![opt("username", None)];
    match step(ConnectEvent::NodeOpened(false, Some(s("no such node"))), &bad) {
        ConnectAction::Fail(m) => assert_eq!(m, "no such node"),
        _ => panic!("expected the open error"),
    }
    match step(ConnectEvent::NodeOpened(false, None), &bad) {
        ConnectAction::Fail(m) => assert_eq!(m, "Unknown error"),
        _ => panic!("expected the unknown error"),
    }
}

#[test]
fn options_are_read_once_the_node_is_open() {
    let bad = vec![opt("username", None)];
    match step(ConnectEvent::NodeOpened(true, None), &bad) {
        ConnectAction::Fail(m) => assert_eq!(m, "username must be a string"),
        _ => panic!("expected the option error"),
    }
    let both = vec![opt("username", Some("u")), opt("password", Some("p"))];
    match step(ConnectEvent::NodeOpened(true, None), &both) {
        ConnectAction::SetCredentials(u, p) => assert_eq!((u, p), (s("u"), s("p"))),
        _ => panic!("expected credentials"),
    }
    let half = vec![opt("username", Some("u"))];
    assert!(matches!(step(ConnectEvent::NodeOpened(true, None), &half), ConnectAction::Finish));
}

#[test]
fn credential_failure_ends_the_connection() {
    assert!(matches!(step(ConnectEvent::CredentialsSet(true, None), &vec![]), ConnectAction::Finish));
    match step(ConnectEvent::CredentialsSet(false, Some(s("bad password"))), &vec![]) {
        ConnectAction::Fail(m) => assert_eq!(m, "bad password"),
        _ => panic!("expected the credential error"),
    }
}
