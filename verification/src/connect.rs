use vstd::prelude::*;
use crate::credentials::{connect_credentials, credentials_to_set, scan_credentials, OptValue};
use crate::node::{node_target, node_type_error, same_target, spec_node_target, NodeTarget, NodeTypeArg};
use crate::outcome::{err_to_string, error_text, opt_view};

verus! {

/// What has just happened while a connection is being made.
pub enum ConnectEvent {
    /// The caller asked to connect with this node-type argument.
    Started(NodeTypeArg),
    /// The node was opened (`true`) or not, with the error the directory left.
    NodeOpened(bool, Option<String>),
    /// The credentials were accepted (`true`) or not, with the error left.
    CredentialsSet(bool, Option<String>),
}

/// What the connection has to do next.
pub enum ConnectAction {
    /// Stop, and report this text to the caller.
    Fail(String),
    /// Open this directory node.
    OpenNode(NodeTarget),
    /// Set these credentials (username, password) on the opened node.
    SetCredentials(String, String),
    /// Hand the opened node to the caller.
    Finish,
}

/// The next step of a connection, by the views of its texts.
pub enum ConnectStep {
    Fail(Seq<char>),
    OpenNode(NodeTarget),
    SetCredentials(Seq<char>, Seq<char>),
    Finish,
}

/// The next step after an event, given the connection's options: the node
/// type is checked first; the options are read only once the node is open;
/// credentials are set only when both are given; any failure ends the
/// connection with its text.
pub open spec fn spec_connect_next(event: ConnectEvent, opts: Seq<(String, OptValue)>) -> ConnectStep {
    match event {
        ConnectEvent::Started(arg) => match spec_node_target(arg) {
            Some(t) => ConnectStep::OpenNode(t),
            None => ConnectStep::Fail(node_type_error()),
        },
        ConnectEvent::NodeOpened(ok, err) => if !ok {
            ConnectStep::Fail(error_text(opt_view(err)))
        } else {
            match credentials_to_set(scan_credentials(opts)) {
                Err(e) => ConnectStep::Fail(e),
                Ok(Some((u, p))) => ConnectStep::SetCredentials(u, p),
                Ok(None) => ConnectStep::Finish,
            }
        },
        ConnectEvent::CredentialsSet(ok, err) => if ok {
            ConnectStep::Finish
        } else {
            ConnectStep::Fail(error_text(opt_view(err)))
        },
    }
}

/// Whether an action is the step, up to the views of its texts.
pub open spec fn is_step(action: ConnectAction, step: ConnectStep) -> bool {
    match (action, step) {
        (ConnectAction::Fail(m), ConnectStep::Fail(s)) => m@ == s,
        (ConnectAction::OpenNode(a), ConnectStep::OpenNode(b)) => same_target(a, b),
        (ConnectAction::SetCredentials(u, p), ConnectStep::SetCredentials(su, sp)) => u@ == su && p@ == sp,
        (ConnectAction::Finish, ConnectStep::Finish) => true,
        _ => false,
    }
}

/// Decides the next step of a connection from what has just happened and
/// the connection's options.
pub fn connect_next(event: &ConnectEvent, opts: &Vec<(String, OptValue)>) -> (action: ConnectAction)
    ensures
        is_step(action, spec_connect_next(*event, opts@)),
{
    match event {
        ConnectEvent::Started(arg) => match node_target(arg) {
            Ok(t) => ConnectAction::OpenNode(t),
            Err(m) => ConnectAction::Fail(m),
        },
        ConnectEvent::NodeOpened(ok, err) => {
            if !*ok {
                ConnectAction::Fail(err_to_string(err.clone()))
            } else {
                match connect_credentials(opts) {
                    Err(e) => ConnectAction::Fail(e),
                    Ok(Some((u, p))) => ConnectAction::SetCredentials(u, p),
                    Ok(None) => ConnectAction::Finish,
                }
            }
        },
        ConnectEvent::CredentialsSet(ok, err) => {
            if *ok {
                ConnectAction::Finish
            } else {
                ConnectAction::Fail(err_to_string(err.clone()))
            }
        },
    }
}

/// The node type is checked before anything else: at the start the next step
/// does not depend on the options, and it is either opening the node that
/// the argument names or failing with the node-type error.
pub proof fn lemma_connect_checks_node_type_first(
    arg: NodeTypeArg,
    opts1: Seq<(String, OptValue)>,
    opts2: Seq<(String, OptValue)>,
)
    ensures
        spec_connect_next(ConnectEvent::Started(arg), opts1) == spec_connect_next(ConnectEvent::Started(arg), opts2),
        spec_connect_next(ConnectEvent::Started(arg), opts1) is OpenNode
            || spec_connect_next(ConnectEvent::Started(arg), opts1) == ConnectStep::Fail(node_type_error()),
{
}

/// The options are read only once the node is open: a node that fails to
/// open ends the connection with the directory's error, whatever the options
/// say; credentials are set only after the node opened, and only with both a
/// username and a password.
pub proof fn lemma_connect_reads_options_after_open(
    err: Option<String>,
    opts: Seq<(String, OptValue)>,
    event: ConnectEvent,
)
    ensures
        spec_connect_next(ConnectEvent::NodeOpened(false, err), opts) == ConnectStep::Fail(error_text(opt_view(err))),
        spec_connect_next(event, opts) matches ConnectStep::SetCredentials(u, p) ==> {
            &&& event matches ConnectEvent::NodeOpened(ok, _) && ok
            &&& scan_credentials(opts) == Ok::<(Option<Seq<char>>, Option<Seq<char>>), Seq<char>>((Some(u), Some(p)))
        },
        spec_connect_next(event, opts) is Finish ==> {
            ||| event matches ConnectEvent::CredentialsSet(ok, _) && ok
            ||| event matches ConnectEvent::NodeOpened(ok, _) && ok && credentials_to_set(scan_credentials(opts)) == Ok::<Option<(Seq<char>, Seq<char>)>, Seq<char>>(None)
        },
{
}

/// Once the node is open, options that name both a username and a password
/// lead to setting exactly those credentials, and options that fail lead to
/// failing with their error; a node opened without credentials is handed
/// back; credentials that are refused end the connection with their error.
pub proof fn lemma_connect_sets_given_credentials(opts: Seq<(String, OptValue)>, u: Seq<char>, p: Seq<char>, err: Option<String>)
    ensures
        scan_credentials(opts) == Ok::<(Option<Seq<char>>, Option<Seq<char>>), Seq<char>>((Some(u), Some(p)))
            ==> spec_connect_next(ConnectEvent::NodeOpened(true, err), opts) == ConnectStep::SetCredentials(u, p),
        scan_credentials(opts) matches Err(e)
            ==> spec_connect_next(ConnectEvent::NodeOpened(true, err), opts) == ConnectStep::Fail(e),
        spec_connect_next(ConnectEvent::CredentialsSet(true, err), opts) == ConnectStep::Finish,
        spec_connect_next(ConnectEvent::CredentialsSet(false, err), opts) == ConnectStep::Fail(error_text(opt_view(err))),
{
}

} // verus!
