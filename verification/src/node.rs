use vstd::prelude::*;
use crate::outcome::same_text;

verus! {

/// The node type a caller asks to connect to, as read off its argument: an
/// atom (by its name), a two-tuple of an atom and a string, or anything else.
pub enum NodeTypeArg {
    Atom(String),
    Tagged(String, String),
    Other,
}

/// The directory node to open: the local nodes, the search (authentication)
/// node that spans all configured directories, or a server named by URL.
pub enum NodeTarget {
    LocalNodes,
    Authentication,
    Server(String),
}

/// The text reported for a node type that names none of the known nodes.
pub open spec fn node_type_error() -> Seq<char> {
    "node_type must be :local, :search, or {:server, url}"@
}

/// Which node a node-type argument names: `:local` the local nodes,
/// `:search` the authentication node, `{:server, url}` the server at `url`;
/// `None` for anything else.
pub open spec fn spec_node_target(arg: NodeTypeArg) -> Option<NodeTarget> {
    match arg {
        NodeTypeArg::Atom(a) => if a@ == "local"@ {
            Some(NodeTarget::LocalNodes)
        } else if a@ == "search"@ {
            Some(NodeTarget::Authentication)
        } else {
            None
        },
        NodeTypeArg::Tagged(tag, url) => if tag@ == "server"@ {
            Some(NodeTarget::Server(url))
        } else {
            None
        },
        NodeTypeArg::Other => None,
    }
}

/// Equality of two node targets up to the view of a server's URL.
pub open spec fn same_target(a: NodeTarget, b: NodeTarget) -> bool {
    match (a, b) {
        (NodeTarget::LocalNodes, NodeTarget::LocalNodes) => true,
        (NodeTarget::Authentication, NodeTarget::Authentication) => true,
        (NodeTarget::Server(x), NodeTarget::Server(y)) => x@ == y@,
        _ => false,
    }
}

/// Chooses the node to open from the caller's node-type argument, or the
/// fixed error text when the argument names no known node.
pub fn node_target(arg: &NodeTypeArg) -> (res: Result<NodeTarget, String>)
    ensures
        match spec_node_target(*arg) {
            Some(t) => res matches Ok(r) && same_target(r, t),
            None => res matches Err(e) && e@ == node_type_error(),
        },
{
    match arg {
        NodeTypeArg::Atom(a) => {
            if same_text(a, "local") {
                Ok(NodeTarget::LocalNodes)
            } else if same_text(a, "search") {
                Ok(NodeTarget::Authentication)
            } else {
                Err(String::from_str("node_type must be :local, :search, or {:server, url}"))
            }
        },
        NodeTypeArg::Tagged(tag, url) => {
            if same_text(tag, "server") {
                Ok(NodeTarget::Server(url.clone()))
            } else {
                Err(String::from_str("node_type must be :local, :search, or {:server, url}"))
            }
        },
        NodeTypeArg::Other => Err(String::from_str("node_type must be :local, :search, or {:server, url}")),
    }
}

/// `:local` names the local nodes and `:search` the authentication node,
/// `{:server, url}` the server at exactly that URL, for every URL; any other
/// atom, any other tag and any other term names no node.
pub proof fn lemma_node_targets(a: String, tag: String, url: String)
    ensures
        a@ == "local"@ ==> spec_node_target(NodeTypeArg::Atom(a)) == Some(NodeTarget::LocalNodes),
        a@ == "search"@ ==> spec_node_target(NodeTypeArg::Atom(a)) == Some(NodeTarget::Authentication),
        a@ != "local"@ && a@ != "search"@ ==> spec_node_target(NodeTypeArg::Atom(a)) is None,
        tag@ == "server"@ ==> spec_node_target(NodeTypeArg::Tagged(tag, url)) == Some(NodeTarget::Server(url)),
        tag@ != "server"@ ==> spec_node_target(NodeTypeArg::Tagged(tag, url)) is None,
        spec_node_target(NodeTypeArg::Other) is None,
{
    reveal_strlit("local");
    reveal_strlit("search");
    assert("local"@[0] != "search"@[0]);
}

} // verus!
