//! The `canvas` command line: its help text, its flag handling and the
//! requests that its `debug` commands build for the automation API.
use crate::model::opt_view;
use crate::text::{
    concat2, concat3, join_seq, join_strings, lemma_views_push, owned, parse_u64_str, parse_unsigned,
    parse_usize_str, push_str, str_eq, trim, trim_str, views,
};
use std::collections::VecDeque;
use vstd::prelude::*;

verus! {

/// The help text of the `canvas` command.
pub const HELP_TEXT: &'static str = "canvas - agent/debug CLI

USAGE:
  canvas <COMMAND> [ARGS]

COMMANDS:
  help                                  Show this help
  ping                                  Check whether Canvas app event server is reachable
  done [--route <route_key>] <summary>  Emit a done event from the current terminal node
  debug metrics [--pretty] [--jsonpath p]
  debug graph get [--pretty] [--jsonpath p]
  debug node create|update|move|delete ...
  debug edge create|reconnect|delete ...
  debug inject text|terminal ...
  debug terminal restart --node-id <id>

ENVIRONMENT:
  CANVAS_NODE_UID      Current terminal node uid
  CANVAS_API           Canvas app API base URL (default: http://127.0.0.1:4545)

EXAMPLES:
  canvas done --route fix \"build failed, please fix\"
  canvas debug metrics --pretty
  canvas debug graph get --pretty
  canvas debug node create --kind text --x 200 --y 120 --text \"hello\"
  canvas debug node update --id 2 --working-directory \"../wt-feature-abc\"
  canvas debug inject terminal --node-id 2 --command \"echo ok\" --wait";

/// The position of the first argument equal to `x`.
pub open spec fn first_index(s: Seq<Seq<char>>, x: Seq<char>) -> Option<int>
    decreases s.len(),
{
    if s.len() == 0 {
        None
    } else if s[0] == x {
        Some(0)
    } else {
        match first_index(s.drop_first(), x) {
            Some(i) => Some(i + 1),
            None => None,
        }
    }
}

/// Whether `flag` occurs, and the arguments without its first occurrence.
pub open spec fn popped_flag(args: Seq<Seq<char>>, flag: Seq<char>) -> (bool, Seq<Seq<char>>) {
    match first_index(args, flag) {
        Some(i) => (true, args.remove(i)),
        None => (false, args),
    }
}

/// The argument after the first occurrence of `flag`, if there is one, and
/// the arguments without that occurrence and without the value after it.
pub open spec fn popped_value(args: Seq<Seq<char>>, flag: Seq<char>) -> (
    Option<Seq<char>>,
    Seq<Seq<char>>,
) {
    match first_index(args, flag) {
        Some(i) => if i + 1 < args.len() {
            (Some(args[i + 1]), args.remove(i).remove(i))
        } else {
            (None, args.remove(i))
        },
        None => (None, args),
    }
}

proof fn lemma_first_index(s: Seq<Seq<char>>, x: Seq<char>, i: int)
    requires
        0 <= i <= s.len(),
        forall|j: int| 0 <= j < i ==> s[j] != x,
    ensures
        i < s.len() && s[i] == x ==> first_index(s, x) == Some(i),
        i == s.len() ==> first_index(s, x) is None,
    decreases i,
{
    if i > 0 {
        assert forall|j: int| 0 <= j < i - 1 implies s.drop_first()[j] != x by {
            assert(s.drop_first()[j] == s[j + 1]);
        }
        lemma_first_index(s.drop_first(), x, i - 1);
        if i < s.len() {
            assert(s.drop_first()[i - 1] == s[i]);
        }
    }
}

/// Removes the first occurrence of `flag` and says whether there was one.
pub fn pop_flag(args: &mut VecDeque<String>, flag: &str) -> (r: bool)
    ensures
        (r, views(final(args)@)) == popped_flag(views(old(args)@), flag@),
{
    let ghost start = views(args@);
    let mut idx: usize = 0;
    while idx < args.len()
        invariant
            idx <= args@.len(),
            args@ == old(args)@,
            start == views(old(args)@),
            forall|j: int| 0 <= j < idx ==> start[j] != flag@,
        decreases args@.len() - idx,
    {
        if str_eq(args[idx].as_str(), flag) {
            proof {
                lemma_first_index(start, flag@, idx as int);
            }
            let _ = args.remove(idx);
            assert(views(args@) =~= start.remove(idx as int));
            return true;
        }
        idx += 1;
    }
    proof {
        lemma_first_index(start, flag@, idx as int);
    }
    false
}

/// Removes the first occurrence of `flag` and hands back the argument after
/// it, which it removes too.
pub fn pop_flag_value(args: &mut VecDeque<String>, flag: &str) -> (r: Option<String>)
    ensures
        (opt_view(r), views(final(args)@)) == popped_value(views(old(args)@), flag@),
{
    let ghost start = views(args@);
    let mut idx: usize = 0;
    while idx < args.len()
        invariant
            idx <= args@.len(),
            args@ == old(args)@,
            start == views(old(args)@),
            forall|j: int| 0 <= j < idx ==> start[j] != flag@,
        decreases args@.len() - idx,
    {
        if str_eq(args[idx].as_str(), flag) {
            proof {
                lemma_first_index(start, flag@, idx as int);
            }
            let _ = args.remove(idx);
            let ghost mid = args@;
            assert(views(mid) =~= start.remove(idx as int));
            let value = args.remove(idx);
            match &value {
                Some(v) => {
                    assert(views(args@) =~= start.remove(idx as int).remove(idx as int));
                    assert(start[idx + 1] == v@);
                },
                None => {},
            }
            return value;
        }
        idx += 1;
    }
    proof {
        lemma_first_index(start, flag@, idx as int);
    }
    None
}


/// What a `debug` command asks of the automation API. Coordinates stay the
/// text that was given: they are read as numbers where the request is sent.
#[derive(Debug, Clone, PartialEq)]
pub enum DebugPayload {
    Metrics,
    GraphGet { since_version: Option<u64> },
    NodeCreate {
        kind: String,
        x: Option<String>,
        y: Option<String>,
        text_body: Option<String>,
        title: Option<String>,
        startup_script: Option<String>,
        working_directory: Option<String>,
        image_path: Option<String>,
    },
    NodeUpdate {
        id: usize,
        text_body: Option<String>,
        auto_size: Option<bool>,
        title: Option<String>,
        startup_script: Option<String>,
        working_directory: Option<String>,
    },
    NodeMove { id: usize, x: Option<String>, y: Option<String> },
    NodeDelete { id: usize },
    EdgeCreate { from: usize, to: usize, route_key: Option<String> },
    EdgeReconnect {
        from: usize,
        to: usize,
        new_from: usize,
        new_to: usize,
        new_route_key: Option<String>,
    },
    EdgeDelete { from: usize, to: usize },
    InjectText { node_id: usize, mode: String, text: String },
    InjectTerminal { node_id: usize, command: String, wait: bool, timeout_ms: Option<u64> },
    TerminalRestart { node_id: usize },
}

/// The mathematical value of a [`DebugPayload`].
pub enum PayloadView {
    Metrics,
    GraphGet { since_version: Option<int> },
    NodeCreate {
        kind: Seq<char>,
        x: Option<Seq<char>>,
        y: Option<Seq<char>>,
        text_body: Option<Seq<char>>,
        title: Option<Seq<char>>,
        startup_script: Option<Seq<char>>,
        working_directory: Option<Seq<char>>,
        image_path: Option<Seq<char>>,
    },
    NodeUpdate {
        id: int,
        text_body: Option<Seq<char>>,
        auto_size: Option<bool>,
        title: Option<Seq<char>>,
        startup_script: Option<Seq<char>>,
        working_directory: Option<Seq<char>>,
    },
    NodeMove { id: int, x: Option<Seq<char>>, y: Option<Seq<char>> },
    NodeDelete { id: int },
    EdgeCreate { from: int, to: int, route_key: Option<Seq<char>> },
    EdgeReconnect {
        from: int,
        to: int,
        new_from: int,
        new_to: int,
        new_route_key: Option<Seq<char>>,
    },
    EdgeDelete { from: int, to: int },
    InjectText { node_id: int, mode: Seq<char>, text: Seq<char> },
    InjectTerminal { node_id: int, command: Seq<char>, wait: bool, timeout_ms: Option<int> },
    TerminalRestart { node_id: int },
}

pub open spec fn opt_u64_view(o: Option<u64>) -> Option<int> {
    match o {
        Some(v) => Some(v as int),
        None => None,
    }
}

impl View for DebugPayload {
    type V = PayloadView;

    open spec fn view(&self) -> PayloadView {
        match self {
            DebugPayload::Metrics => PayloadView::Metrics,
            DebugPayload::GraphGet { since_version } => PayloadView::GraphGet {
                since_version: opt_u64_view(*since_version),
            },
            DebugPayload::NodeCreate {
                kind,
                x,
                y,
                text_body,
                title,
                startup_script,
                working_directory,
                image_path,
            } => PayloadView::NodeCreate {
                kind: kind@,
                x: opt_view(*x),
                y: opt_view(*y),
                text_body: opt_view(*text_body),
                title: opt_view(*title),
                startup_script: opt_view(*startup_script),
                working_directory: opt_view(*working_directory),
                image_path: opt_view(*image_path),
            },
            DebugPayload::NodeUpdate {
                id,
                text_body,
                auto_size,
                title,
                startup_script,
                working_directory,
            } => PayloadView::NodeUpdate {
                id: *id as int,
                text_body: opt_view(*text_body),
                auto_size: *auto_size,
                title: opt_view(*title),
                startup_script: opt_view(*startup_script),
                working_directory: opt_view(*working_directory),
            },
            DebugPayload::NodeMove { id, x, y } => PayloadView::NodeMove {
                id: *id as int,
                x: opt_view(*x),
                y: opt_view(*y),
            },
            DebugPayload::NodeDelete { id } => PayloadView::NodeDelete { id: *id as int },
            DebugPayload::EdgeCreate { from, to, route_key } => PayloadView::EdgeCreate {
                from: *from as int,
                to: *to as int,
                route_key: opt_view(*route_key),
            },
            DebugPayload::EdgeReconnect { from, to, new_from, new_to, new_route_key } =>
                PayloadView::EdgeReconnect {
                from: *from as int,
                to: *to as int,
                new_from: *new_from as int,
                new_to: *new_to as int,
                new_route_key: opt_view(*new_route_key),
            },
            DebugPayload::EdgeDelete { from, to } => PayloadView::EdgeDelete {
                from: *from as int,
                to: *to as int,
            },
            DebugPayload::InjectText { node_id, mode, text } => PayloadView::InjectText {
                node_id: *node_id as int,
                mode: mode@,
                text: text@,
            },
            DebugPayload::InjectTerminal { node_id, command, wait, timeout_ms } =>
                PayloadView::InjectTerminal {
                node_id: *node_id as int,
                command: command@,
                wait: *wait,
                timeout_ms: opt_u64_view(*timeout_ms),
            },
            DebugPayload::TerminalRestart { node_id } => PayloadView::TerminalRestart {
                node_id: *node_id as int,
            },
        }
    }
}

/// A request built by a `debug` command, before it is stamped and sent.
#[derive(Debug, Clone)]
pub struct DebugRequest {
    pub action: String,
    pub payload: DebugPayload,
    pub request_id: Option<String>,
}

/// What a `debug` command line comes to: the request, whether to print it
/// pretty, the path to print, and the arguments that nothing read.
pub struct DebugView {
    pub action: Seq<char>,
    pub payload: PayloadView,
    pub request_id: Option<Seq<char>>,
    pub pretty: bool,
    pub jsonpath: Option<Seq<char>>,
    pub warnings: Seq<Seq<char>>,
}

/// A count or an id given on the command line: it must be there and read as
/// a `usize`.
pub open spec fn usize_arg(v: Option<Seq<char>>, name: Seq<char>) -> Result<int, Seq<char>> {
    match v {
        None => Err("error: missing "@ + name),
        Some(s) => match parse_unsigned(s, usize::MAX as int) {
            Some(n) => Ok(n),
            None => Err("error: invalid "@ + name),
        },
    }
}

/// Reads a required `usize` argument.
pub fn parse_usize(value: Option<String>, name: &str) -> (r: Result<usize, String>)
    ensures
        match r {
            Ok(n) => usize_arg(opt_view(value), name@) == Ok::<int, Seq<char>>(n as int),
            Err(e) => usize_arg(opt_view(value), name@) == Err::<int, Seq<char>>(e@),
        },
{
    match value {
        None => Err(concat2("error: missing ", name)),
        Some(v) => match parse_usize_str(v.as_str()) {
            Some(n) => Ok(n),
            None => Err(concat2("error: invalid ", name)),
        },
    }
}


/// `debug graph get`: `--since-version`, read as a `u64` where it can be.
pub open spec fn spec_graph_get(a: Seq<Seq<char>>) -> (PayloadView, Seq<Seq<char>>) {
    let (v, a1) = popped_value(a, "--since-version"@);
    let since = match v {
        Some(s) => parse_unsigned(s, u64::MAX as int),
        None => None,
    };
    (PayloadView::GraphGet { since_version: since }, a1)
}

/// `debug node create`: the kind (text where none is given), the
/// coordinates and the optional fields.
pub open spec fn spec_node_create(a: Seq<Seq<char>>) -> (PayloadView, Seq<Seq<char>>) {
    let (kind, a1) = popped_value(a, "--kind"@);
    let (x, a2) = popped_value(a1, "--x"@);
    let (y, a3) = popped_value(a2, "--y"@);
    let (text, a4) = popped_value(a3, "--text"@);
    let (title, a5) = popped_value(a4, "--title"@);
    let (startup, a6) = popped_value(a5, "--startup-script"@);
    let (wd, a7) = popped_value(a6, "--working-directory"@);
    let (image, a8) = popped_value(a7, "--image-path"@);
    (
        PayloadView::NodeCreate {
            kind: match kind {
                Some(k) => k,
                None => "text"@,
            },
            x,
            y,
            text_body: text,
            title,
            startup_script: startup,
            working_directory: wd,
            image_path: image,
        },
        a8,
    )
}

/// `debug node update`: a required `--id` and the optional fields;
/// `--auto-size` is true exactly when its value is `true`.
pub open spec fn spec_node_update(a: Seq<Seq<char>>) -> Result<
    (PayloadView, Seq<Seq<char>>),
    Seq<char>,
> {
    let (id, a1) = popped_value(a, "--id"@);
    match usize_arg(id, "--id"@) {
        Err(e) => Err(e),
        Ok(id) => {
            let (text, a2) = popped_value(a1, "--text"@);
            let (auto, a3) = popped_value(a2, "--auto-size"@);
            let (title, a4) = popped_value(a3, "--title"@);
            let (startup, a5) = popped_value(a4, "--startup-script"@);
            let (wd, a6) = popped_value(a5, "--working-directory"@);
            Ok(
                (
                    PayloadView::NodeUpdate {
                        id,
                        text_body: text,
                        auto_size: match auto {
                            Some(v) => Some(v == "true"@),
                            None => None,
                        },
                        title,
                        startup_script: startup,
                        working_directory: wd,
                    },
                    a6,
                ),
            )
        },
    }
}

/// `debug node move`: a required `--id` and the coordinates.
pub open spec fn spec_node_move(a: Seq<Seq<char>>) -> Result<(PayloadView, Seq<Seq<char>>), Seq<char>> {
    let (id, a1) = popped_value(a, "--id"@);
    match usize_arg(id, "--id"@) {
        Err(e) => Err(e),
        Ok(id) => {
            let (x, a2) = popped_value(a1, "--x"@);
            let (y, a3) = popped_value(a2, "--y"@);
            Ok((PayloadView::NodeMove { id, x, y }, a3))
        },
    }
}

/// `debug node delete`: a required `--id`.
pub open spec fn spec_node_delete(a: Seq<Seq<char>>) -> Result<
    (PayloadView, Seq<Seq<char>>),
    Seq<char>,
> {
    let (id, a1) = popped_value(a, "--id"@);
    match usize_arg(id, "--id"@) {
        Err(e) => Err(e),
        Ok(id) => Ok((PayloadView::NodeDelete { id }, a1)),
    }
}

/// `debug edge create`: required `--from` and `--to`, an optional `--route`.
pub open spec fn spec_edge_create(a: Seq<Seq<char>>) -> Result<
    (PayloadView, Seq<Seq<char>>),
    Seq<char>,
> {
    let (from, a1) = popped_value(a, "--from"@);
    match usize_arg(from, "--from"@) {
        Err(e) => Err(e),
        Ok(from) => {
            let (to, a2) = popped_value(a1, "--to"@);
            match usize_arg(to, "--to"@) {
                Err(e) => Err(e),
                Ok(to) => {
                    let (route, a3) = popped_value(a2, "--route"@);
                    Ok((PayloadView::EdgeCreate { from, to, route_key: route }, a3))
                },
            }
        },
    }
}

/// `debug edge reconnect`: the edge, its new ends and an optional new route.
pub open spec fn spec_edge_reconnect(a: Seq<Seq<char>>) -> Result<
    (PayloadView, Seq<Seq<char>>),
    Seq<char>,
> {
    let (from, a1) = popped_value(a, "--from"@);
    match usize_arg(from, "--from"@) {
        Err(e) => Err(e),
        Ok(from) => {
            let (to, a2) = popped_value(a1, "--to"@);
            match usize_arg(to, "--to"@) {
                Err(e) => Err(e),
                Ok(to) => {
                    let (nf, a3) = popped_value(a2, "--new-from"@);
                    match usize_arg(nf, "--new-from"@) {
                        Err(e) => Err(e),
                        Ok(new_from) => {
                            let (nt, a4) = popped_value(a3, "--new-to"@);
                            match usize_arg(nt, "--new-to"@) {
                                Err(e) => Err(e),
                                Ok(new_to) => {
                                    let (route, a5) = popped_value(a4, "--new-route"@);
                                    Ok(
                                        (
                                            PayloadView::EdgeReconnect {
                                                from,
                                                to,
                                                new_from,
                                                new_to,
                                                new_route_key: route,
                                            },
                                            a5,
                                        ),
                                    )
                                },
                            }
                        },
                    }
                },
            }
        },
    }
}

/// `debug edge delete`: required `--from` and `--to`.
pub open spec fn spec_edge_delete(a: Seq<Seq<char>>) -> Result<
    (PayloadView, Seq<Seq<char>>),
    Seq<char>,
> {
    let (from, a1) = popped_value(a, "--from"@);
    match usize_arg(from, "--from"@) {
        Err(e) => Err(e),
        Ok(from) => {
            let (to, a2) = popped_value(a1, "--to"@);
            match usize_arg(to, "--to"@) {
                Err(e) => Err(e),
                Ok(to) => Ok((PayloadView::EdgeDelete { from, to }, a2)),
            }
        },
    }
}

/// `debug inject text`: a required `--node-id`, the mode (replace where none
/// is given) and the text (empty where none is given).
pub open spec fn spec_inject_text(a: Seq<Seq<char>>) -> Result<
    (PayloadView, Seq<Seq<char>>),
    Seq<char>,
> {
    let (id, a1) = popped_value(a, "--node-id"@);
    match usize_arg(id, "--node-id"@) {
        Err(e) => Err(e),
        Ok(node_id) => {
            let (mode, a2) = popped_value(a1, "--mode"@);
            let (text, a3) = popped_value(a2, "--text"@);
            Ok(
                (
                    PayloadView::InjectText {
                        node_id,
                        mode: match mode {
                            Some(m) => m,
                            None => "replace"@,
                        },
                        text: match text {
                            Some(t) => t,
                            None => Seq::empty(),
                        },
                    },
                    a3,
                ),
            )
        },
    }
}

/// `debug inject terminal`: a required `--node-id`, the command (empty where
/// none is given), `--wait`, and `--timeout` read as a `u64` where it can be.
pub open spec fn spec_inject_terminal(a: Seq<Seq<char>>) -> Result<
    (PayloadView, Seq<Seq<char>>),
    Seq<char>,
> {
    let (id, a1) = popped_value(a, "--node-id"@);
    match usize_arg(id, "--node-id"@) {
        Err(e) => Err(e),
        Ok(node_id) => {
            let (command, a2) = popped_value(a1, "--command"@);
            let (wait, a3) = popped_flag(a2, "--wait"@);
            let (timeout, a4) = popped_value(a3, "--timeout"@);
            Ok(
                (
                    PayloadView::InjectTerminal {
                        node_id,
                        command: match command {
                            Some(c) => c,
                            None => Seq::empty(),
                        },
                        wait,
                        timeout_ms: match timeout {
                            Some(t) => parse_unsigned(t, u64::MAX as int),
                            None => None,
                        },
                    },
                    a4,
                ),
            )
        },
    }
}

/// `debug terminal restart`: a required `--node-id`.
pub open spec fn spec_terminal_restart(a: Seq<Seq<char>>) -> Result<
    (PayloadView, Seq<Seq<char>>),
    Seq<char>,
> {
    let (id, a1) = popped_value(a, "--node-id"@);
    match usize_arg(id, "--node-id"@) {
        Err(e) => Err(e),
        Ok(node_id) => Ok((PayloadView::TerminalRestart { node_id }, a1)),
    }
}


/// Names the action of a payload that was read.
pub open spec fn with_action(
    action: Seq<char>,
    r: Result<(PayloadView, Seq<Seq<char>>), Seq<char>>,
) -> Result<(Seq<char>, PayloadView, Seq<Seq<char>>), Seq<char>> {
    match r {
        Ok((p, a)) => Ok((action, p, a)),
        Err(e) => Err(e),
    }
}

/// The action, the payload and the arguments left for a `debug` group and
/// operation, or the message of the error.
pub open spec fn spec_op(group: Seq<char>, op: Seq<char>, a: Seq<Seq<char>>) -> Result<
    (Seq<char>, PayloadView, Seq<Seq<char>>),
    Seq<char>,
> {
    if group == "graph"@ && op == "get"@ {
        let (p, r) = spec_graph_get(a);
        Ok(("graph.get"@, p, r))
    } else if group == "node"@ && op == "create"@ {
        let (p, r) = spec_node_create(a);
        Ok(("node.create"@, p, r))
    } else if group == "node"@ && op == "update"@ {
        with_action("node.update"@, spec_node_update(a))
    } else if group == "node"@ && op == "move"@ {
        with_action("node.move"@, spec_node_move(a))
    } else if group == "node"@ && op == "delete"@ {
        with_action("node.delete"@, spec_node_delete(a))
    } else if group == "edge"@ && op == "create"@ {
        with_action("edge.create"@, spec_edge_create(a))
    } else if group == "edge"@ && op == "reconnect"@ {
        with_action("edge.reconnect"@, spec_edge_reconnect(a))
    } else if group == "edge"@ && op == "delete"@ {
        with_action("edge.delete"@, spec_edge_delete(a))
    } else if group == "inject"@ && op == "text"@ {
        with_action("inject.text"@, spec_inject_text(a))
    } else if group == "inject"@ && op == "terminal"@ {
        with_action("inject.terminal"@, spec_inject_terminal(a))
    } else if group == "terminal"@ && op == "restart"@ {
        with_action("terminal.restart"@, spec_terminal_restart(a))
    } else {
        Err("error: unknown debug command '"@ + group + " "@ + op + "'"@)
    }
}

/// What a `debug` command line comes to, or the message it fails with.
pub open spec fn debug_outcome(args: Seq<Seq<char>>) -> Result<DebugView, Seq<char>> {
    if args.len() == 0 {
        Err("usage: canvas debug <metrics|graph|node|edge|inject|terminal> ..."@)
    } else {
        let group = args[0];
        let a0 = args.drop_first();
        if group == "metrics"@ {
            let a1 = if a0.len() > 0 && a0[0] == "get"@ {
                a0.drop_first()
            } else {
                a0
            };
            let (pretty, a2) = popped_flag(a1, "--pretty"@);
            let (jsonpath, a3) = popped_value(a2, "--jsonpath"@);
            let (request_id, a4) = popped_value(a3, "--request-id"@);
            Ok(
                DebugView {
                    action: "metrics"@,
                    payload: PayloadView::Metrics,
                    request_id,
                    pretty,
                    jsonpath,
                    warnings: a4,
                },
            )
        } else if a0.len() == 0 {
            Err("usage: canvas debug "@ + group + " <operation> ..."@)
        } else {
            let op = a0[0];
            let (pretty, a2) = popped_flag(a0.drop_first(), "--pretty"@);
            let (jsonpath, a3) = popped_value(a2, "--jsonpath"@);
            let (request_id, a4) = popped_value(a3, "--request-id"@);
            match spec_op(group, op, a4) {
                Ok((action, payload, rest)) => Ok(
                    DebugView { action, payload, request_id, pretty, jsonpath, warnings: rest },
                ),
                Err(e) => Err(e),
            }
        }
    }
}

/// The payload came out as `expected` says, with `after` left over.
pub open spec fn payload_as(
    r: Result<DebugPayload, String>,
    after: Seq<Seq<char>>,
    expected: Result<(PayloadView, Seq<Seq<char>>), Seq<char>>,
) -> bool {
    match r {
        Ok(p) => expected == Ok::<(PayloadView, Seq<Seq<char>>), Seq<char>>((p@, after)),
        Err(e) => expected == Err::<(PayloadView, Seq<Seq<char>>), Seq<char>>(e@),
    }
}

fn graph_get_payload(args: &mut VecDeque<String>) -> (p: DebugPayload)
    ensures
        (p@, views(final(args)@)) == spec_graph_get(views(old(args)@)),
{
    let since_version = match pop_flag_value(args, "--since-version") {
        Some(v) => parse_u64_str(v.as_str()),
        None => None,
    };
    DebugPayload::GraphGet { since_version }
}

fn node_create_payload(args: &mut VecDeque<String>) -> (p: DebugPayload)
    ensures
        (p@, views(final(args)@)) == spec_node_create(views(old(args)@)),
{
    let kind = match pop_flag_value(args, "--kind") {
        Some(k) => k,
        None => owned("text"),
    };
    let x = pop_flag_value(args, "--x");
    let y = pop_flag_value(args, "--y");
    let text_body = pop_flag_value(args, "--text");
    let title = pop_flag_value(args, "--title");
    let startup_script = pop_flag_value(args, "--startup-script");
    let working_directory = pop_flag_value(args, "--working-directory");
    let image_path = pop_flag_value(args, "--image-path");
    DebugPayload::NodeCreate {
        kind,
        x,
        y,
        text_body,
        title,
        startup_script,
        working_directory,
        image_path,
    }
}

fn node_update_payload(args: &mut VecDeque<String>) -> (r: Result<DebugPayload, String>)
    ensures
        payload_as(r, views(final(args)@), spec_node_update(views(old(args)@))),
{
    let id = match parse_usize(pop_flag_value(args, "--id"), "--id") {
        Ok(n) => n,
        Err(e) => return Err(e),
    };
    let text_body = pop_flag_value(args, "--text");
    let auto_size = match pop_flag_value(args, "--auto-size") {
        Some(v) => Some(str_eq(v.as_str(), "true")),
        None => None,
    };
    let title = pop_flag_value(args, "--title");
    let startup_script = pop_flag_value(args, "--startup-script");
    let working_directory = pop_flag_value(args, "--working-directory");
    Ok(
        DebugPayload::NodeUpdate {
            id,
            text_body,
            auto_size,
            title,
            startup_script,
            working_directory,
        },
    )
}

fn node_move_payload(args: &mut VecDeque<String>) -> (r: Result<DebugPayload, String>)
    ensures
        payload_as(r, views(final(args)@), spec_node_move(views(old(args)@))),
{
    let id = match parse_usize(pop_flag_value(args, "--id"), "--id") {
        Ok(n) => n,
        Err(e) => return Err(e),
    };
    let x = pop_flag_value(args, "--x");
    let y = pop_flag_value(args, "--y");
    Ok(DebugPayload::NodeMove { id, x, y })
}

fn node_delete_payload(args: &mut VecDeque<String>) -> (r: Result<DebugPayload, String>)
    ensures
        payload_as(r, views(final(args)@), spec_node_delete(views(old(args)@))),
{
    let id = match parse_usize(pop_flag_value(args, "--id"), "--id") {
        Ok(n) => n,
        Err(e) => return Err(e),
    };
    Ok(DebugPayload::NodeDelete { id })
}

fn edge_create_payload(args: &mut VecDeque<String>) -> (r: Result<DebugPayload, String>)
    ensures
        payload_as(r, views(final(args)@), spec_edge_create(views(old(args)@))),
{
    let from = match parse_usize(pop_flag_value(args, "--from"), "--from") {
        Ok(n) => n,
        Err(e) => return Err(e),
    };
    let to = match parse_usize(pop_flag_value(args, "--to"), "--to") {
        Ok(n) => n,
        Err(e) => return Err(e),
    };
    let route_key = pop_flag_value(args, "--route");
    Ok(DebugPayload::EdgeCreate { from, to, route_key })
}

fn edge_reconnect_payload(args: &mut VecDeque<String>) -> (r: Result<DebugPayload, String>)
    ensures
        payload_as(r, views(final(args)@), spec_edge_reconnect(views(old(args)@))),
{
    let from = match parse_usize(pop_flag_value(args, "--from"), "--from") {
        Ok(n) => n,
        Err(e) => return Err(e),
    };
    let to = match parse_usize(pop_flag_value(args, "--to"), "--to") {
        Ok(n) => n,
        Err(e) => return Err(e),
    };
    let new_from = match parse_usize(pop_flag_value(args, "--new-from"), "--new-from") {
        Ok(n) => n,
        Err(e) => return Err(e),
    };
    let new_to = match parse_usize(pop_flag_value(args, "--new-to"), "--new-to") {
        Ok(n) => n,
        Err(e) => return Err(e),
    };
    let new_route_key = pop_flag_value(args, "--new-route");
    Ok(DebugPayload::EdgeReconnect { from, to, new_from, new_to, new_route_key })
}

fn edge_delete_payload(args: &mut VecDeque<String>) -> (r: Result<DebugPayload, String>)
    ensures
        payload_as(r, views(final(args)@), spec_edge_delete(views(old(args)@))),
{
    let from = match parse_usize(pop_flag_value(args, "--from"), "--from") {
        Ok(n) => n,
        Err(e) => return Err(e),
    };
    let to = match parse_usize(pop_flag_value(args, "--to"), "--to") {
        Ok(n) => n,
        Err(e) => return Err(e),
    };
    Ok(DebugPayload::EdgeDelete { from, to })
}

fn inject_text_payload(args: &mut VecDeque<String>) -> (r: Result<DebugPayload, String>)
    ensures
        payload_as(r, views(final(args)@), spec_inject_text(views(old(args)@))),
{
    let node_id = match parse_usize(pop_flag_value(args, "--node-id"), "--node-id") {
        Ok(n) => n,
        Err(e) => return Err(e),
    };
    let mode = match pop_flag_value(args, "--mode") {
        Some(m) => m,
        None => owned("replace"),
    };
    let text = match pop_flag_value(args, "--text") {
        Some(t) => t,
        None => String::new(),
    };
    Ok(DebugPayload::InjectText { node_id, mode, text })
}

fn inject_terminal_payload(args: &mut VecDeque<String>) -> (r: Result<DebugPayload, String>)
    ensures
        payload_as(r, views(final(args)@), spec_inject_terminal(views(old(args)@))),
{
    let node_id = match parse_usize(pop_flag_value(args, "--node-id"), "--node-id") {
        Ok(n) => n,
        Err(e) => return Err(e),
    };
    let command = match pop_flag_value(args, "--command") {
        Some(c) => c,
        None => String::new(),
    };
    let wait = pop_flag(args, "--wait");
    let timeout_ms = match pop_flag_value(args, "--timeout") {
        Some(t) => parse_u64_str(t.as_str()),
        None => None,
    };
    Ok(DebugPayload::InjectTerminal { node_id, command, wait, timeout_ms })
}

fn terminal_restart_payload(args: &mut VecDeque<String>) -> (r: Result<DebugPayload, String>)
    ensures
        payload_as(r, views(final(args)@), spec_terminal_restart(views(old(args)@))),
{
    let node_id = match parse_usize(pop_flag_value(args, "--node-id"), "--node-id") {
        Ok(n) => n,
        Err(e) => return Err(e),
    };
    Ok(DebugPayload::TerminalRestart { node_id })
}


fn named(action: &str, r: Result<DebugPayload, String>) -> (out: Result<(String, DebugPayload), String>)
    ensures
        match out {
            Ok((a, p)) => r == Ok::<DebugPayload, String>(p) && a@ == action@,
            Err(e) => r == Err::<DebugPayload, String>(e),
        },
{
    match r {
        Ok(p) => Ok((owned(action), p)),
        Err(e) => Err(e),
    }
}

fn op_payload(group: &str, op: &str, args: &mut VecDeque<String>) -> (r: Result<
    (String, DebugPayload),
    String,
>)
    ensures
        match r {
            Ok((action, p)) => spec_op(group@, op@, views(old(args)@)) == Ok::<
                (Seq<char>, PayloadView, Seq<Seq<char>>),
                Seq<char>,
            >((action@, p@, views(final(args)@))),
            Err(e) => spec_op(group@, op@, views(old(args)@)) == Err::<
                (Seq<char>, PayloadView, Seq<Seq<char>>),
                Seq<char>,
            >(e@),
        },
{
    if str_eq(group, "graph") && str_eq(op, "get") {
        let p = graph_get_payload(args);
        Ok((owned("graph.get"), p))
    } else if str_eq(group, "node") && str_eq(op, "create") {
        let p = node_create_payload(args);
        Ok((owned("node.create"), p))
    } else if str_eq(group, "node") && str_eq(op, "update") {
        named("node.update", node_update_payload(args))
    } else if str_eq(group, "node") && str_eq(op, "move") {
        named("node.move", node_move_payload(args))
    } else if str_eq(group, "node") && str_eq(op, "delete") {
        named("node.delete", node_delete_payload(args))
    } else if str_eq(group, "edge") && str_eq(op, "create") {
        named("edge.create", edge_create_payload(args))
    } else if str_eq(group, "edge") && str_eq(op, "reconnect") {
        named("edge.reconnect", edge_reconnect_payload(args))
    } else if str_eq(group, "edge") && str_eq(op, "delete") {
        named("edge.delete", edge_delete_payload(args))
    } else if str_eq(group, "inject") && str_eq(op, "text") {
        named("inject.text", inject_text_payload(args))
    } else if str_eq(group, "inject") && str_eq(op, "terminal") {
        named("inject.terminal", inject_terminal_payload(args))
    } else if str_eq(group, "terminal") && str_eq(op, "restart") {
        named("terminal.restart", terminal_restart_payload(args))
    } else {
        let mut message = owned("error: unknown debug command '");
        push_str(&mut message, group);
        push_str(&mut message, " ");
        push_str(&mut message, op);
        push_str(&mut message, "'");
        Err(message)
    }
}

/// Builds the automation request of a `debug` command line (the arguments
/// after `debug`): the request, whether to print the answer pretty, the path
/// into the answer to print, and the arguments that nothing read.
pub fn try_build_debug_action(args: Vec<String>) -> (r: Result<
    (DebugRequest, bool, Option<String>, Vec<String>),
    String,
>)
    ensures
        match r {
            Ok((request, pretty, jsonpath, warnings)) => debug_outcome(views(args@)) == Ok::<
                DebugView,
                Seq<char>,
            >(
                DebugView {
                    action: request.action@,
                    payload: request.payload@,
                    request_id: opt_view(request.request_id),
                    pretty,
                    jsonpath: opt_view(jsonpath),
                    warnings: views(warnings@),
                },
            ),
            Err(e) => debug_outcome(views(args@)) == Err::<DebugView, Seq<char>>(e@),
        },
{
    let mut queue: VecDeque<String> = VecDeque::new();
    let mut i: usize = 0;
    while i < args.len()
        invariant
            i <= args@.len(),
            views(queue@) == views(args@).subrange(0, i as int),
        decreases args@.len() - i,
    {
        let ghost before = queue@;
        queue.push_back(args[i].clone());
        proof {
            lemma_views_push(before, queue@.last());
            assert(views(args@).subrange(0, i + 1) =~= views(args@).subrange(0, i as int).push(
                args@[i as int]@,
            ));
        }
        i += 1;
    }
    assert(views(args@).subrange(0, i as int) =~= views(args@));
    let ghost all = views(queue@);
    let group = match queue.pop_front() {
        Some(g) => g,
        None => {
            return Err(owned("usage: canvas debug <metrics|graph|node|edge|inject|terminal> ..."));
        },
    };
    assert(views(queue@) =~= all.drop_first());
    let op: Option<String>;
    if str_eq(group.as_str(), "metrics") {
        if queue.len() > 0 && str_eq(queue[0].as_str(), "get") {
            let ghost a0 = views(queue@);
            let _ = queue.pop_front();
            assert(views(queue@) =~= a0.drop_first());
        }
        op = None;
    } else {
        match queue.pop_front() {
            Some(o) => {
                assert(views(queue@) =~= all.drop_first().drop_first());
                op = Some(o);
            },
            None => {
                return Err(concat3("usage: canvas debug ", group.as_str(), " <operation> ..."));
            },
        }
    }
    let pretty = pop_flag(&mut queue, "--pretty");
    let jsonpath = pop_flag_value(&mut queue, "--jsonpath");
    let request_id = pop_flag_value(&mut queue, "--request-id");
    let (action, payload) = match op {
        None => (owned("metrics"), DebugPayload::Metrics),
        Some(o) => match op_payload(group.as_str(), o.as_str(), &mut queue) {
            Ok(found) => found,
            Err(e) => return Err(e),
        },
    };
    let mut warnings: Vec<String> = Vec::new();
    let mut j: usize = 0;
    while j < queue.len()
        invariant
            j <= queue@.len(),
            views(warnings@) == views(queue@).subrange(0, j as int),
        decreases queue@.len() - j,
    {
        let ghost before = warnings@;
        warnings.push(queue[j].clone());
        proof {
            lemma_views_push(before, warnings@.last());
            assert(views(queue@).subrange(0, j + 1) =~= views(queue@).subrange(0, j as int).push(
                queue@[j as int]@,
            ));
        }
        j += 1;
    }
    assert(views(queue@).subrange(0, j as int) =~= views(queue@));
    Ok((DebugRequest { action, payload, request_id }, pretty, jsonpath, warnings))
}

/// What a `done` command line comes to: the trimmed route key given with
/// `--route` (none where blank), and the remaining arguments joined by
/// spaces and trimmed as the summary; a usage message where the summary is
/// empty.
pub open spec fn done_outcome(args: Seq<Seq<char>>) -> Result<(Option<Seq<char>>, Seq<char>), Seq<char>> {
    let (route, rest) = popped_value(args, "--route"@);
    let key = match route {
        Some(r) => if trim(r).len() > 0 {
            Some(trim(r))
        } else {
            None
        },
        None => None,
    };
    let summary = trim(join_seq(rest, " "@));
    if summary.len() == 0 {
        Err("usage: canvas done [--route <route_key>] \"summary\""@)
    } else {
        Ok((key, summary))
    }
}

/// Reads the arguments of `canvas done`: the route key and the summary.
pub fn parse_done_args(args: Vec<String>) -> (r: Result<(Option<String>, String), String>)
    ensures
        match r {
            Ok((key, summary)) => done_outcome(views(args@)) == Ok::<(Option<Seq<char>>, Seq<char>), Seq<char>>(
                (opt_view(key), summary@),
            ),
            Err(e) => done_outcome(views(args@)) == Err::<(Option<Seq<char>>, Seq<char>), Seq<char>>(e@),
        },
{
    let mut queue: VecDeque<String> = VecDeque::new();
    let mut i: usize = 0;
    while i < args.len()
        invariant
            i <= args@.len(),
            views(queue@) == views(args@).subrange(0, i as int),
        decreases args@.len() - i,
    {
        let ghost before = queue@;
        queue.push_back(args[i].clone());
        proof {
            lemma_views_push(before, queue@.last());
            assert(views(args@).subrange(0, i + 1) =~= views(args@).subrange(0, i as int).push(
                args@[i as int]@,
            ));
        }
        i += 1;
    }
    assert(views(args@).subrange(0, i as int) =~= views(args@));
    let route = pop_flag_value(&mut queue, "--route");
    let key = match route {
        Some(r) => {
            let t = trim_str(r.as_str());
            if t.as_str().is_empty() {
                None
            } else {
                Some(t)
            }
        },
        None => None,
    };
    let mut rest: Vec<String> = Vec::new();
    let mut j: usize = 0;
    while j < queue.len()
        invariant
            j <= queue@.len(),
            views(rest@) == views(queue@).subrange(0, j as int),
        decreases queue@.len() - j,
    {
        let ghost before = rest@;
        rest.push(queue[j].clone());
        proof {
            lemma_views_push(before, rest@.last());
            assert(views(queue@).subrange(0, j + 1) =~= views(queue@).subrange(0, j as int).push(
                queue@[j as int]@,
            ));
        }
        j += 1;
    }
    assert(views(queue@).subrange(0, j as int) =~= views(queue@));
    let summary = trim_str(join_strings(&rest, " ").as_str());
    if summary.as_str().is_empty() {
        return Err(owned("usage: canvas done [--route <route_key>] \"summary\""));
    }
    Ok((key, summary))
}

} // verus!
