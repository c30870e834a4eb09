//! The MCP server and the daemon's JSON-RPC socket: what a message asks
//! for, and what each is answered. Parsing the line as JSON, running a
//! command, and writing the answer are the caller's.

use vstd::prelude::*;
use crate::api::json::{Json, member, member_of, take_members, text_or_empty};
use crate::text::{push_str, same_text, starts_with};

verus! {

/// The input line is not JSON.
pub const PARSE_ERROR: i32 = -32700;
/// No such method (or, on the daemon socket, bad parameters for it).
pub const METHOD_NOT_FOUND: i32 = -32601;
/// The command ran and failed.
pub const SERVER_ERROR: i32 = -32000;
/// The command panicked.
pub const INTERNAL_ERROR: i32 = -32603;

/// The MCP revision the server speaks.
pub const PROTOCOL_VERSION: &'static str = "2024-11-05";

/// What an MCP message asks for.
#[derive(Debug, Clone, Copy, PartialEq, Eq, Structural)]
pub enum McpRoute {
    /// A notification: no answer is sent.
    Notification,
    Initialize,
    Ping,
    ListTools,
    CallTool,
    /// Answered with `METHOD_NOT_FOUND`.
    Unknown,
}

/// The route of a message with method `method`, which carries an id or not.
/// Only a message without an id is a notification; one with an id is a
/// request, whatever its method is called.
pub open spec fn mcp_route_of(has_id: bool, method: Seq<char>) -> McpRoute {
    if !has_id && "notifications/"@.len() <= method.len() && method.take("notifications/"@.len() as int) == "notifications/"@ {
        McpRoute::Notification
    } else if method == "initialize"@ {
        McpRoute::Initialize
    } else if method == "ping"@ {
        McpRoute::Ping
    } else if method == "tools/list"@ {
        McpRoute::ListTools
    } else if method == "tools/call"@ {
        McpRoute::CallTool
    } else {
        McpRoute::Unknown
    }
}

/// Route one message. A missing method reads as the empty one.
pub fn mcp_route(has_id: bool, method: &str) -> (r: McpRoute)
    ensures
        r == mcp_route_of(has_id, method@),
{
    if !has_id && starts_with(method, "notifications/") {
        McpRoute::Notification
    } else if same_text(method, "initialize") {
        McpRoute::Initialize
    } else if same_text(method, "ping") {
        McpRoute::Ping
    } else if same_text(method, "tools/list") {
        McpRoute::ListTools
    } else if same_text(method, "tools/call") {
        McpRoute::CallTool
    } else {
        McpRoute::Unknown
    }
}

/// The error message for a method the server does not have.
pub open spec fn method_not_found_text(method: Seq<char>) -> Seq<char> {
    "Method '"@ + method + "' not found"@
}

/// The error message for a method the server does not have.
pub fn method_not_found_message(method: &str) -> (r: String)
    ensures
        r@ == method_not_found_text(method@),
{
    let mut s = String::new();
    push_str(&mut s, "Method '");
    push_str(&mut s, method);
    push_str(&mut s, "' not found");
    s
}


/// What an MCP message is answered with. Ids are the request's own JSON
/// value, or `null`.
#[derive(Debug, PartialEq, Eq)]
pub enum McpAction {
    /// A notification: nothing is sent.
    Silent,
    /// A JSON-RPC error.
    Error { id: Json, code: i32, message: String },
    /// The server's protocol version, capabilities and name.
    Initialize { id: Json },
    /// An empty result.
    Pong { id: Json },
    /// The tool list.
    ListTools { id: Json },
    /// Run tool `tool` with `arguments` and answer with `tool_reply`.
    CallTool { id: Json, tool: String, arguments: Json },
}

pub open spec fn parse_error_text(e: Seq<char>) -> Seq<char> {
    "Parse error: "@ + e
}

/// The id an answer carries: the request's, or `null`.
pub open spec fn answer_id(id: Option<Json>) -> Json {
    match id {
        Some(i) => i,
        None => Json::Null,
    }
}

/// Whether `r` is how the MCP server answers `msg`, the parsed line or the
/// parser's error. A line that is not JSON is a parse error. Otherwise the
/// message's `id`, its `method` when that is a string (else the empty
/// one), `params.name` when a string (else empty) and `params.arguments`
/// (else `{}`) decide: a notification without an id is not answered, a
/// known method gets its answer, and any other method is not found.
pub open spec fn mcp_replied(msg: Result<Json, String>, r: McpAction) -> bool {
    match msg {
        Err(e) => r matches McpAction::Error { id, code, message } && id == Json::Null && code == PARSE_ERROR
            && message@ == parse_error_text(e@),
        Ok(j) => {
            let id = member(j, "id"@);
            let rid = answer_id(id);
            let method = text_or_empty(member(j, "method"@));
            let params = member(j, "params"@);
            match mcp_route_of(id is Some, method) {
                McpRoute::Notification => r is Silent,
                McpRoute::Initialize => r == McpAction::Initialize { id: rid },
                McpRoute::Ping => r == McpAction::Pong { id: rid },
                McpRoute::ListTools => r == McpAction::ListTools { id: rid },
                McpRoute::CallTool => r matches McpAction::CallTool { id: i, tool, arguments } && i == rid
                    && tool@ == text_or_empty(member_of(params, "name"@))
                    && match member_of(params, "arguments"@) {
                        Some(a) => arguments == a,
                        None => arguments matches Json::Object(ms) && ms@.len() == 0,
                    },
                McpRoute::Unknown => r matches McpAction::Error { id: i, code, message } && i == rid
                    && code == METHOD_NOT_FOUND && message@ == method_not_found_text(method),
            }
        },
    }
}

fn parse_error_message(e: &str) -> (r: String)
    ensures
        r@ == parse_error_text(e@),
{
    let mut s = String::new();
    push_str(&mut s, "Parse error: ");
    push_str(&mut s, e);
    s
}

fn id_or_null(id: Option<Json>) -> (r: Json)
    ensures
        r == answer_id(id),
{
    match id {
        Some(i) => i,
        None => Json::Null,
    }
}

/// The text of a string value, or the empty text.
fn text_or_empty_exec(j: Option<Json>) -> (r: String)
    ensures
        r@ == text_or_empty(j),
{
    match j {
        Some(Json::Str(s)) => s,
        _ => String::new(),
    }
}

/// The id, method and params of a message.
fn message_parts(j: Json) -> (r: (Option<Json>, String, Option<Json>))
    ensures
        r.0 == member(j, "id"@),
        r.1@ == text_or_empty(member(j, "method"@)),
        r.2 == member(j, "params"@),
{
    let keys: Vec<&str> = vec!["id", "method", "params"];
    proof {
        reveal_strlit("id");
        reveal_strlit("method");
        reveal_strlit("params");
        assert(keys@[0]@.len() == 2 && keys@[1]@.len() == 6 && keys@[2]@.len() == 6);
        assert(keys@[1]@[0] == 'm' && keys@[2]@[0] == 'p');
    }
    let mut got = take_members(j, &keys);
    let params = got.pop().unwrap();
    let method = got.pop().unwrap();
    let id = got.pop().unwrap();
    (id, text_or_empty_exec(method), params)
}

/// Answer one message of the MCP server: the parsed line, or the parser's
/// error.
pub fn handle_mcp_request(msg: Result<Json, String>) -> (r: McpAction)
    ensures
        mcp_replied(msg, r),
{
    match msg {
        Err(e) => {
            let message = parse_error_message(e.as_str());
            McpAction::Error { id: Json::Null, code: PARSE_ERROR, message }
        },
        Ok(j) => {
            let (id, method, params) = message_parts(j);
            let route = mcp_route(id.is_some(), method.as_str());
            match route {
                McpRoute::Notification => McpAction::Silent,
                McpRoute::Initialize => McpAction::Initialize { id: id_or_null(id) },
                McpRoute::Ping => McpAction::Pong { id: id_or_null(id) },
                McpRoute::ListTools => McpAction::ListTools { id: id_or_null(id) },
                McpRoute::CallTool => {
                    let (tool, arguments) = match params {
                        Some(p) => {
                            let keys: Vec<&str> = vec!["name", "arguments"];
                            proof {
                                reveal_strlit("name");
                                reveal_strlit("arguments");
                                assert(keys@[0]@.len() == 4 && keys@[1]@.len() == 9);
                            }
                            let mut got = take_members(p, &keys);
                            let arguments = got.pop().unwrap();
                            let name = got.pop().unwrap();
                            (text_or_empty_exec(name), arguments)
                        },
                        None => (String::new(), None),
                    };
                    let arguments = match arguments {
                        Some(a) => a,
                        None => Json::Object(Vec::new()),
                    };
                    McpAction::CallTool { id: id_or_null(id), tool, arguments }
                },
                McpRoute::Unknown => {
                    let message = method_not_found_message(method.as_str());
                    McpAction::Error { id: id_or_null(id), code: METHOD_NOT_FOUND, message }
                },
            }
        },
    }
}

/// How a tool call went.
#[derive(Debug, Clone, PartialEq, Eq)]
pub enum ToolOutcome {
    /// The arguments do not make that tool's command; the parser's words.
    BadArguments(String),
    /// The command ran; its result as pretty JSON.
    Done(String),
    /// The command failed; its error.
    Failed(String),
    /// The command panicked; the panic's message.
    Panicked(String),
}

/// The text of a tool result, and whether it is an error.
pub open spec fn tool_reply_of(tool: Seq<char>, outcome: ToolOutcome) -> (Seq<char>, bool) {
    match outcome {
        ToolOutcome::BadArguments(e) => ("Invalid arguments for tool '"@ + tool + "': "@ + e@, true),
        ToolOutcome::Done(text) => (text@, false),
        ToolOutcome::Failed(e) => ("Error: "@ + e@, true),
        ToolOutcome::Panicked(m) => ("Internal error: "@ + m@, true),
    }
}

/// The text content a tool call is answered with, and whether the answer
/// is marked an error.
pub fn tool_reply(tool: &str, outcome: ToolOutcome) -> (r: (String, bool))
    ensures
        (r.0@, r.1) == tool_reply_of(tool@, outcome),
{
    match outcome {
        ToolOutcome::BadArguments(e) => {
            let mut s = String::new();
            push_str(&mut s, "Invalid arguments for tool '");
            push_str(&mut s, tool);
            push_str(&mut s, "': ");
            push_str(&mut s, e.as_str());
            (s, true)
        },
        ToolOutcome::Done(text) => (text, false),
        ToolOutcome::Failed(e) => {
            let mut s = String::new();
            push_str(&mut s, "Error: ");
            push_str(&mut s, e.as_str());
            (s, true)
        },
        ToolOutcome::Panicked(m) => {
            let mut s = String::new();
            push_str(&mut s, "Internal error: ");
            push_str(&mut s, m.as_str());
            (s, true)
        },
    }
}

/// What a line on the daemon's socket asks for.
#[derive(Debug, PartialEq, Eq)]
pub enum RpcAction {
    /// A JSON-RPC error.
    Error { id: Json, code: i32, message: String },
    /// Run the command `method` with `params`, then answer with `rpc_reply`.
    Run { id: Json, method: String, params: Json },
}

/// Whether `r` is how the socket takes `msg`: a line that is not JSON is a
/// parse error; anything else is run as the command its `method` (a
/// string, else empty) and `params` (else `{}`) name.
pub open spec fn rpc_taken(msg: Result<Json, String>, r: RpcAction) -> bool {
    match msg {
        Err(e) => r matches RpcAction::Error { id, code, message } && id == Json::Null && code == PARSE_ERROR
            && message@ == parse_error_text(e@),
        Ok(j) => r matches RpcAction::Run { id, method, params } && id == answer_id(member(j, "id"@))
            && method@ == text_or_empty(member(j, "method"@))
            && match member(j, "params"@) {
                Some(p) => params == p,
                None => params matches Json::Object(ms) && ms@.len() == 0,
            },
    }
}

/// Take one line of the daemon's socket: the parsed line, or the parser's
/// error.
pub fn process_json_rpc(msg: Result<Json, String>) -> (r: RpcAction)
    ensures
        rpc_taken(msg, r),
{
    match msg {
        Err(e) => {
            let message = parse_error_message(e.as_str());
            RpcAction::Error { id: Json::Null, code: PARSE_ERROR, message }
        },
        Ok(j) => {
            let (id, method, params) = message_parts(j);
            let params = match params {
                Some(p) => p,
                None => Json::Object(Vec::new()),
            };
            RpcAction::Run { id: id_or_null(id), method, params }
        },
    }
}

/// How a socket command went.
#[derive(Debug, Clone, PartialEq, Eq)]
pub enum RpcOutcome {
    /// The method and params make no command; the parser's words.
    BadCommand(String),
    /// The command ran; its result as JSON text.
    Done(String),
    /// The command failed; its error.
    Failed(String),
    /// The command panicked; the panic's message.
    Panicked(String),
}

/// A socket answer: a result (JSON text) or an error.
#[derive(Debug, PartialEq, Eq)]
pub enum RpcReply {
    Result { id: Json, result: String },
    Error { id: Json, code: i32, message: String },
}

/// How a socket command is answered.
pub open spec fn rpc_reply_ok(id: Json, method: Seq<char>, outcome: RpcOutcome, r: RpcReply) -> bool {
    match outcome {
        RpcOutcome::BadCommand(e) => r matches RpcReply::Error { id: i, code, message }
            && i == id && code == METHOD_NOT_FOUND
            && message@ == "Unknown method or bad params for '"@ + method + "': "@ + e@,
        RpcOutcome::Done(v) => r matches RpcReply::Result { id: i, result } && i == id && result@ == v@,
        RpcOutcome::Failed(e) => r matches RpcReply::Error { id: i, code, message }
            && i == id && code == SERVER_ERROR && message@ == e@,
        RpcOutcome::Panicked(m) => r matches RpcReply::Error { id: i, code, message }
            && i == id && code == INTERNAL_ERROR && message@ == "Internal error: "@ + m@,
    }
}

/// Answer a socket command with how it went.
pub fn rpc_reply(id: Json, method: &str, outcome: RpcOutcome) -> (r: RpcReply)
    ensures
        rpc_reply_ok(id, method@, outcome, r),
{
    match outcome {
        RpcOutcome::BadCommand(e) => {
            let mut s = String::new();
            push_str(&mut s, "Unknown method or bad params for '");
            push_str(&mut s, method);
            push_str(&mut s, "': ");
            push_str(&mut s, e.as_str());
            RpcReply::Error { id, code: METHOD_NOT_FOUND, message: s }
        },
        RpcOutcome::Done(v) => RpcReply::Result { id, result: v },
        RpcOutcome::Failed(e) => RpcReply::Error { id, code: SERVER_ERROR, message: e },
        RpcOutcome::Panicked(m) => {
            let mut s = String::new();
            push_str(&mut s, "Internal error: ");
            push_str(&mut s, m.as_str());
            RpcReply::Error { id, code: INTERNAL_ERROR, message: s }
        },
    }
}

} // verus!
