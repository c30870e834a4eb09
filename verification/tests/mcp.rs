use antiknob::api::json::Json;
use antiknob::api::mcp::{handle_mcp_request, process_json_rpc, rpc_reply, tool_reply, McpAction, RpcAction, RpcOutcome, RpcReply, ToolOutcome};
use antiknob::api::mcp::{
    mcp_route, method_not_found_message, McpRoute, INTERNAL_ERROR, METHOD_NOT_FOUND, PARSE_ERROR,
    PROTOCOL_VERSION, SERVER_ERROR,
};

#[test]
fn requests_route_by_method() {
    assert_eq!(mcp_route(true, "initialize"), McpRoute::Initialize);
    assert_eq!(mcp_route(true, "ping"), McpRoute::Ping);
    assert_eq!(mcp_route(true, "tools/list"), McpRoute::ListTools);
    assert_eq!(mcp_route(true, "tools/call"), McpRoute::CallTool);
    assert_eq!(mcp_route(true, "tools/cal"), McpRoute::Unknown);
    assert_eq!(mcp_route(true, ""), McpRoute::Unknown);
}

#[test]
fn only_an_id_less_notification_goes_unanswered() {
    assert_eq!(mcp_route(false, "notifications/initialized"), McpRoute::Notification);
    assert_eq!(mcp_route(false, "notifications/"), McpRoute::Notification);
    assert_eq!(mcp_route(true, "notifications/initialized"), McpRoute::Unknown);
    assert_eq!(mcp_route(false, "notification/initialized"), McpRoute::Unknown);
    assert_eq!(mcp_route(false, "ping"), McpRoute::Ping);
}

#[test]
fn an_unknown_method_is_named_in_its_error() {
    assert_eq!(method_not_found_message("resources/list"), "Method 'resources/list' not found");
    assert_eq!(METHOD_NOT_FOUND, -32601);
    assert_eq!(PARSE_ERROR, -32700);
    assert_eq!(SERVER_ERROR, -32000);
    assert_eq!(INTERNAL_ERROR, -32603);
    assert_eq!(PROTOCOL_VERSION, "2024-11-05");
}

#[test]
fn a_tool_call_is_answered_with_its_outcome() {
    assert_eq!(tool_reply("get_status", ToolOutcome::Done("{}".to_string())), ("{}".to_string(), false));
    assert_eq!(
        tool_reply("set_led", ToolOutcome::BadArguments("missing field `mode`".to_string())),
        ("Invalid arguments for tool 'set_led': missing field `mode`".to_string(), true)
    );
    assert_eq!(tool_reply("x", ToolOutcome::Failed("no device".to_string())), ("Error: no device".to_string(), true));
    assert_eq!(tool_reply("x", ToolOutcome::Panicked("boom".to_string())), ("Internal error: boom".to_string(), true));
}


fn to_json(v: serde_json::Value) -> Json {
    match v {
        serde_json::Value::Null => Json::Null,
        serde_json::Value::Bool(b) => Json::Bool(b),
        serde_json::Value::Number(n) => Json::Number(n.to_string()),
        serde_json::Value::String(s) => Json::Str(s),
        serde_json::Value::Array(a) => Json::Array(a.into_iter().map(to_json).collect()),
        serde_json::Value::Object(m) => Json::Object(m.into_iter().map(|(k, x)| (k, to_json(x))).collect()),
    }
}

fn parsed(line: &str) -> Result<Json, String> {
    serde_json::from_str::<serde_json::Value>(line).map(to_json).map_err(|e| e.to_string())
}

fn num(n: &str) -> Json {
    Json::Number(n.to_string())
}

#[test]
fn an_mcp_line_is_answered_by_its_method() {
    assert_eq!(
        handle_mcp_request(parsed(r#"{"jsonrpc":"2.0","id":1,"method":"initialize","params":{}}"#)),
        McpAction::Initialize { id: num("1") }
    );
    assert_eq!(
        handle_mcp_request(parsed(r#"{"id":"a","method":"tools/list"}"#)),
        McpAction::ListTools { id: Json::Str("a".to_string()) }
    );
    assert_eq!(handle_mcp_request(parsed(r#"{"id":2,"method":"ping"}"#)), McpAction::Pong { id: num("2") });
    assert_eq!(handle_mcp_request(parsed(r#"{"method":"notifications/initialized"}"#)), McpAction::Silent);
    assert_eq!(
        handle_mcp_request(parsed(r#"{"id":null,"method":"notifications/initialized"}"#)),
        McpAction::Error {
            id: Json::Null,
            code: -32601,
            message: "Method 'notifications/initialized' not found".to_string()
        }
    );
    assert_eq!(
        handle_mcp_request(parsed(r#"{"id":3,"method":"tools/call","params":{"name":"get_status","arguments":{"json":true}}}"#)),
        McpAction::CallTool {
            id: num("3"),
            tool: "get_status".to_string(),
            arguments: Json::Object(vec![("json".to_string(), Json::Bool(true))])
        }
    );
    assert_eq!(
        handle_mcp_request(parsed(r#"{"id":4,"method":"tools/call"}"#)),
        McpAction::CallTool { id: num("4"), tool: String::new(), arguments: Json::Object(vec![]) }
    );
    assert_eq!(
        handle_mcp_request(parsed(r#"{"id":4,"method":"tools/call","params":{"name":7}}"#)),
        McpAction::CallTool { id: num("4"), tool: String::new(), arguments: Json::Object(vec![]) }
    );
    assert_eq!(
        handle_mcp_request(parsed(r#"{"id":5,"method":"resources/list"}"#)),
        McpAction::Error { id: num("5"), code: -32601, message: "Method 'resources/list' not found".to_string() }
    );
    assert_eq!(
        handle_mcp_request(parsed(r#"{"id":6,"method":12}"#)),
        McpAction::Error { id: num("6"), code: -32601, message: "Method '' not found".to_string() }
    );
    assert_eq!(
        handle_mcp_request(parsed(r#"[1,2]"#)),
        McpAction::Error { id: Json::Null, code: -32601, message: "Method '' not found".to_string() }
    );
    match handle_mcp_request(parsed("not json")) {
        McpAction::Error { id, code, message } => {
            assert_eq!((id, code), (Json::Null, -32700));
            assert!(message.starts_with("Parse error: "), "{message}");
        }
        other => panic!("{other:?}"),
    }
}

#[test]
fn a_socket_line_runs_its_command_or_is_refused() {
    assert_eq!(
        process_json_rpc(parsed(r#"{"id":7,"method":"set_layer","params":{"layer":1}}"#)),
        RpcAction::Run {
            id: num("7"),
            method: "set_layer".to_string(),
            params: Json::Object(vec![("layer".to_string(), num("1"))])
        }
    );
    assert_eq!(
        process_json_rpc(parsed(r#"{"method":"ping"}"#)),
        RpcAction::Run { id: Json::Null, method: "ping".to_string(), params: Json::Object(vec![]) }
    );
    assert!(matches!(process_json_rpc(parsed("{")), RpcAction::Error { code: -32700, .. }));
    assert_eq!(
        rpc_reply(num("7"), "nope", RpcOutcome::BadCommand("unknown variant".to_string())),
        RpcReply::Error { id: num("7"), code: -32601, message: "Unknown method or bad params for 'nope': unknown variant".to_string() }
    );
    assert_eq!(
        rpc_reply(num("7"), "ping", RpcOutcome::Done("{}".to_string())),
        RpcReply::Result { id: num("7"), result: "{}".to_string() }
    );
    assert_eq!(
        rpc_reply(num("7"), "x", RpcOutcome::Failed("bad".to_string())),
        RpcReply::Error { id: num("7"), code: -32000, message: "bad".to_string() }
    );
    assert_eq!(
        rpc_reply(Json::Null, "x", RpcOutcome::Panicked("p".to_string())),
        RpcReply::Error { id: Json::Null, code: -32603, message: "Internal error: p".to_string() }
    );
}
