use mcp_trap_generator::catalog::{Catalog, Example, Protocol};
use mcp_trap_generator::message::{
    Answer, Reply, Request, INVALID_PARAMS, INVALID_REQUEST, METHOD_NOT_FOUND,
};
use mcp_trap_generator::server::DroseraServer;
use serde_json::Value;

fn value(text: &str) -> Value {
    serde_json::from_str(text).unwrap()
}

fn server() -> DroseraServer {
    let mut uniswap = Protocol::new();
    assert!(uniswap.add_network("mainnet".to_string(), "{\"chainId\": 1}"));
    assert!(uniswap.add_abi("IERC20".to_string(), "{\"name\": \"transfer\"}"));
    let mut catalog = Catalog::new();
    assert!(catalog.insert_protocol("uniswap".to_string(), uniswap));
    catalog.add_page(Some("operators".to_string()), "foo", "Run an operator.".to_string());
    catalog.insert_example("bare".to_string(), Example::new());
    DroseraServer::new(catalog)
}

fn request(id: &str, method: &str, uri: &str) -> Request {
    Request { id: value(id), method: method.to_string(), uri: uri.to_string() }
}

fn refusal(id: &str, code: i64, message: &str) -> Option<Reply> {
    Some(Reply { id: value(id), answer: Answer::Failure { code, message: message.to_string() } })
}

#[test]
fn the_server_keeps_its_catalog() {
    let server = server();
    assert_eq!(server.catalog().protocols().len(), 1);
    assert_eq!(server.catalog().documentation().key_at(0), "operators/foo");
}

#[test]
fn initialize_is_answered_with_the_handshake() {
    let server = server();
    assert_eq!(
        server.handle(request("1", "initialize", "")),
        Some(Reply { id: value("1"), answer: Answer::Handshake })
    );
    assert_eq!(
        server.handle(request("\"abc\"", "initialize", "ignored")),
        Some(Reply { id: value("\"abc\""), answer: Answer::Handshake })
    );
}

#[test]
fn initialize_twice_gives_the_same_reply() {
    let server = server();
    let line = "{\"jsonrpc\":\"2.0\",\"id\":1,\"method\":\"initialize\",\"params\":{}}";
    let first = server.process_line(line);
    let listed_between = server.catalog().list();
    let second = server.process_line(line);
    assert_eq!(first, second);
    assert_eq!(
        first,
        Some("{\"id\":1,\"jsonrpc\":\"2.0\",\"result\":{\"capabilities\":{\"resources\":{},\"tools\":{}},\"protocolVersion\":\"2024-11-05\",\"serverInfo\":{\"name\":\"drosera-traps-mcp\",\"version\":\"1.0.0\"}}}".to_string())
    );
    assert_eq!(server.catalog().list(), listed_between);
}

#[test]
fn the_initialized_notification_gets_no_reply() {
    let server = server();
    assert_eq!(server.handle(request("null", "notifications/initialized", "")), None);
    assert_eq!(
        server.handle_request(&value("{\"jsonrpc\":\"2.0\",\"method\":\"notifications/initialized\"}")),
        None
    );
    assert_eq!(
        server.process_line("{\"jsonrpc\":\"2.0\",\"method\":\"notifications/initialized\"}"),
        None
    );
    assert_eq!(
        server.process_line("{\"id\":null,\"method\":\"notifications/initialized\"}"),
        None
    );
}

#[test]
fn a_request_without_id_is_refused() {
    let server = server();
    assert_eq!(
        server.handle(request("null", "initialize", "")),
        refusal("null", INVALID_REQUEST, "Invalid Request: missing id field")
    );
    assert_eq!(
        server.process_line("{\"jsonrpc\":\"2.0\",\"method\":\"resources/list\"}"),
        Some("{\"error\":{\"code\":-32600,\"message\":\"Invalid Request: missing id field\"},\"id\":null,\"jsonrpc\":\"2.0\"}".to_string())
    );
    let response = server.handle_request(&value("{\"id\":null,\"method\":\"tools/list\"}")).unwrap();
    assert_eq!(response["id"], Value::Null);
    assert_eq!(response["error"]["code"], value("-32600"));
    assert_eq!(response.get("result"), None);
}

#[test]
fn a_message_without_id_and_method_is_refused() {
    let server = server();
    let expected = "{\"error\":{\"code\":-32600,\"message\":\"Invalid Request: missing id field\"},\"id\":null,\"jsonrpc\":\"2.0\"}";
    assert_eq!(server.process_line("{}"), Some(expected.to_string()));
    assert_eq!(server.process_line("[]"), Some(expected.to_string()));
    assert_eq!(server.process_line("42"), Some(expected.to_string()));
    assert_eq!(server.process_line("null"), Some(expected.to_string()));
}

#[test]
fn the_tool_and_prompt_lists_are_empty() {
    let server = server();
    assert_eq!(
        server.handle(request("1", "tools/list", "")),
        Some(Reply { id: value("1"), answer: Answer::Tools })
    );
    assert_eq!(
        server.handle(request("2", "prompts/list", "")),
        Some(Reply { id: value("2"), answer: Answer::Prompts })
    );
    assert_eq!(
        server.process_line("{\"id\":1,\"method\":\"tools/list\"}"),
        Some("{\"id\":1,\"jsonrpc\":\"2.0\",\"result\":{\"tools\":[]}}".to_string())
    );
    assert_eq!(
        server.process_line("{\"id\":2,\"method\":\"prompts/list\"}"),
        Some("{\"id\":2,\"jsonrpc\":\"2.0\",\"result\":{\"prompts\":[]}}".to_string())
    );
}

#[test]
fn a_tool_call_is_refused() {
    assert_eq!(
        server().handle(request("1", "tools/call", "")),
        refusal("1", METHOD_NOT_FOUND, "No tools available - use resources instead")
    );
}

#[test]
fn an_unknown_method_is_refused_by_name() {
    let server = server();
    assert_eq!(
        server.handle(request("1", "resources/write", "")),
        refusal("1", METHOD_NOT_FOUND, "Unknown method: resources/write")
    );
    assert_eq!(
        server.handle(request("1", "", "")),
        refusal("1", METHOD_NOT_FOUND, "Unknown method: ")
    );
    assert_eq!(
        server.process_line("{\"id\":\"x\",\"method\":\"ping\"}"),
        Some("{\"error\":{\"code\":-32601,\"message\":\"Unknown method: ping\"},\"id\":\"x\",\"jsonrpc\":\"2.0\"}".to_string())
    );
}

#[test]
fn a_message_with_an_id_is_a_request_whatever_its_method() {
    assert_eq!(
        server().handle(request("1", "notifications/initialized", "")),
        refusal("1", METHOD_NOT_FOUND, "Unknown method: notifications/initialized")
    );
}

#[test]
fn the_resources_are_listed() {
    let server = server();
    assert_eq!(
        server.handle(request("1", "resources/list", "")),
        Some(Reply { id: value("1"), answer: Answer::Resources(server.catalog().list()) })
    );
    let response = server.handle_request(&value("{\"id\":1,\"method\":\"resources/list\"}")).unwrap();
    let resources = response["result"]["resources"].as_array().unwrap();
    assert_eq!(resources.len(), 4);
    assert_eq!(
        resources[0],
        value(
            "{\"uri\": \"protocol://uniswap/misc_data/mainnet\", \
             \"name\": \"Uniswap Mainnet Protocol Data\", \
             \"description\": \"Complete protocol data including contracts, tokens, pools, ABIs, and functions for uniswap on mainnet\", \
             \"mimeType\": \"application/json\"}"
        )
    );
    assert_eq!(resources[1]["uri"], value("\"protocol://uniswap/abi/IERC20\""));
    assert_eq!(resources[2]["uri"], value("\"drosera://operators/foo\""));
    assert_eq!(resources[2]["mimeType"], value("\"text/markdown\""));
    assert_eq!(resources[3]["uri"], value("\"trap-example://bare\""));
}

#[test]
fn every_listed_resource_is_read_through_the_server() {
    let server = server();
    for descriptor in server.catalog().list() {
        let reply = server.handle(request("1", "resources/read", &descriptor.uri)).unwrap();
        assert!(matches!(reply.answer, Answer::Contents(_)));
    }
}

#[test]
fn a_document_is_read_as_raw_text() {
    let server = server();
    assert_eq!(
        server.handle(request("1", "resources/read", "drosera://operators/foo")),
        Some(Reply { id: value("1"), answer: Answer::Contents("Run an operator.".to_string()) })
    );
    assert_eq!(
        server.process_line(
            "{\"id\":1,\"method\":\"resources/read\",\"params\":{\"uri\":\"drosera://operators/foo\"}}"
        ),
        Some("{\"id\":1,\"jsonrpc\":\"2.0\",\"result\":{\"contents\":[{\"text\":\"Run an operator.\",\"type\":\"text\"}]}}".to_string())
    );
}

#[test]
fn a_document_resolves_if_and_only_if_the_catalog_has_its_key() {
    let with = server();
    let without = DroseraServer::new(Catalog::new());
    let ask = "{\"id\":1,\"method\":\"resources/read\",\"params\":{\"uri\":\"drosera://operators/foo\"}}";
    let found = value(&with.process_line(ask).unwrap());
    let missing = value(&without.process_line(ask).unwrap());
    assert_eq!(found["result"]["contents"][0]["text"], value("\"Run an operator.\""));
    assert_eq!(missing["error"]["code"], value("-32602"));
    assert_eq!(
        missing["error"]["message"],
        value("\"Drosera documentation 'operators/foo' not found\"")
    );
}

#[test]
fn a_network_is_read_with_the_interfaces() {
    let server = server();
    let reply = server.handle(request("1", "resources/read", "protocol://uniswap/misc_data/mainnet"));
    assert_eq!(
        reply,
        Some(Reply {
            id: value("1"),
            answer: Answer::Contents(
                "{\n  \"abis\": {\n    \"IERC20\": {\n      \"name\": \"transfer\"\n    }\n  },\n  \"chainId\": 1\n}".to_string()
            )
        })
    );
}

#[test]
fn reading_a_missing_protocol_names_the_protocol() {
    let server = server();
    assert_eq!(
        server.handle(request("1", "resources/read", "protocol://missing/abi/x")),
        refusal("1", INVALID_PARAMS, "Protocol 'missing' not found")
    );
    let line = server
        .process_line(
            "{\"id\":1,\"method\":\"resources/read\",\"params\":{\"uri\":\"protocol://missing/abi/x\"}}",
        )
        .unwrap();
    assert_eq!(
        line,
        "{\"error\":{\"code\":-32602,\"message\":\"Protocol 'missing' not found\"},\"id\":1,\"jsonrpc\":\"2.0\"}"
    );
}

#[test]
fn reading_an_unknown_resource_type_names_the_resource() {
    assert_eq!(
        server().handle(request("1", "resources/read", "protocol://uniswap/badtype/x")),
        refusal("1", INVALID_PARAMS, "Resource not found: protocol://uniswap/badtype/x")
    );
}

#[test]
fn reading_a_malformed_or_unknown_uri_says_so() {
    let server = server();
    assert_eq!(
        server.handle(request("1", "resources/read", "protocol://uniswap")),
        refusal("1", INVALID_PARAMS, "Invalid protocol URI format")
    );
    assert_eq!(
        server.handle(request("1", "resources/read", "ftp://x")),
        refusal("1", INVALID_PARAMS, "Unknown resource URI: ftp://x")
    );
    assert_eq!(
        server.handle(request("1", "resources/read", "trap-example://nope")),
        refusal("1", INVALID_PARAMS, "Trap example 'nope' not found")
    );
}

#[test]
fn reading_without_a_uri_is_refused_as_an_unknown_uri() {
    let server = server();
    assert_eq!(
        server.process_line("{\"id\":1,\"method\":\"resources/read\"}"),
        Some("{\"error\":{\"code\":-32602,\"message\":\"Unknown resource URI: \"},\"id\":1,\"jsonrpc\":\"2.0\"}".to_string())
    );
    assert_eq!(
        server.process_line("{\"id\":1,\"method\":\"resources/read\",\"params\":{\"uri\":7}}"),
        Some("{\"error\":{\"code\":-32602,\"message\":\"Unknown resource URI: \"},\"id\":1,\"jsonrpc\":\"2.0\"}".to_string())
    );
}

#[test]
fn a_line_that_is_no_json_gets_no_reply() {
    let server = server();
    assert_eq!(server.process_line("not json"), None);
    assert_eq!(server.process_line("{\"id\":1,\"method\":\"initialize\""), None);
    assert_eq!(server.process_line("{\"id\":1} trailing"), None);
    assert_eq!(
        server.process_line("{\"id\":1,\"method\":\"tools/list\"}"),
        Some("{\"id\":1,\"jsonrpc\":\"2.0\",\"result\":{\"tools\":[]}}".to_string())
    );
}

#[test]
fn a_blank_line_gets_no_reply() {
    let server = server();
    assert_eq!(server.process_line(""), None);
    assert_eq!(server.process_line("   "), None);
    assert_eq!(server.process_line("\t\r"), None);
}

#[test]
fn white_space_around_a_message_is_ignored() {
    assert_eq!(
        server().process_line("  {\"id\":1,\"method\":\"prompts/list\"}  "),
        Some("{\"id\":1,\"jsonrpc\":\"2.0\",\"result\":{\"prompts\":[]}}".to_string())
    );
}

#[test]
fn the_reply_echoes_the_id_as_it_was_sent() {
    let server = server();
    assert_eq!(
        server.process_line("{\"id\":\"request-1\",\"method\":\"tools/list\"}"),
        Some("{\"id\":\"request-1\",\"jsonrpc\":\"2.0\",\"result\":{\"tools\":[]}}".to_string())
    );
    assert_eq!(
        server.process_line("{\"id\":{\"a\":[1,2]},\"method\":\"tools/list\"}"),
        Some("{\"id\":{\"a\":[1,2]},\"jsonrpc\":\"2.0\",\"result\":{\"tools\":[]}}".to_string())
    );
    assert_eq!(
        server.process_line("{\"id\":0,\"method\":\"tools/list\"}"),
        Some("{\"id\":0,\"jsonrpc\":\"2.0\",\"result\":{\"tools\":[]}}".to_string())
    );
}
