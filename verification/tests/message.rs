use mcp_trap_generator::message::{
    classify, decode_request, encode_reply, Answer, Method, Reply, Request, INVALID_PARAMS,
    INVALID_REQUEST, METHOD_NOT_FOUND,
};
use mcp_trap_generator::resources::ResourceDescriptor;
use serde_json::Value;

fn document(text: &str) -> Value {
    serde_json::from_str(text).unwrap()
}

#[test]
fn codes_are_those_of_json_rpc() {
    assert_eq!(INVALID_REQUEST, -32600);
    assert_eq!(METHOD_NOT_FOUND, -32601);
    assert_eq!(INVALID_PARAMS, -32602);
}

#[test]
fn classify_knows_each_method() {
    assert_eq!(classify("initialize"), Method::Initialize);
    assert_eq!(classify("notifications/initialized"), Method::Initialized);
    assert_eq!(classify("tools/list"), Method::ToolsList);
    assert_eq!(classify("tools/call"), Method::ToolsCall);
    assert_eq!(classify("resources/list"), Method::ResourcesList);
    assert_eq!(classify("resources/read"), Method::ResourcesRead);
    assert_eq!(classify("prompts/list"), Method::PromptsList);
}

#[test]
fn classify_takes_any_other_name_as_unknown() {
    assert_eq!(classify(""), Method::Unknown);
    assert_eq!(classify("Initialize"), Method::Unknown);
    assert_eq!(classify("initialize "), Method::Unknown);
    assert_eq!(classify("resources/write"), Method::Unknown);
    assert_eq!(classify("prompts/get"), Method::Unknown);
}

#[test]
fn decode_reads_id_method_and_uri() {
    let request = decode_request(&document(
        "{\"jsonrpc\": \"2.0\", \"id\": 7, \"method\": \"resources/read\", \
         \"params\": {\"uri\": \"drosera://x\"}}",
    ));
    assert_eq!(
        request,
        Request {
            id: document("7"),
            method: "resources/read".to_string(),
            uri: "drosera://x".to_string()
        }
    );
}

#[test]
fn decode_keeps_an_id_of_any_kind() {
    assert_eq!(decode_request(&document("{\"id\": \"abc\"}")).id, document("\"abc\""));
    assert_eq!(decode_request(&document("{\"id\": [1, {\"a\": null}]}")).id, document("[1, {\"a\": null}]"));
    assert_eq!(decode_request(&document("{\"id\": 0}")).id, document("0"));
    assert_eq!(decode_request(&document("{\"id\": false}")).id, document("false"));
}

#[test]
fn decode_takes_what_is_absent_as_null_and_empty() {
    let request = decode_request(&document("{}"));
    assert_eq!(
        request,
        Request { id: Value::Null, method: "".to_string(), uri: "".to_string() }
    );
    assert_eq!(decode_request(&document("{\"id\": null}")).id, Value::Null);
}

#[test]
fn decode_takes_members_of_the_wrong_kind_as_empty() {
    let request = decode_request(&document(
        "{\"id\": 1, \"method\": 5, \"params\": {\"uri\": [\"drosera://x\"]}}",
    ));
    assert_eq!(request.method, "");
    assert_eq!(request.uri, "");
    assert_eq!(decode_request(&document("{\"params\": \"drosera://x\"}")).uri, "");
    assert_eq!(decode_request(&document("{\"params\": [1]}")).uri, "");
}

#[test]
fn decode_takes_a_message_that_is_no_object_as_empty() {
    for text in ["null", "3", "\"initialize\"", "[{\"id\": 1}]", "true"] {
        assert_eq!(
            decode_request(&document(text)),
            Request { id: Value::Null, method: "".to_string(), uri: "".to_string() }
        );
    }
}

#[test]
fn encodes_the_handshake() {
    let reply = Reply { id: document("1"), answer: Answer::Handshake };
    assert_eq!(
        encode_reply(reply),
        document(
            "{\"jsonrpc\": \"2.0\", \"id\": 1, \"result\": {\
             \"protocolVersion\": \"2024-11-05\", \
             \"capabilities\": {\"tools\": {}, \"resources\": {}}, \
             \"serverInfo\": {\"name\": \"drosera-traps-mcp\", \"version\": \"1.0.0\"}}}"
        )
    );
}

#[test]
fn encodes_the_empty_lists() {
    assert_eq!(
        encode_reply(Reply { id: document("\"a\""), answer: Answer::Tools }),
        document("{\"jsonrpc\": \"2.0\", \"id\": \"a\", \"result\": {\"tools\": []}}")
    );
    assert_eq!(
        encode_reply(Reply { id: document("2"), answer: Answer::Prompts }),
        document("{\"jsonrpc\": \"2.0\", \"id\": 2, \"result\": {\"prompts\": []}}")
    );
    assert_eq!(
        encode_reply(Reply { id: document("3"), answer: Answer::Resources(Vec::new()) }),
        document("{\"jsonrpc\": \"2.0\", \"id\": 3, \"result\": {\"resources\": []}}")
    );
}

#[test]
fn encodes_a_list_of_resources_in_order() {
    let first = ResourceDescriptor {
        uri: "drosera://a".to_string(),
        name: "Drosera a".to_string(),
        description: "Drosera documentation: a".to_string(),
        mime_type: "text/markdown".to_string(),
    };
    let second = ResourceDescriptor {
        uri: "trap-example://b".to_string(),
        name: "b Trap Example".to_string(),
        description: "Complete trap example: b".to_string(),
        mime_type: "application/json".to_string(),
    };
    assert_eq!(
        encode_reply(Reply { id: document("4"), answer: Answer::Resources(vec![first, second]) }),
        document(
            "{\"jsonrpc\": \"2.0\", \"id\": 4, \"result\": {\"resources\": [\
             {\"uri\": \"drosera://a\", \"name\": \"Drosera a\", \
             \"description\": \"Drosera documentation: a\", \"mimeType\": \"text/markdown\"}, \
             {\"uri\": \"trap-example://b\", \"name\": \"b Trap Example\", \
             \"description\": \"Complete trap example: b\", \"mimeType\": \"application/json\"}]}}"
        )
    );
}

#[test]
fn encodes_content_as_one_text() {
    assert_eq!(
        encode_reply(Reply { id: document("5"), answer: Answer::Contents("# Title\n".to_string()) }),
        document(
            "{\"jsonrpc\": \"2.0\", \"id\": 5, \"result\": {\"contents\": [\
             {\"type\": \"text\", \"text\": \"# Title\\n\"}]}}"
        )
    );
}

#[test]
fn encodes_a_refusal_with_code_and_message() {
    let reply = Reply {
        id: Value::Null,
        answer: Answer::Failure { code: INVALID_REQUEST, message: "no id".to_string() },
    };
    let encoded = encode_reply(reply);
    assert_eq!(
        encoded,
        document(
            "{\"jsonrpc\": \"2.0\", \"id\": null, \
             \"error\": {\"code\": -32600, \"message\": \"no id\"}}"
        )
    );
    assert_eq!(encoded.get("result"), None);
    assert_eq!(encoded["error"]["code"].as_i64(), Some(-32600));
}

#[test]
fn encodes_codes_of_either_sign() {
    let positive = encode_reply(Reply {
        id: document("1"),
        answer: Answer::Failure { code: 7, message: "".to_string() },
    });
    assert_eq!(positive["error"]["code"], document("7"));
    let least = encode_reply(Reply {
        id: document("1"),
        answer: Answer::Failure { code: i64::MIN, message: "".to_string() },
    });
    assert_eq!(least["error"]["code"].as_i64(), Some(i64::MIN));
}

#[test]
fn a_reply_has_result_or_error_and_never_both() {
    let answers = vec![
        Answer::Handshake,
        Answer::Tools,
        Answer::Prompts,
        Answer::Resources(Vec::new()),
        Answer::Contents("x".to_string()),
        Answer::Failure { code: METHOD_NOT_FOUND, message: "m".to_string() },
    ];
    for answer in answers {
        let refusal = matches!(answer, Answer::Failure { .. });
        let encoded = encode_reply(Reply { id: document("9"), answer });
        assert_eq!(encoded.as_object().unwrap().len(), 3);
        assert_eq!(encoded.get("jsonrpc"), Some(&document("\"2.0\"")));
        assert_eq!(encoded.get("id"), Some(&document("9")));
        assert_eq!(encoded.get("error").is_some(), refusal);
        assert_eq!(encoded.get("result").is_some(), !refusal);
    }
}
