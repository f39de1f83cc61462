//! JSON-RPC messages: what the server reads of a request, and the replies it
//! writes.
//!
//! A request is any JSON document. Of it the server reads three things: the
//! member `id`, the member `method` where it is a string, and the member `uri`
//! of the member `params` where it is a string. A reply is an object with the
//! members `jsonrpc`, `id` and one of `result` and `error`.

use crate::json::{
    array, as_text, documents, duplicate, get, insert, integer, json_of, member_or_null,
    new_members, no_members, null, object, text, text_or_empty, Json, Members,
};
use crate::resources::{descriptor_views, DescriptorView, ResourceDescriptor};
use crate::text::same_text;
use serde_json::Value;
use vstd::prelude::*;

verus! {

/// The code of a reply to a message that is no valid request.
pub const INVALID_REQUEST: i64 = -32600;

/// The code of a reply to a request for a method that the server does not
/// offer.
pub const METHOD_NOT_FOUND: i64 = -32601;

/// The code of a reply to a request whose parameters name nothing.
pub const INVALID_PARAMS: i64 = -32602;

/// The methods that the server knows, and one variant for all others.
#[derive(Clone, Copy, Debug, PartialEq, Eq, Structural)]
pub enum Method {
    /// `initialize`
    Initialize,
    /// `notifications/initialized`
    Initialized,
    /// `tools/list`
    ToolsList,
    /// `tools/call`
    ToolsCall,
    /// `resources/list`
    ResourcesList,
    /// `resources/read`
    ResourcesRead,
    /// `prompts/list`
    PromptsList,
    /// Any other name.
    Unknown,
}

/// The method of a name.
pub open spec fn method_named(name: Seq<char>) -> Method {
    if name == "initialize"@ {
        Method::Initialize
    } else if name == "notifications/initialized"@ {
        Method::Initialized
    } else if name == "tools/list"@ {
        Method::ToolsList
    } else if name == "tools/call"@ {
        Method::ToolsCall
    } else if name == "resources/list"@ {
        Method::ResourcesList
    } else if name == "resources/read"@ {
        Method::ResourcesRead
    } else if name == "prompts/list"@ {
        Method::PromptsList
    } else {
        Method::Unknown
    }
}

/// Finds the method of a name.
pub fn classify(name: &str) -> (method: Method)
    ensures
        method == method_named(name@),
{
    if same_text(name, "initialize") {
        Method::Initialize
    } else if same_text(name, "notifications/initialized") {
        Method::Initialized
    } else if same_text(name, "tools/list") {
        Method::ToolsList
    } else if same_text(name, "tools/call") {
        Method::ToolsCall
    } else if same_text(name, "resources/list") {
        Method::ResourcesList
    } else if same_text(name, "resources/read") {
        Method::ResourcesRead
    } else if same_text(name, "prompts/list") {
        Method::PromptsList
    } else {
        Method::Unknown
    }
}

/// What the server reads of a request, over documents and texts.
pub struct RequestView {
    pub id: Json,
    pub method: Seq<char>,
    pub uri: Seq<char>,
}

/// What the server reads of a request.
#[derive(Debug, PartialEq)]
pub struct Request {
    /// The member `id`; `null` where the message has none.
    pub id: Value,
    /// The member `method`; empty where the message has none or it is no
    /// string.
    pub method: String,
    /// The member `uri` of the member `params`; empty where the message has
    /// none or it is no string.
    pub uri: String,
}

impl View for Request {
    type V = RequestView;

    open spec fn view(&self) -> RequestView {
        RequestView { id: json_of(self.id), method: self.method@, uri: self.uri@ }
    }
}

/// What the server reads of a message.
pub open spec fn request_of(message: Json) -> RequestView {
    RequestView {
        id: member_or_null(message, "id"@),
        method: text_or_empty(member_or_null(message, "method"@)),
        uri: text_or_empty(member_or_null(member_or_null(message, "params"@), "uri"@)),
    }
}

/// The text of a member where it is a string, and the empty text otherwise.
fn text_member(value: &Value, key: &str) -> (found: String)
    ensures
        found@ == text_or_empty(member_or_null(json_of(*value), key@)),
{
    match get(value, key) {
        Some(item) => match as_text(item) {
            Some(characters) => characters.to_owned(),
            None => String::new(),
        },
        None => String::new(),
    }
}

/// Reads a message: takes out of it what the server reads of a request.
pub fn decode_request(message: &Value) -> (request: Request)
    ensures
        request@ == request_of(json_of(*message)),
{
    let id = match get(message, "id") {
        Some(id) => duplicate(id),
        None => null(),
    };
    let method = text_member(message, "method");
    let uri = match get(message, "params") {
        Some(params) => text_member(params, "uri"),
        None => {
            proof {
                assert(member_or_null(Json::Null, "uri"@) == Json::Null);
            }
            String::new()
        },
    };
    Request { id, method, uri }
}

/// What a reply says, over texts.
pub enum AnswerView {
    /// The handshake: the protocol's version, what the server can do, and
    /// the server's name and version.
    Handshake,
    /// The list of tools, which is empty.
    Tools,
    /// The list of prompts, which is empty.
    Prompts,
    /// The list of resources.
    Resources(Seq<DescriptorView>),
    /// The content of a resource, as text.
    Contents(Seq<char>),
    /// A refusal, with its code and its message.
    Failure { code: int, message: Seq<char> },
}

/// What a reply says.
#[derive(Debug, PartialEq)]
pub enum Answer {
    /// The handshake: the protocol's version, what the server can do, and
    /// the server's name and version.
    Handshake,
    /// The list of tools, which is empty.
    Tools,
    /// The list of prompts, which is empty.
    Prompts,
    /// The list of resources.
    Resources(Vec<ResourceDescriptor>),
    /// The content of a resource, as text.
    Contents(String),
    /// A refusal, with its code and its message.
    Failure { code: i64, message: String },
}

impl View for Answer {
    type V = AnswerView;

    open spec fn view(&self) -> AnswerView {
        match self {
            Answer::Handshake => AnswerView::Handshake,
            Answer::Tools => AnswerView::Tools,
            Answer::Prompts => AnswerView::Prompts,
            Answer::Resources(list) => AnswerView::Resources(descriptor_views(list@)),
            Answer::Contents(content) => AnswerView::Contents(content@),
            Answer::Failure { code, message } => AnswerView::Failure {
                code: *code as int,
                message: message@,
            },
        }
    }
}

/// A reply, over documents and texts.
pub struct ReplyView {
    pub id: Json,
    pub answer: AnswerView,
}

/// A reply: the id of the request that it answers, and what it says.
#[derive(Debug, PartialEq)]
pub struct Reply {
    pub id: Value,
    pub answer: Answer,
}

impl View for Reply {
    type V = ReplyView;

    open spec fn view(&self) -> ReplyView {
        ReplyView { id: json_of(self.id), answer: self.answer@ }
    }
}

/// The object with one member.
pub open spec fn one_member(key: Seq<char>, item: Json) -> Json {
    Json::Object(no_members().insert(key, item))
}

/// The protocol's version that the handshake names.
pub open spec fn protocol_version() -> Seq<char> {
    "2024-11-05"@
}

/// The server's name in the handshake.
pub open spec fn server_name() -> Seq<char> {
    "drosera-traps-mcp"@
}

/// The server's version in the handshake.
pub open spec fn server_version() -> Seq<char> {
    "1.0.0"@
}

/// The document of the handshake.
pub open spec fn handshake_document() -> Json {
    Json::Object(
        no_members().insert("protocolVersion"@, Json::Text(protocol_version())).insert(
            "capabilities"@,
            Json::Object(
                no_members().insert("tools"@, Json::Object(no_members())).insert(
                    "resources"@,
                    Json::Object(no_members()),
                ),
            ),
        ).insert(
            "serverInfo"@,
            Json::Object(
                no_members().insert("name"@, Json::Text(server_name())).insert(
                    "version"@,
                    Json::Text(server_version()),
                ),
            ),
        ),
    )
}

/// The document of a descriptor.
pub open spec fn descriptor_document(descriptor: DescriptorView) -> Json {
    Json::Object(
        no_members().insert("uri"@, Json::Text(descriptor.uri)).insert(
            "name"@,
            Json::Text(descriptor.name),
        ).insert("description"@, Json::Text(descriptor.description)).insert(
            "mimeType"@,
            Json::Text(descriptor.mime_type),
        ),
    )
}

/// The documents of some descriptors, in order.
pub open spec fn descriptor_documents(list: Seq<DescriptorView>) -> Seq<Json> {
    list.map_values(|descriptor: DescriptorView| descriptor_document(descriptor))
}

/// The document of a resource's content: a list of one text.
pub open spec fn contents_document(content: Seq<char>) -> Json {
    one_member(
        "contents"@,
        Json::Array(
            seq![
                Json::Object(
                    no_members().insert("type"@, Json::Text("text"@)).insert(
                        "text"@,
                        Json::Text(content),
                    ),
                ),
            ],
        ),
    )
}

/// The document of a refusal.
pub open spec fn error_document(code: int, message: Seq<char>) -> Json {
    Json::Object(
        no_members().insert("code"@, Json::Integer(code)).insert("message"@, Json::Text(message)),
    )
}

/// The document under `result` of a reply that is no refusal.
pub open spec fn result_document(answer: AnswerView) -> Json {
    match answer {
        AnswerView::Handshake => handshake_document(),
        AnswerView::Tools => one_member("tools"@, Json::Array(Seq::empty())),
        AnswerView::Prompts => one_member("prompts"@, Json::Array(Seq::empty())),
        AnswerView::Resources(list) => one_member(
            "resources"@,
            Json::Array(descriptor_documents(list)),
        ),
        AnswerView::Contents(content) => contents_document(content),
        AnswerView::Failure { code, message } => Json::Null,
    }
}

/// The document of a reply: the members `jsonrpc`, which is `2.0`, and `id`,
/// and then `error` for a refusal and `result` for any other answer.
pub open spec fn reply_document(reply: ReplyView) -> Json {
    let head = no_members().insert("jsonrpc"@, Json::Text("2.0"@)).insert("id"@, reply.id);
    match reply.answer {
        AnswerView::Failure { code, message } => Json::Object(
            head.insert("error"@, error_document(code, message)),
        ),
        _ => Json::Object(head.insert("result"@, result_document(reply.answer))),
    }
}

/// The JSON string of a literal text.
fn text_of(characters: &str) -> (value: Value)
    ensures
        json_of(value) == Json::Text(characters@),
{
    text(characters.to_owned())
}

/// The JSON object with no members.
fn empty_object() -> (value: Value)
    ensures
        json_of(value) == Json::Object(no_members()),
{
    object(new_members())
}

/// The JSON object with one member.
fn single(key: &str, item: Value) -> (value: Value)
    ensures
        json_of(value) == one_member(key@, json_of(item)),
{
    let mut members: Members = new_members();
    insert(&mut members, key.to_owned(), item);
    object(members)
}

/// The JSON array with no items.
fn empty_array() -> (value: Value)
    ensures
        json_of(value) == Json::Array(Seq::empty()),
{
    let items: Vec<Value> = Vec::new();
    assert(documents(items@) =~= Seq::<Json>::empty());
    array(items)
}

/// Writes the handshake as JSON.
fn encode_handshake() -> (value: Value)
    ensures
        json_of(value) == handshake_document(),
{
    let mut capabilities: Members = new_members();
    insert(&mut capabilities, "tools".to_owned(), empty_object());
    insert(&mut capabilities, "resources".to_owned(), empty_object());
    let mut server: Members = new_members();
    insert(&mut server, "name".to_owned(), text_of("drosera-traps-mcp"));
    insert(&mut server, "version".to_owned(), text_of("1.0.0"));
    let mut members: Members = new_members();
    insert(&mut members, "protocolVersion".to_owned(), text_of("2024-11-05"));
    insert(&mut members, "capabilities".to_owned(), object(capabilities));
    insert(&mut members, "serverInfo".to_owned(), object(server));
    object(members)
}

/// Writes a descriptor as JSON.
fn encode_descriptor(descriptor: &ResourceDescriptor) -> (value: Value)
    ensures
        json_of(value) == descriptor_document(descriptor@),
{
    let mut members: Members = new_members();
    insert(&mut members, "uri".to_owned(), text(descriptor.uri.clone()));
    insert(&mut members, "name".to_owned(), text(descriptor.name.clone()));
    insert(&mut members, "description".to_owned(), text(descriptor.description.clone()));
    insert(&mut members, "mimeType".to_owned(), text(descriptor.mime_type.clone()));
    object(members)
}

/// Writes a list of descriptors as a JSON array.
fn encode_descriptors(list: &Vec<ResourceDescriptor>) -> (value: Value)
    ensures
        json_of(value) == Json::Array(descriptor_documents(descriptor_views(list@))),
{
    let mut items: Vec<Value> = Vec::new();
    let mut i: usize = 0;
    while i < list.len()
        invariant
            i <= list@.len(),
            documents(items@) == descriptor_documents(descriptor_views(list@.take(i as int))),
        decreases list@.len() - i,
    {
        let item = encode_descriptor(&list[i]);
        proof {
            assert(documents(items@.push(item)) =~= documents(items@).push(json_of(item)));
            assert(list@.take(i + 1) =~= list@.take(i as int).push(list@[i as int]));
            assert(descriptor_documents(descriptor_views(list@.take(i + 1)))
                =~= descriptor_documents(descriptor_views(list@.take(i as int))).push(
                descriptor_document(list@[i as int]@),
            ));
        }
        items.push(item);
        i = i + 1;
    }
    proof {
        assert(list@.take(i as int) =~= list@);
    }
    array(items)
}

/// Writes a resource's content as JSON.
fn encode_contents(content: String) -> (value: Value)
    ensures
        json_of(value) == contents_document(content@),
{
    let mut entry: Members = new_members();
    insert(&mut entry, "type".to_owned(), text_of("text"));
    insert(&mut entry, "text".to_owned(), text(content));
    let mut items: Vec<Value> = Vec::new();
    let item = object(entry);
    items.push(item);
    proof {
        assert(documents(items@) =~= seq![json_of(item)]);
    }
    single("contents", array(items))
}

/// Writes a reply as JSON.
pub fn encode_reply(reply: Reply) -> (value: Value)
    ensures
        json_of(value) == reply_document(reply@),
{
    let mut members: Members = new_members();
    insert(&mut members, "jsonrpc".to_owned(), text_of("2.0"));
    insert(&mut members, "id".to_owned(), reply.id);
    match reply.answer {
        Answer::Failure { code, message } => {
            let mut error: Members = new_members();
            insert(&mut error, "code".to_owned(), integer(code));
            insert(&mut error, "message".to_owned(), text(message));
            insert(&mut members, "error".to_owned(), object(error));
        },
        Answer::Handshake => {
            insert(&mut members, "result".to_owned(), encode_handshake());
        },
        Answer::Tools => {
            insert(&mut members, "result".to_owned(), single("tools", empty_array()));
        },
        Answer::Prompts => {
            insert(&mut members, "result".to_owned(), single("prompts", empty_array()));
        },
        Answer::Resources(list) => {
            insert(
                &mut members,
                "result".to_owned(),
                single("resources", encode_descriptors(&list)),
            );
        },
        Answer::Contents(content) => {
            insert(&mut members, "result".to_owned(), encode_contents(content));
        },
    }
    object(members)
}

/// The keys of a reply are four different texts.
proof fn lemma_reply_keys()
    ensures
        "jsonrpc"@ != "id"@,
        "jsonrpc"@ != "result"@,
        "jsonrpc"@ != "error"@,
        "id"@ != "result"@,
        "id"@ != "error"@,
        "result"@ != "error"@,
        "code"@ != "message"@,
{
    reveal_strlit("jsonrpc");
    reveal_strlit("id");
    reveal_strlit("result");
    reveal_strlit("error");
    reveal_strlit("code");
    reveal_strlit("message");
    assert("jsonrpc"@.len() != "id"@.len());
    assert("jsonrpc"@.len() != "result"@.len());
    assert("jsonrpc"@.len() != "error"@.len());
    assert("id"@.len() != "result"@.len());
    assert("id"@.len() != "error"@.len());
    assert("result"@.len() != "error"@.len());
    assert("code"@.len() != "message"@.len());
}

/// Every reply is an object of three members: `jsonrpc`, which is `2.0`;
/// `id`, which is the reply's id; and either `error`, for a refusal, with
/// the refusal's code and message, or `result`, for any other answer. It
/// never has both.
pub proof fn law_reply_has_result_or_error(reply: ReplyView)
    ensures
        ({
            let document = reply_document(reply);
            &&& document is Object
            &&& document->Object_0.dom().finite()
            &&& document->Object_0.dom().len() == 3
            &&& crate::json::member(document, "jsonrpc"@) == Some(Json::Text("2.0"@))
            &&& crate::json::member(document, "id"@) == Some(reply.id)
            &&& match reply.answer {
                AnswerView::Failure { code, message } => {
                    &&& crate::json::member(document, "result"@) is None
                    &&& crate::json::member(document, "error"@) == Some(
                        error_document(code, message),
                    )
                    &&& crate::json::member(error_document(code, message), "code"@) == Some(
                        Json::Integer(code),
                    )
                    &&& crate::json::member(error_document(code, message), "message"@) == Some(
                        Json::Text(message),
                    )
                },
                _ => {
                    &&& crate::json::member(document, "error"@) is None
                    &&& crate::json::member(document, "result"@) == Some(
                        result_document(reply.answer),
                    )
                },
            }
        }),
{
    lemma_reply_keys();
    let head = no_members().insert("jsonrpc"@, Json::Text("2.0"@)).insert("id"@, reply.id);
    assert(head.dom() =~= set!["jsonrpc"@, "id"@]);
    match reply.answer {
        AnswerView::Failure { code, message } => {
            assert(head.insert("error"@, error_document(code, message)).dom()
                =~= set!["jsonrpc"@, "id"@, "error"@]);
        },
        _ => {
            assert(head.insert("result"@, result_document(reply.answer)).dom()
                =~= set!["jsonrpc"@, "id"@, "result"@]);
        },
    }
}

/// The handshake names the protocol's version and the server's name and
/// version, the same for every request.
pub proof fn law_handshake_is_fixed()
    ensures
        crate::json::member(handshake_document(), "protocolVersion"@) == Some(
            Json::Text("2024-11-05"@),
        ),
        crate::json::member(
            crate::json::member_or_null(handshake_document(), "serverInfo"@),
            "name"@,
        ) == Some(Json::Text("drosera-traps-mcp"@)),
        crate::json::member(
            crate::json::member_or_null(handshake_document(), "serverInfo"@),
            "version"@,
        ) == Some(Json::Text("1.0.0"@)),
{
    reveal_strlit("protocolVersion");
    reveal_strlit("capabilities");
    reveal_strlit("serverInfo");
    reveal_strlit("name");
    reveal_strlit("version");
    assert("protocolVersion"@.len() != "capabilities"@.len());
    assert("protocolVersion"@.len() != "serverInfo"@.len());
    assert("capabilities"@.len() != "serverInfo"@.len());
    assert("name"@.len() != "version"@.len());
}

/// Each of the server's methods is found under its name.
pub proof fn law_methods_have_their_names()
    ensures
        method_named("initialize"@) == Method::Initialize,
        method_named("notifications/initialized"@) == Method::Initialized,
        method_named("tools/list"@) == Method::ToolsList,
        method_named("tools/call"@) == Method::ToolsCall,
        method_named("resources/list"@) == Method::ResourcesList,
        method_named("resources/read"@) == Method::ResourcesRead,
        method_named("prompts/list"@) == Method::PromptsList,
{
    reveal_strlit("initialize");
    reveal_strlit("notifications/initialized");
    reveal_strlit("tools/list");
    reveal_strlit("tools/call");
    reveal_strlit("resources/list");
    reveal_strlit("resources/read");
    reveal_strlit("prompts/list");
    let initialize = "initialize"@;
    let initialized = "notifications/initialized"@;
    let tools_list = "tools/list"@;
    let tools_call = "tools/call"@;
    let resources_list = "resources/list"@;
    let resources_read = "resources/read"@;
    let prompts_list = "prompts/list"@;
    assert(initialized.len() != initialize.len());
    assert(tools_list[0] != initialize[0]);
    assert(tools_list.len() != initialized.len());
    assert(tools_call[0] != initialize[0]);
    assert(tools_call.len() != initialized.len());
    assert(tools_call[6] != tools_list[6]);
    assert(resources_list.len() != initialize.len());
    assert(resources_list.len() != initialized.len());
    assert(resources_list.len() != tools_list.len());
    assert(resources_read[10] != resources_list[10]);
    assert(prompts_list.len() != initialize.len());
    assert(prompts_list.len() != initialized.len());
    assert(prompts_list.len() != tools_list.len());
    assert(prompts_list.len() != resources_list.len());
}

} // verus!
