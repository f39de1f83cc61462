//! The server: one catalog, and a reply, or none, for each message.
//!
//! A message whose `id` is absent or `null` is a notification. The only
//! notification that the server knows is `notifications/initialized`, which
//! gets no reply; any other message without an id is refused as an invalid
//! request, with a `null` id. A message with an id is a request and is
//! answered by its method.
//!
//! The catalog is read and never changed: a reply depends on the catalog and
//! the message alone, so that the same message gets the same reply however
//! often it is sent.

use crate::catalog::{Catalog, CatalogView};
use crate::json::{
    compact_text, is_null, json_of, null, parse, parsed_text, to_compact, Json,
};
use crate::message::{
    classify, decode_request, encode_reply, method_named, reply_document, request_of, Answer,
    AnswerView, Method, Reply, ReplyView, Request, RequestView, INVALID_PARAMS, INVALID_REQUEST,
    METHOD_NOT_FOUND,
};
use crate::resources::{listing, message_of, reading};
use crate::text::{blank, is_blank};
use serde_json::Value;
use vstd::prelude::*;

verus! {

/// What the server answers to a request that has an id.
pub open spec fn answer_to(catalog: CatalogView, request: RequestView) -> AnswerView {
    match method_named(request.method) {
        Method::Initialize => AnswerView::Handshake,
        Method::ToolsList => AnswerView::Tools,
        Method::ToolsCall => AnswerView::Failure {
            code: METHOD_NOT_FOUND as int,
            message: "No tools available - use resources instead"@,
        },
        Method::ResourcesList => AnswerView::Resources(listing(catalog)),
        Method::ResourcesRead => match reading(catalog, request.uri) {
            Ok(content) => AnswerView::Contents(content),
            Err(error) => AnswerView::Failure {
                code: INVALID_PARAMS as int,
                message: message_of(error),
            },
        },
        Method::PromptsList => AnswerView::Prompts,
        Method::Initialized | Method::Unknown => AnswerView::Failure {
            code: METHOD_NOT_FOUND as int,
            message: "Unknown method: "@ + request.method,
        },
    }
}

/// The reply to a request, or `None` where the request gets no reply.
pub open spec fn reply_to(catalog: CatalogView, request: RequestView) -> Option<ReplyView> {
    if request.id is Null {
        if method_named(request.method) == Method::Initialized {
            None
        } else {
            Some(
                ReplyView {
                    id: Json::Null,
                    answer: AnswerView::Failure {
                        code: INVALID_REQUEST as int,
                        message: "Invalid Request: missing id field"@,
                    },
                },
            )
        }
    } else {
        Some(ReplyView { id: request.id, answer: answer_to(catalog, request) })
    }
}

/// The document that answers a message, or `None` where the message gets no
/// reply.
pub open spec fn response_to(catalog: CatalogView, message: Json) -> Option<Json> {
    match reply_to(catalog, request_of(message)) {
        Some(reply) => Some(reply_document(reply)),
        None => None,
    }
}

/// The line that answers a line of input, or `None` where the line gets no
/// reply: a line of white space only, a line that is not one JSON document,
/// and a message that gets no reply.
pub open spec fn line_output(catalog: CatalogView, line: Seq<char>) -> Option<Seq<char>> {
    if blank(line) {
        None
    } else {
        match parsed_text(line) {
            Some(message) => match response_to(catalog, message) {
                Some(response) => Some(compact_text(response)),
                None => None,
            },
            None => None,
        }
    }
}

/// The server.
pub struct DroseraServer {
    catalog: Catalog,
}

impl View for DroseraServer {
    type V = CatalogView;

    closed spec fn view(&self) -> CatalogView {
        self.catalog@
    }
}

impl DroseraServer {
    /// A server for a catalog.
    pub fn new(catalog: Catalog) -> (server: Self)
        ensures
            server@ == catalog@,
    {
        DroseraServer { catalog }
    }

    /// The server's catalog.
    pub fn catalog(&self) -> (catalog: &Catalog)
        ensures
            catalog@ == self@,
    {
        &self.catalog
    }

    /// Answers a request that has an id.
    fn answer(&self, request: &Request) -> (answer: Answer)
        ensures
            answer@ == answer_to(self@, request@),
    {
        match classify(request.method.as_str()) {
            Method::Initialize => Answer::Handshake,
            Method::ToolsList => Answer::Tools,
            Method::ToolsCall => Answer::Failure {
                code: METHOD_NOT_FOUND,
                message: "No tools available - use resources instead".to_owned(),
            },
            Method::ResourcesList => Answer::Resources(self.catalog.list()),
            Method::ResourcesRead => match self.catalog.read(request.uri.as_str()) {
                Ok(content) => Answer::Contents(content),
                Err(error) => Answer::Failure { code: INVALID_PARAMS, message: error.message() },
            },
            Method::PromptsList => Answer::Prompts,
            Method::Initialized | Method::Unknown => {
                let mut message = "Unknown method: ".to_owned();
                message.append(request.method.as_str());
                Answer::Failure { code: METHOD_NOT_FOUND, message }
            },
        }
    }

    /// Finds the reply to a request, if it gets one.
    pub fn handle(&self, request: Request) -> (reply: Option<Reply>)
        ensures
            match reply {
                Some(reply) => reply_to(self@, request@) == Some(reply@),
                None => reply_to(self@, request@) is None,
            },
    {
        if is_null(&request.id) {
            match classify(request.method.as_str()) {
                Method::Initialized => None,
                _ => Some(
                    Reply {
                        id: null(),
                        answer: Answer::Failure {
                            code: INVALID_REQUEST,
                            message: "Invalid Request: missing id field".to_owned(),
                        },
                    },
                ),
            }
        } else {
            let answer = self.answer(&request);
            Some(Reply { id: request.id, answer })
        }
    }

    /// Answers a message: reads the request in it, finds the reply and
    /// writes the reply as a document.
    pub fn handle_request(&self, message: &Value) -> (response: Option<Value>)
        ensures
            match response {
                Some(value) => response_to(self@, json_of(*message)) == Some(json_of(value)),
                None => response_to(self@, json_of(*message)) is None,
            },
    {
        match self.handle(decode_request(message)) {
            Some(reply) => Some(encode_reply(reply)),
            None => None,
        }
    }

    /// Answers one line of input with one line of output, or with none.
    pub fn process_line(&self, line: &str) -> (output: Option<String>)
        ensures
            match output {
                Some(text) => line_output(self@, line@) == Some(text@),
                None => line_output(self@, line@) is None,
            },
    {
        if is_blank(line) {
            return None;
        }
        match parse(line) {
            Some(message) => match self.handle_request(&message) {
                Some(response) => Some(to_compact(&response)),
                None => None,
            },
            None => None,
        }
    }
}

/// A request for `initialize` with an id is answered with the handshake
/// under that id, whatever the catalog holds and whatever else the request
/// says.
pub proof fn law_initialize_is_answered_with_the_handshake(
    catalog: CatalogView,
    request: RequestView,
)
    requires
        request.method == "initialize"@,
        !(request.id is Null),
    ensures
        reply_to(catalog, request) == Some(
            ReplyView { id: request.id, answer: AnswerView::Handshake },
        ),
{
}

/// The notification that the client is initialized gets no reply, and a
/// line that holds it gets no line of output.
pub proof fn law_initialized_notification_gets_no_reply(
    catalog: CatalogView,
    message: Json,
    line: Seq<char>,
)
    requires
        request_of(message).id is Null,
        request_of(message).method == "notifications/initialized"@,
    ensures
        reply_to(catalog, request_of(message)) is None,
        response_to(catalog, message) is None,
        parsed_text(line) == Some(message) ==> line_output(catalog, line) is None,
{
    crate::message::law_methods_have_their_names();
}

/// Any other message without an id is refused as an invalid request: the
/// reply has a `null` id and the code of an invalid request, and a line that
/// holds the message gets that reply as its one line of output.
pub proof fn law_message_without_id_is_refused(
    catalog: CatalogView,
    message: Json,
    line: Seq<char>,
)
    requires
        request_of(message).id is Null,
        request_of(message).method != "notifications/initialized"@,
    ensures
        ({
            let refusal = ReplyView {
                id: Json::Null,
                answer: AnswerView::Failure {
                    code: INVALID_REQUEST as int,
                    message: "Invalid Request: missing id field"@,
                },
            };
            &&& reply_to(catalog, request_of(message)) == Some(refusal)
            &&& !blank(line) && parsed_text(line) == Some(message) ==> line_output(catalog, line)
                == Some(compact_text(reply_document(refusal)))
        }),
{
}

/// A line that is not one JSON document gets no line of output, and neither
/// does a line of white space only.
pub proof fn law_unreadable_line_gets_no_reply(catalog: CatalogView, line: Seq<char>)
    ensures
        parsed_text(line) is None ==> line_output(catalog, line) is None,
        blank(line) ==> line_output(catalog, line) is None,
{
}

/// A line gets a line of output exactly where it is not blank, is one JSON
/// document, and that message gets a reply; the line of output is the reply,
/// written on one line.
pub proof fn law_one_line_for_each_reply(catalog: CatalogView, line: Seq<char>)
    ensures
        line_output(catalog, line) is Some <==> !blank(line) && parsed_text(line) is Some
            && response_to(catalog, parsed_text(line)->0) is Some,
        line_output(catalog, line) is Some ==> line_output(catalog, line)->0 == compact_text(
            response_to(catalog, parsed_text(line)->0)->0,
        ),
{
}

/// A reply to a request carries the id of the request.
pub proof fn law_reply_carries_the_request_id(catalog: CatalogView, request: RequestView)
    requires
        reply_to(catalog, request) is Some,
    ensures
        reply_to(catalog, request)->0.id == request.id,
{
}

/// A request to read a URI is answered with the content that reading gives,
/// and is refused, with the code of invalid parameters and the reason's
/// message, where reading gives none.
pub proof fn law_read_request_is_answered_by_reading(catalog: CatalogView, request: RequestView)
    requires
        request.method == "resources/read"@,
        !(request.id is Null),
    ensures
        reply_to(catalog, request) == Some(
            ReplyView {
                id: request.id,
                answer: match reading(catalog, request.uri) {
                    Ok(content) => AnswerView::Contents(content),
                    Err(error) => AnswerView::Failure {
                        code: INVALID_PARAMS as int,
                        message: message_of(error),
                    },
                },
            },
        ),
{
    crate::message::law_methods_have_their_names();
}

/// A request to list the resources is answered with the catalog's listing.
pub proof fn law_list_request_is_answered_by_listing(catalog: CatalogView, request: RequestView)
    requires
        request.method == "resources/list"@,
        !(request.id is Null),
    ensures
        reply_to(catalog, request) == Some(
            ReplyView { id: request.id, answer: AnswerView::Resources(listing(catalog)) },
        ),
{
    crate::message::law_methods_have_their_names();
}

/// A request for a method that the server does not know, or for a tool, is
/// refused with the code of a method that is not found.
pub proof fn law_other_methods_are_refused(catalog: CatalogView, request: RequestView)
    requires
        !(request.id is Null),
        method_named(request.method) == Method::Unknown || method_named(request.method)
            == Method::Initialized || method_named(request.method) == Method::ToolsCall,
    ensures
        reply_to(catalog, request) is Some,
        reply_to(catalog, request)->0.answer is Failure,
        reply_to(catalog, request)->0.answer->code == METHOD_NOT_FOUND,
{
}

} // verus!
