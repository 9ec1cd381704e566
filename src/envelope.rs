use vstd::prelude::*;
use crate::binding::Payload;
use crate::types::Message;
use crate::value::{
    JsonValue, distinct_keys, lacks_key, lemma_distinct_push, lemma_member_push, member,
    take_member, text,
};

verus! {

/// The member names of the three envelopes differ from one another.
pub proof fn lemma_wire_keys_distinct()
    ensures
        "seq"@ != "command"@,
        "seq"@ != "arguments"@,
        "command"@ != "arguments"@,
        "seq"@ != "event"@,
        "seq"@ != "body"@,
        "event"@ != "body"@,
        "request_seq"@ != "success"@,
        "request_seq"@ != "message"@,
        "request_seq"@ != "body"@,
        "success"@ != "message"@,
        "success"@ != "body"@,
        "message"@ != "body"@,
{
    reveal_strlit("seq");
    reveal_strlit("command");
    reveal_strlit("arguments");
    reveal_strlit("event");
    reveal_strlit("body");
    reveal_strlit("request_seq");
    reveal_strlit("success");
    reveal_strlit("message");
    assert("seq"@.len() == 3 && "command"@.len() == 7 && "arguments"@.len() == 9);
    assert("event"@.len() == 5 && "body"@.len() == 4 && "request_seq"@.len() == 11);
    assert("success"@[0] != "message"@[0]);
}

/// Why a wire value is not a well-formed envelope.
#[derive(Debug, Clone, Copy, PartialEq, Eq, Structural)]
pub enum SerializationError {
    /// The value is not an object.
    NotAnObject,
    /// A required member is absent.
    MissingField,
    /// A member holds a value of the wrong kind.
    InvalidField,
}

/// A request from the client: a command name with its arguments as a
/// generic value.
#[derive(Debug, Clone)]
pub struct Request {
    /// Sequence number of the message; 1 for the first message of a sender,
    /// one more for each following one.
    pub seq: i64,
    /// The command to execute.
    pub command: String,
    /// The arguments of the command; null when there are none.
    pub arguments: JsonValue,
}

/// Whether `v` is the wire form of `r`: `seq`, `command`, then `arguments`
/// unless they are null.
pub open spec fn request_wire(r: Request, v: JsonValue) -> bool {
    match v {
        JsonValue::Object(m) => {
            &&& m@.len() == if r.arguments is Null { 2int } else { 3int }
            &&& m@[0].0@ == "seq"@ && m@[0].1 == JsonValue::Int(r.seq)
            &&& m@[1].0@ == "command"@ && m@[1].1 == JsonValue::Str(r.command)
            &&& !(r.arguments is Null) ==> m@[2].0@ == "arguments"@ && m@[2].1 == r.arguments
        },
        _ => false,
    }
}

/// The request that the wire value `v` holds. Members other than `seq`,
/// `command` and `arguments` are ignored; absent arguments read as null.
pub open spec fn request_of(v: JsonValue) -> Result<Request, SerializationError> {
    match v {
        JsonValue::Object(m) => match member(m@, "seq"@) {
            None => Err(SerializationError::MissingField),
            Some(JsonValue::Int(seq)) => match member(m@, "command"@) {
                None => Err(SerializationError::MissingField),
                Some(JsonValue::Str(command)) => Ok(
                    Request {
                        seq,
                        command,
                        arguments: match member(m@, "arguments"@) {
                            Some(a) => a,
                            None => JsonValue::Null,
                        },
                    },
                ),
                Some(_) => Err(SerializationError::InvalidField),
            },
            Some(_) => Err(SerializationError::InvalidField),
        },
        _ => Err(SerializationError::NotAnObject),
    }
}

/// Reading back the wire form of a request gives the same request.
pub proof fn lemma_request_wire_round_trip(r: Request, v: JsonValue)
    requires
        request_wire(r, v),
    ensures
        request_of(v) == Ok::<Request, SerializationError>(r),
{
    lemma_wire_keys_distinct();
    reveal_with_fuel(member, 4);
}

/// The wire form of a request without arguments holds no `arguments` member,
/// not even a null one.
pub proof fn lemma_request_omits_null_arguments(r: Request, v: JsonValue)
    requires
        request_wire(r, v),
        r.arguments is Null,
    ensures
        lacks_key(v, "arguments"@),
{
    lemma_wire_keys_distinct();
    reveal_with_fuel(member, 3);
}

/// A request is read whatever its command, bound or not: its arguments are
/// passed on as the generic value they are.
pub proof fn lemma_unknown_command_read(
    m: Vec<(String, JsonValue)>,
    seq: i64,
    command: String,
    arguments: JsonValue,
)
    requires
        member(m@, "seq"@) == Some(JsonValue::Int(seq)),
        member(m@, "command"@) == Some(JsonValue::Str(command)),
        member(m@, "arguments"@) == Some(arguments),
    ensures
        request_of(JsonValue::Object(m)) == Ok::<Request, SerializationError>(
            Request { seq, command, arguments },
        ),
{
}

impl Request {
    /// Creates a new request.
    pub fn new(seq: i64, command: String, arguments: JsonValue) -> (r: Request)
        ensures
            r.seq == seq,
            r.command == command,
            r.arguments == arguments,
    {
        Request { seq, command, arguments }
    }

    /// The wire form of this request; null arguments are left out.
    pub fn to_json(self) -> (r: JsonValue)
        ensures
            request_wire(self, r),
            r matches JsonValue::Object(m) && distinct_keys(m@),
    {
        broadcast use {lemma_member_push, lemma_distinct_push};

        proof {
            lemma_wire_keys_distinct();
        }
        let Request { seq, command, arguments } = self;
        let mut m: Vec<(String, JsonValue)> = Vec::new();
        m.push((text("seq"), JsonValue::Int(seq)));
        m.push((text("command"), JsonValue::Str(command)));
        if !arguments.is_null() {
            m.push((text("arguments"), arguments));
        }
        JsonValue::Object(m)
    }

    /// Reads a request from its wire form.
    pub fn from_json(v: JsonValue) -> (r: Result<Request, SerializationError>)
        ensures
            r == request_of(v),
    {
        proof {
            lemma_wire_keys_distinct();
        }
        match v {
            JsonValue::Object(m) => {
                let ghost m0 = m@;
                let mut m = m;
                let seq = take_member(&mut m, &text("seq"));
                let ghost m1 = m@;
                let command = take_member(&mut m, &text("command"));
                assert(member(m1, "arguments"@) == member(m0, "arguments"@));
                let arguments = take_member(&mut m, &text("arguments"));
                match seq {
                    None => Err(SerializationError::MissingField),
                    Some(JsonValue::Int(seq)) => match command {
                        None => Err(SerializationError::MissingField),
                        Some(JsonValue::Str(command)) => {
                            let arguments = match arguments {
                                Some(a) => a,
                                None => JsonValue::Null,
                            };
                            Ok(Request { seq, command, arguments })
                        },
                        Some(_) => Err(SerializationError::InvalidField),
                    },
                    Some(_) => Err(SerializationError::InvalidField),
                }
            },
            _ => Err(SerializationError::NotAnObject),
        }
    }
}


/// An asynchronous event: an event name with its body as a generic value.
#[derive(Debug, Clone)]
pub struct Event {
    /// Sequence number of the message.
    pub seq: i64,
    /// Type of event.
    pub event: String,
    /// Event-specific information; null when there is none.
    pub body: JsonValue,
}

/// Whether `v` is the wire form of `e`: `seq`, `event`, then `body` unless it
/// is null.
pub open spec fn event_wire(e: Event, v: JsonValue) -> bool {
    match v {
        JsonValue::Object(m) => {
            &&& m@.len() == if e.body is Null { 2int } else { 3int }
            &&& m@[0].0@ == "seq"@ && m@[0].1 == JsonValue::Int(e.seq)
            &&& m@[1].0@ == "event"@ && m@[1].1 == JsonValue::Str(e.event)
            &&& !(e.body is Null) ==> m@[2].0@ == "body"@ && m@[2].1 == e.body
        },
        _ => false,
    }
}

/// The event that the wire value `v` holds. Other members are ignored; an
/// absent body reads as null.
pub open spec fn event_of(v: JsonValue) -> Result<Event, SerializationError> {
    match v {
        JsonValue::Object(m) => match member(m@, "seq"@) {
            None => Err(SerializationError::MissingField),
            Some(JsonValue::Int(seq)) => match member(m@, "event"@) {
                None => Err(SerializationError::MissingField),
                Some(JsonValue::Str(event)) => Ok(
                    Event {
                        seq,
                        event,
                        body: match member(m@, "body"@) {
                            Some(b) => b,
                            None => JsonValue::Null,
                        },
                    },
                ),
                Some(_) => Err(SerializationError::InvalidField),
            },
            Some(_) => Err(SerializationError::InvalidField),
        },
        _ => Err(SerializationError::NotAnObject),
    }
}

/// Reading back the wire form of an event gives the same event.
pub proof fn lemma_event_wire_round_trip(e: Event, v: JsonValue)
    requires
        event_wire(e, v),
    ensures
        event_of(v) == Ok::<Event, SerializationError>(e),
{
    lemma_wire_keys_distinct();
    reveal_with_fuel(member, 4);
}

impl Event {
    /// Creates a new event.
    pub fn new(seq: i64, event: String, body: JsonValue) -> (r: Event)
        ensures
            r.seq == seq,
            r.event == event,
            r.body == body,
    {
        Event { seq, event, body }
    }

    /// The wire form of this event; a null body is left out.
    pub fn to_json(self) -> (r: JsonValue)
        ensures
            event_wire(self, r),
            r matches JsonValue::Object(m) && distinct_keys(m@),
    {
        broadcast use {lemma_member_push, lemma_distinct_push};

        proof {
            lemma_wire_keys_distinct();
        }
        let Event { seq, event, body } = self;
        let mut m: Vec<(String, JsonValue)> = Vec::new();
        m.push((text("seq"), JsonValue::Int(seq)));
        m.push((text("event"), JsonValue::Str(event)));
        if !body.is_null() {
            m.push((text("body"), body));
        }
        JsonValue::Object(m)
    }

    /// Reads an event from its wire form.
    pub fn from_json(v: JsonValue) -> (r: Result<Event, SerializationError>)
        ensures
            r == event_of(v),
    {
        proof {
            lemma_wire_keys_distinct();
        }
        match v {
            JsonValue::Object(m) => {
                let ghost m0 = m@;
                let mut m = m;
                let seq = take_member(&mut m, &text("seq"));
                let ghost m1 = m@;
                let event = take_member(&mut m, &text("event"));
                assert(member(m1, "body"@) == member(m0, "body"@));
                let body = take_member(&mut m, &text("body"));
                match seq {
                    None => Err(SerializationError::MissingField),
                    Some(JsonValue::Int(seq)) => match event {
                        None => Err(SerializationError::MissingField),
                        Some(JsonValue::Str(event)) => {
                            let body = match body {
                                Some(b) => b,
                                None => JsonValue::Null,
                            };
                            Ok(Event { seq, event, body })
                        },
                        Some(_) => Err(SerializationError::InvalidField),
                    },
                    Some(_) => Err(SerializationError::InvalidField),
                }
            },
            _ => Err(SerializationError::NotAnObject),
        }
    }
}

/// A response to a request, correlated to it by `request_seq`.
#[derive(Debug, Clone)]
pub struct Response {
    /// Sequence number of the request answered.
    pub request_seq: i64,
    /// Outcome of the request.
    pub success: bool,
    /// The error in short form (such as `cancelled`) when `success` is false.
    pub message: Option<String>,
    /// The result of the request, or error details when it failed.
    pub body: Option<JsonValue>,
}

/// The body as it goes on the wire: a null body is an empty one, and is
/// left out like an absent one.
pub open spec fn written_body(b: Option<JsonValue>) -> Option<JsonValue> {
    match b {
        Some(JsonValue::Null) => None,
        _ => b,
    }
}

/// Whether `v` is the wire form of `r`: `request_seq`, `success`, then
/// `message` where present and `body` where present and not null.
pub open spec fn response_wire(r: Response, v: JsonValue) -> bool {
    match v {
        JsonValue::Object(m) => {
            &&& m@.len() == 2 + (if r.message is Some { 1int } else { 0int }) + (if written_body(
                r.body,
            ) is Some {
                1int
            } else {
                0int
            })
            &&& m@[0].0@ == "request_seq"@ && m@[0].1 == JsonValue::Int(r.request_seq)
            &&& m@[1].0@ == "success"@ && m@[1].1 == JsonValue::Bool(r.success)
            &&& r.message is Some ==> m@[2].0@ == "message"@ && m@[2].1 == JsonValue::Str(
                r.message->0,
            )
            &&& written_body(r.body) matches Some(b) ==> m@[m@.len() - 1].0@ == "body"@ && m@[m@.len()
                - 1].1 == b
        },
        _ => false,
    }
}

/// The response that the wire value `v` holds. Other members are ignored; a
/// null `message` or `body` reads as absent.
pub open spec fn response_of(v: JsonValue) -> Result<Response, SerializationError> {
    match v {
        JsonValue::Object(m) => match (
            member(m@, "request_seq"@),
            member(m@, "success"@),
            member(m@, "message"@),
        ) {
            (None, _, _) => Err(SerializationError::MissingField),
            (Some(JsonValue::Int(request_seq)), None, _) => Err(SerializationError::MissingField),
            (Some(JsonValue::Int(request_seq)), Some(JsonValue::Bool(success)), msg) => {
                let message = match msg {
                    None => Ok(None),
                    Some(JsonValue::Null) => Ok(None),
                    Some(JsonValue::Str(s)) => Ok(Some(s)),
                    Some(_) => Err(SerializationError::InvalidField),
                };
                match message {
                    Ok(message) => Ok(
                        Response {
                            request_seq,
                            success,
                            message,
                            body: match member(m@, "body"@) {
                                None => None,
                                Some(JsonValue::Null) => None,
                                Some(b) => Some(b),
                            },
                        },
                    ),
                    Err(e) => Err(e),
                }
            },
            _ => Err(SerializationError::InvalidField),
        },
        _ => Err(SerializationError::NotAnObject),
    }
}

/// Reading back the wire form of a response gives the same response, with a
/// null body read back as absent.
pub proof fn lemma_response_wire_round_trip(r: Response, v: JsonValue)
    requires
        response_wire(r, v),
    ensures
        response_of(v) == Ok::<Response, SerializationError>(
            Response {
                request_seq: r.request_seq,
                success: r.success,
                message: r.message,
                body: written_body(r.body),
            },
        ),
{
    lemma_wire_keys_distinct();
    reveal_with_fuel(member, 5);
}

/// The wire form of a response holds no `message` member when it has no
/// message, and no `body` member when its body is absent or null: no
/// optional member is ever written as null.
pub proof fn lemma_response_omits_absent(r: Response, v: JsonValue)
    requires
        response_wire(r, v),
    ensures
        r.message is None ==> lacks_key(v, "message"@),
        r.body is None || r.body == Some(JsonValue::Null) ==> lacks_key(v, "body"@),
        v matches JsonValue::Object(m) && forall|i: int|
            0 <= i < m@.len() ==> !(#[trigger] m@[i].1 is Null),
{
    lemma_wire_keys_distinct();
    reveal_with_fuel(member, 4);
}

/// The wire form of an event without a body holds no `body` member.
pub proof fn lemma_event_omits_null_body(e: Event, v: JsonValue)
    requires
        event_wire(e, v),
        e.body is Null,
    ensures
        lacks_key(v, "body"@),
{
    lemma_wire_keys_distinct();
    reveal_with_fuel(member, 3);
}

impl Default for Response {
    /// A failed response to request 0, with no message and no body.
    fn default() -> (r: Response)
        ensures
            r.request_seq == 0,
            !r.success,
            r.message is None,
            r.body is None,
    {
        Response { request_seq: 0, success: false, message: None, body: None }
    }
}

impl Response {
    /// Creates a new response.
    pub fn new(request_seq: i64, success: bool, message: Option<String>, body: Option<JsonValue>) -> (r:
        Response)
        ensures
            r.request_seq == request_seq,
            r.success == success,
            r.message == message,
            r.body == body,
    {
        Response { request_seq, success, message, body }
    }

    /// Creates a new successful response: no message, and `body` as its body.
    pub fn success(request_seq: i64, body: JsonValue) -> (r: Response)
        ensures
            r == success_response(request_seq, body),
    {
        Response { request_seq, success: true, message: None, body: Some(body) }
    }

    /// Creates a failed response: `message` is the error in short form, and
    /// the body, where `detail` is given, wraps it under the member `error`.
    pub fn error(request_seq: i64, message: Option<String>, detail: Option<Message>) -> (r: Response)
        ensures
            error_response(request_seq, message, detail, r),
    {
        let body = match detail {
            Some(d) => {
                let mut m: Vec<(String, JsonValue)> = Vec::new();
                m.push((text("error"), d.to_json()));
                Some(JsonValue::Object(m))
            },
            None => None,
        };
        Response { request_seq, success: false, message, body }
    }

    /// Whether this response answers `q`.
    pub fn answers(&self, q: &Request) -> (r: bool)
        ensures
            r == answers(*self, *q),
    {
        self.request_seq == q.seq
    }

    /// The wire form of this response; an absent message or body is left out.
    pub fn to_json(self) -> (r: JsonValue)
        ensures
            response_wire(self, r),
            r matches JsonValue::Object(m) && distinct_keys(m@),
    {
        broadcast use {lemma_member_push, lemma_distinct_push};

        proof {
            lemma_wire_keys_distinct();
        }
        let Response { request_seq, success, message, body } = self;
        let mut m: Vec<(String, JsonValue)> = Vec::new();
        m.push((text("request_seq"), JsonValue::Int(request_seq)));
        m.push((text("success"), JsonValue::Bool(success)));
        match message {
            Some(s) => m.push((text("message"), JsonValue::Str(s))),
            None => {},
        }
        match body {
            Some(b) => {
                if !b.is_null() {
                    m.push((text("body"), b));
                }
            },
            None => {},
        }
        JsonValue::Object(m)
    }

    /// Reads a response from its wire form.
    pub fn from_json(v: JsonValue) -> (r: Result<Response, SerializationError>)
        ensures
            r == response_of(v),
    {
        proof {
            lemma_wire_keys_distinct();
        }
        match v {
            JsonValue::Object(m) => {
                let ghost m0 = m@;
                let mut m = m;
                let request_seq = take_member(&mut m, &text("request_seq"));
                let ghost m1 = m@;
                let success = take_member(&mut m, &text("success"));
                let ghost m2 = m@;
                let message = take_member(&mut m, &text("message"));
                assert(member(m1, "message"@) == member(m0, "message"@));
                assert(member(m2, "body"@) == member(m1, "body"@));
                assert(member(m1, "body"@) == member(m0, "body"@));
                let body = take_member(&mut m, &text("body"));
                let request_seq = match request_seq {
                    None => { return Err(SerializationError::MissingField) },
                    Some(JsonValue::Int(n)) => n,
                    Some(_) => { return Err(SerializationError::InvalidField) },
                };
                let success = match success {
                    None => { return Err(SerializationError::MissingField) },
                    Some(JsonValue::Bool(b)) => b,
                    Some(_) => { return Err(SerializationError::InvalidField) },
                };
                let message = match message {
                    None => None,
                    Some(JsonValue::Null) => None,
                    Some(JsonValue::Str(s)) => Some(s),
                    Some(_) => { return Err(SerializationError::InvalidField) },
                };
                let body = match body {
                    None => None,
                    Some(JsonValue::Null) => None,
                    Some(b) => Some(b),
                };
                Ok(Response { request_seq, success, message, body })
            },
            _ => Err(SerializationError::NotAnObject),
        }
    }
}

/// The successful response to request `request_seq` with result `body`.
pub open spec fn success_response(request_seq: i64, body: JsonValue) -> Response {
    Response { request_seq, success: true, message: None, body: Some(body) }
}

/// Whether `b` wraps the structured error `detail`: an object whose one
/// member, `error`, holds it.
pub open spec fn error_body(detail: Message, b: JsonValue) -> bool {
    match b {
        JsonValue::Object(m) => m@.len() == 1 && m@[0].0@ == "error"@ && detail.encodes(m@[0].1),
        _ => false,
    }
}

/// Whether `r` is the failed response to request `request_seq` with short
/// error `message` and structured error `detail`.
pub open spec fn error_response(
    request_seq: i64,
    message: Option<String>,
    detail: Option<Message>,
    r: Response,
) -> bool {
    &&& r.request_seq == request_seq
    &&& !r.success
    &&& r.message == message
    &&& match detail {
        None => r.body is None,
        Some(d) => r.body matches Some(b) && error_body(d, b),
    }
}

/// A failed response carries its structured error under the member `error`,
/// from which it reads back unchanged; without one it has no body at all.
pub proof fn lemma_error_wrapping(
    request_seq: i64,
    message: Option<String>,
    detail: Option<Message>,
    r: Response,
)
    requires
        error_response(request_seq, message, detail, r),
    ensures
        detail is None ==> r.body is None,
        detail matches Some(d) ==> r.body matches Some(JsonValue::Object(m)) && member(
            m@,
            "error"@,
        ) matches Some(x) && Message::decoding(x) == Some(d),
{
    if let Some(d) = detail {
        if let Some(JsonValue::Object(m)) = r.body {
            reveal_with_fuel(member, 2);
            Message::lemma_decode_encoded(d, m@[0].1);
        }
    }
}

/// Whether `r` answers `q`: the sole correlation between the two.
pub open spec fn answers(r: Response, q: Request) -> bool {
    r.request_seq == q.seq
}

/// A successful response built for a request's sequence number answers that
/// request, whatever its body.
pub proof fn lemma_success_answers(q: Request, body: JsonValue)
    ensures
        answers(success_response(q.seq, body), q),
        success_response(q.seq, body).request_seq == q.seq,
{
}

} // verus!
