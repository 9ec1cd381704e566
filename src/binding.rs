use vstd::prelude::*;
use crate::envelope::{Event, Request, Response, SerializationError, event_of, event_wire, lemma_event_wire_round_trip, lemma_request_wire_round_trip, request_of, request_wire};
use crate::value::JsonValue;

verus! {

/// A concrete type carried in a generic payload slot: how a value of it is
/// written as a generic value, and how one is read back.
pub trait Payload: Sized {
    /// Whether `v` is the generic form of `self`.
    spec fn encodes(&self, v: JsonValue) -> bool;

    /// The value that the generic value `v` holds, if it holds one.
    spec fn decoding(v: JsonValue) -> Option<Self>;

    /// Reading back the generic form of a value gives that value.
    proof fn lemma_decode_encoded(a: Self, v: JsonValue)
        requires
            a.encodes(v),
        ensures
            Self::decoding(v) == Some(a),
    ;

    /// The generic form of this value.
    fn to_json(self) -> (r: JsonValue)
        ensures
            self.encodes(r),
    ;

    /// Reads a value from its generic form.
    fn from_json(v: JsonValue) -> (r: Option<Self>)
        ensures
            r == Self::decoding(v),
    ;
}

/// A command binding: the wire name of a command, with the types of its
/// arguments and of its response body.
pub trait IRequest {
    type Arguments: Payload;

    type Response: Payload;

    /// The wire name of the command.
    spec fn command_name() -> Seq<char>;

    /// The wire name of the command.
    fn command() -> (r: String)
        ensures
            r@ == Self::command_name(),
    ;
}

/// An event binding: the wire name of an event, with the type of its body.
pub trait IEvent {
    type Body: Payload;

    /// The wire name of the event.
    spec fn event_name() -> Seq<char>;

    /// The wire name of the event.
    fn event() -> (r: String)
        ensures
            r@ == Self::event_name(),
    ;
}

/// Why a payload could not be bound to a concrete type.
#[derive(Debug, Clone, Copy, PartialEq, Eq, Structural)]
pub enum BindingError {
    /// The message names another command or event than the binding asked for.
    UnknownBinding,
    /// The payload does not hold a value of the bound type.
    InvalidPayload,
    /// The response reports a failure, so its body is no result.
    Failed,
}

/// Whether `r` is the request with sequence number `seq` for command binding
/// `R`, carrying `args`.
pub open spec fn built_request<R: IRequest>(seq: i64, args: R::Arguments, r: Request) -> bool {
    &&& r.seq == seq
    &&& r.command@ == R::command_name()
    &&& args.encodes(r.arguments)
}

/// Whether `e` is the event with sequence number `seq` for event binding `E`,
/// carrying `body`.
pub open spec fn built_event<E: IEvent>(seq: i64, body: E::Body, e: Event) -> bool {
    &&& e.seq == seq
    &&& e.event@ == E::event_name()
    &&& body.encodes(e.body)
}

/// Builds a request for command binding `R` from typed arguments.
pub fn make_request<R: IRequest>(seq: i64, arguments: R::Arguments) -> (r: Request)
    ensures
        built_request::<R>(seq, arguments, r),
{
    Request::new(seq, R::command(), arguments.to_json())
}

/// Builds an event for event binding `E` from a typed body.
pub fn make_event<E: IEvent>(seq: i64, body: E::Body) -> (r: Event)
    ensures
        built_event::<E>(seq, body, r),
{
    Event::new(seq, E::event(), body.to_json())
}

/// Builds the successful response to request `request_seq` of command
/// binding `R` from a typed result.
pub fn make_success_response<R: IRequest>(request_seq: i64, body: R::Response) -> (r: Response)
    ensures
        r.request_seq == request_seq,
        r.success,
        r.message is None,
        r.body matches Some(b) && body.encodes(b),
{
    Response::success(request_seq, body.to_json())
}

/// The typed arguments of `req` under command binding `R`.
pub fn request_arguments<R: IRequest>(req: Request) -> (r: Result<R::Arguments, BindingError>)
    ensures
        req.command@ != R::command_name() ==> r == Err::<R::Arguments, BindingError>(
            BindingError::UnknownBinding,
        ),
        req.command@ == R::command_name() ==> r == match R::Arguments::decoding(req.arguments) {
            Some(a) => Ok::<R::Arguments, BindingError>(a),
            None => Err(BindingError::InvalidPayload),
        },
{
    if req.command != R::command() {
        return Err(BindingError::UnknownBinding);
    }
    match R::Arguments::from_json(req.arguments) {
        Some(a) => Ok(a),
        None => Err(BindingError::InvalidPayload),
    }
}

/// The typed body of `ev` under event binding `E`.
pub fn event_body<E: IEvent>(ev: Event) -> (r: Result<E::Body, BindingError>)
    ensures
        ev.event@ != E::event_name() ==> r == Err::<E::Body, BindingError>(
            BindingError::UnknownBinding,
        ),
        ev.event@ == E::event_name() ==> r == match E::Body::decoding(ev.body) {
            Some(b) => Ok::<E::Body, BindingError>(b),
            None => Err(BindingError::InvalidPayload),
        },
{
    if ev.event != E::event() {
        return Err(BindingError::UnknownBinding);
    }
    match E::Body::from_json(ev.body) {
        Some(b) => Ok(b),
        None => Err(BindingError::InvalidPayload),
    }
}

/// The typed result of a response under command binding `R`: a failed
/// response has none, and an absent body reads as null.
pub fn response_body<R: IRequest>(resp: Response) -> (r: Result<R::Response, BindingError>)
    ensures
        !resp.success ==> r == Err::<R::Response, BindingError>(BindingError::Failed),
        resp.success ==> r == match R::Response::decoding(
            match resp.body {
                Some(b) => b,
                None => JsonValue::Null,
            },
        ) {
            Some(b) => Ok::<R::Response, BindingError>(b),
            None => Err(BindingError::InvalidPayload),
        },
{
    if !resp.success {
        return Err(BindingError::Failed);
    }
    let body = match resp.body {
        Some(b) => b,
        None => JsonValue::Null,
    };
    match R::Response::from_json(body) {
        Some(b) => Ok(b),
        None => Err(BindingError::InvalidPayload),
    }
}

/// A request built from typed arguments, written to its wire form and read
/// back, is the same request, and its payload binds back to the same
/// arguments.
pub proof fn lemma_request_round_trip<R: IRequest>(
    seq: i64,
    args: R::Arguments,
    req: Request,
    wire: JsonValue,
)
    requires
        built_request::<R>(seq, args, req),
        request_wire(req, wire),
    ensures
        request_of(wire) == Ok::<Request, SerializationError>(req),
        R::Arguments::decoding(req.arguments) == Some(args),
{
    lemma_request_wire_round_trip(req, wire);
    R::Arguments::lemma_decode_encoded(args, req.arguments);
}

/// An event built from a typed body, written to its wire form and read back,
/// is the same event, and its payload binds back to the same body.
pub proof fn lemma_event_round_trip<E: IEvent>(seq: i64, body: E::Body, ev: Event, wire: JsonValue)
    requires
        built_event::<E>(seq, body, ev),
        event_wire(ev, wire),
    ensures
        event_of(wire) == Ok::<Event, SerializationError>(ev),
        E::Body::decoding(ev.body) == Some(body),
{
    lemma_event_wire_round_trip(ev, wire);
    E::Body::lemma_decode_encoded(body, ev.body);
}

} // verus!
