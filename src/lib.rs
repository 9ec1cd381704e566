//! Message envelopes and typed payload bindings for a request, response and
//! event protocol in the style of the Debug Adapter Protocol.
pub mod binding;
pub mod envelope;
pub mod event;
pub mod request;
pub mod sequence;
pub mod types;
pub mod value;

pub use crate::binding::{
    BindingError, IEvent, IRequest, Payload, event_body, make_event, make_request,
    make_success_response, request_arguments, response_body,
};
pub use crate::envelope::{Event, Request, Response, SerializationError};
pub use crate::sequence::SeqAllocator;
pub use crate::types::{Message, StoppedEventBody, StoppedEventReason};
pub use crate::value::JsonValue;
