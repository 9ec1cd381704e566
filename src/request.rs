use vstd::prelude::*;
use crate::binding::IRequest;
use crate::value::{JsonValue, text};

verus! {

/// The request to start the debuggee. Its arguments are specific to each
/// adapter, so they stay a generic value; its response has no body.
pub struct LaunchRequest;

impl IRequest for LaunchRequest {
    type Arguments = JsonValue;

    type Response = ();

    open spec fn command_name() -> Seq<char> {
        "launch"@
    }

    fn command() -> (r: String) {
        text("launch")
    }
}

} // verus!
