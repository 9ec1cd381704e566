use vstd::prelude::*;
use crate::binding::IEvent;
use crate::types::StoppedEventBody;
use crate::value::text;

verus! {

/// The event that execution stopped.
pub struct StoppedEvent;

impl IEvent for StoppedEvent {
    type Body = StoppedEventBody;

    open spec fn event_name() -> Seq<char> {
        "stopped"@
    }

    fn event() -> (r: String) {
        text("stopped")
    }
}

} // verus!
