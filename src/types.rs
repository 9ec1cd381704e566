use vstd::prelude::*;
use crate::binding::Payload;
use crate::value::{
    JsonValue, bool_member_is, distinct_keys, lemma_distinct_push, int_member_is, lemma_member_push, member, opt_bool_of, opt_int_of,
    opt_str_of, present, push_opt, read_opt_bool, read_opt_int, read_opt_str, str_member_is,
    take_member, text,
};

verus! {

/// A structured error message.
#[derive(Debug, Clone)]
pub struct Message {
    /// Unique identifier for the message.
    pub id: i64,
    /// A format string for the message, with `{name}` placeholders.
    pub format: String,
    /// Whether the message may be sent to telemetry.
    pub send_telemetry: Option<bool>,
    /// Whether the message is shown to the user.
    pub show_user: Option<bool>,
    /// A link to more information about the error.
    pub url: Option<String>,
    /// A label for `url`.
    pub url_label: Option<String>,
}

/// The member names of a `Message` differ from one another.
proof fn lemma_message_keys_distinct()
    ensures
        "id"@ != "format"@,
        "id"@ != "sendTelemetry"@,
        "id"@ != "showUser"@,
        "id"@ != "url"@,
        "id"@ != "urlLabel"@,
        "format"@ != "sendTelemetry"@,
        "format"@ != "showUser"@,
        "format"@ != "url"@,
        "format"@ != "urlLabel"@,
        "sendTelemetry"@ != "showUser"@,
        "sendTelemetry"@ != "url"@,
        "sendTelemetry"@ != "urlLabel"@,
        "showUser"@ != "url"@,
        "showUser"@ != "urlLabel"@,
        "url"@ != "urlLabel"@,
{
    reveal_strlit("id");
    reveal_strlit("format");
    reveal_strlit("sendTelemetry");
    reveal_strlit("showUser");
    reveal_strlit("url");
    reveal_strlit("urlLabel");
    assert("id"@.len() == 2 && "format"@.len() == 6 && "sendTelemetry"@.len() == 13);
    assert("showUser"@.len() == 8 && "url"@.len() == 3 && "urlLabel"@.len() == 8);
    assert("showUser"@[1] != "urlLabel"@[1]);
}

/// The optional boolean `x` as an optional member value.
fn bool_value(x: Option<bool>) -> (r: Option<JsonValue>)
    ensures
        r == match x {
            Some(b) => Some(JsonValue::Bool(b)),
            None => None::<JsonValue>,
        },
{
    match x {
        Some(b) => Some(JsonValue::Bool(b)),
        None => None,
    }
}

/// The optional string `x` as an optional member value.
fn str_value(x: Option<String>) -> (r: Option<JsonValue>)
    ensures
        r == match x {
            Some(s) => Some(JsonValue::Str(s)),
            None => None::<JsonValue>,
        },
{
    match x {
        Some(s) => Some(JsonValue::Str(s)),
        None => None,
    }
}

impl Payload for Message {
    open spec fn encodes(&self, v: JsonValue) -> bool {
        match v {
            JsonValue::Object(m) => {
                &&& m@.len() == 2 + present(self.send_telemetry) + present(self.show_user)
                    + present(self.url) + present(self.url_label)
                &&& distinct_keys(m@)
                &&& member(m@, "id"@) == Some(JsonValue::Int(self.id))
                &&& member(m@, "format"@) == Some(JsonValue::Str(self.format))
                &&& bool_member_is(m@, "sendTelemetry"@, self.send_telemetry)
                &&& bool_member_is(m@, "showUser"@, self.show_user)
                &&& str_member_is(m@, "url"@, self.url)
                &&& str_member_is(m@, "urlLabel"@, self.url_label)
            },
            _ => false,
        }
    }

    open spec fn decoding(v: JsonValue) -> Option<Message> {
        match v {
            JsonValue::Object(m) => match (
                member(m@, "id"@),
                member(m@, "format"@),
                opt_bool_of(member(m@, "sendTelemetry"@)),
                opt_bool_of(member(m@, "showUser"@)),
                opt_str_of(member(m@, "url"@)),
                opt_str_of(member(m@, "urlLabel"@)),
            ) {
                (
                    Some(JsonValue::Int(id)),
                    Some(JsonValue::Str(format)),
                    Some(send_telemetry),
                    Some(show_user),
                    Some(url),
                    Some(url_label),
                ) => Some(Message { id, format, send_telemetry, show_user, url, url_label }),
                _ => None,
            },
            _ => None,
        }
    }

    proof fn lemma_decode_encoded(a: Message, v: JsonValue) {
    }

    fn to_json(self) -> (r: JsonValue) {
        broadcast use {lemma_member_push, lemma_distinct_push};

        proof {
            lemma_message_keys_distinct();
        }
        let Message { id, format, send_telemetry, show_user, url, url_label } = self;
        let mut m: Vec<(String, JsonValue)> = Vec::new();
        m.push((text("id"), JsonValue::Int(id)));
        m.push((text("format"), JsonValue::Str(format)));
        push_opt(&mut m, "sendTelemetry", bool_value(send_telemetry));
        push_opt(&mut m, "showUser", bool_value(show_user));
        push_opt(&mut m, "url", str_value(url));
        push_opt(&mut m, "urlLabel", str_value(url_label));
        JsonValue::Object(m)
    }

    fn from_json(v: JsonValue) -> (r: Option<Message>) {
        proof {
            lemma_message_keys_distinct();
        }
        match v {
            JsonValue::Object(m) => {
                let ghost m0 = m@;
                let mut m = m;
                let id = take_member(&mut m, &text("id"));
                let ghost m1 = m@;
                let format = take_member(&mut m, &text("format"));
                let ghost m2 = m@;
                let send_telemetry = take_member(&mut m, &text("sendTelemetry"));
                let ghost m3 = m@;
                let show_user = take_member(&mut m, &text("showUser"));
                let ghost m4 = m@;
                let url = take_member(&mut m, &text("url"));
                assert(member(m4, "urlLabel"@) == member(m3, "urlLabel"@));
                assert(member(m3, "urlLabel"@) == member(m2, "urlLabel"@));
                assert(member(m2, "urlLabel"@) == member(m1, "urlLabel"@));
                assert(member(m1, "urlLabel"@) == member(m0, "urlLabel"@));
                assert(member(m3, "url"@) == member(m2, "url"@));
                assert(member(m2, "url"@) == member(m1, "url"@));
                assert(member(m1, "url"@) == member(m0, "url"@));
                assert(member(m2, "showUser"@) == member(m1, "showUser"@));
                assert(member(m1, "showUser"@) == member(m0, "showUser"@));
                assert(member(m1, "sendTelemetry"@) == member(m0, "sendTelemetry"@));
                let url_label = take_member(&mut m, &text("urlLabel"));
                let id = match id {
                    Some(JsonValue::Int(n)) => n,
                    _ => { return None },
                };
                let format = match format {
                    Some(JsonValue::Str(s)) => s,
                    _ => { return None },
                };
                let send_telemetry = match read_opt_bool(send_telemetry) {
                    Some(x) => x,
                    None => { return None },
                };
                let show_user = match read_opt_bool(show_user) {
                    Some(x) => x,
                    None => { return None },
                };
                let url = match read_opt_str(url) {
                    Some(x) => x,
                    None => { return None },
                };
                let url_label = match read_opt_str(url_label) {
                    Some(x) => x,
                    None => { return None },
                };
                Some(Message { id, format, send_telemetry, show_user, url, url_label })
            },
            _ => None,
        }
    }
}

/// An untyped payload binds to itself: the form in which unknown commands
/// and events are passed on.
impl Payload for JsonValue {
    open spec fn encodes(&self, v: JsonValue) -> bool {
        v == *self
    }

    open spec fn decoding(v: JsonValue) -> Option<JsonValue> {
        Some(v)
    }

    proof fn lemma_decode_encoded(a: JsonValue, v: JsonValue) {
    }

    fn to_json(self) -> (r: JsonValue) {
        self
    }

    fn from_json(v: JsonValue) -> (r: Option<JsonValue>) {
        Some(v)
    }
}

/// The empty payload, written as null.
impl Payload for () {
    open spec fn encodes(&self, v: JsonValue) -> bool {
        v is Null
    }

    open spec fn decoding(v: JsonValue) -> Option<()> {
        if v is Null {
            Some(())
        } else {
            None
        }
    }

    proof fn lemma_decode_encoded(a: (), v: JsonValue) {
    }

    fn to_json(self) -> (r: JsonValue) {
        JsonValue::Null
    }

    fn from_json(v: JsonValue) -> (r: Option<()>) {
        if v.is_null() {
            Some(())
        } else {
            None
        }
    }
}

/// The reason for a stop of execution.
#[derive(Debug, Clone, Copy, PartialEq, Eq, Structural)]
pub enum StoppedEventReason {
    Step,
    Breakpoint,
    Exception,
    Pause,
    Entry,
    Goto,
    FunctionBreakpoint,
    DataBreakpoint,
    InstructionBreakpoint,
}

/// The wire name of a stop reason.
pub open spec fn reason_name(r: StoppedEventReason) -> Seq<char> {
    match r {
        StoppedEventReason::Step => "step"@,
        StoppedEventReason::Breakpoint => "breakpoint"@,
        StoppedEventReason::Exception => "exception"@,
        StoppedEventReason::Pause => "pause"@,
        StoppedEventReason::Entry => "entry"@,
        StoppedEventReason::Goto => "goto"@,
        StoppedEventReason::FunctionBreakpoint => "function breakpoint"@,
        StoppedEventReason::DataBreakpoint => "data breakpoint"@,
        StoppedEventReason::InstructionBreakpoint => "instruction breakpoint"@,
    }
}

/// The stop reason whose wire name is `s`, if any.
pub open spec fn reason_named(s: Seq<char>) -> Option<StoppedEventReason> {
    if s == "step"@ {
        Some(StoppedEventReason::Step)
    } else if s == "breakpoint"@ {
        Some(StoppedEventReason::Breakpoint)
    } else if s == "exception"@ {
        Some(StoppedEventReason::Exception)
    } else if s == "pause"@ {
        Some(StoppedEventReason::Pause)
    } else if s == "entry"@ {
        Some(StoppedEventReason::Entry)
    } else if s == "goto"@ {
        Some(StoppedEventReason::Goto)
    } else if s == "function breakpoint"@ {
        Some(StoppedEventReason::FunctionBreakpoint)
    } else if s == "data breakpoint"@ {
        Some(StoppedEventReason::DataBreakpoint)
    } else if s == "instruction breakpoint"@ {
        Some(StoppedEventReason::InstructionBreakpoint)
    } else {
        None
    }
}

/// Each stop reason is found again from its wire name.
proof fn lemma_reason_named(r: StoppedEventReason)
    ensures
        reason_named(reason_name(r)) == Some(r),
{
    reveal_strlit("step");
    reveal_strlit("breakpoint");
    reveal_strlit("exception");
    reveal_strlit("pause");
    reveal_strlit("entry");
    reveal_strlit("goto");
    reveal_strlit("function breakpoint");
    reveal_strlit("data breakpoint");
    reveal_strlit("instruction breakpoint");
    assert("step"@.len() == 4 && "breakpoint"@.len() == 10 && "exception"@.len() == 9);
    assert("pause"@.len() == 5 && "entry"@.len() == 5 && "goto"@.len() == 4);
    assert("function breakpoint"@.len() == 19 && "data breakpoint"@.len() == 15);
    assert("instruction breakpoint"@.len() == 22);
    assert("step"@[0] != "goto"@[0] && "pause"@[0] != "entry"@[0]);
}

impl StoppedEventReason {
    /// The wire name of this reason.
    pub fn name(&self) -> (r: String)
        ensures
            r@ == reason_name(*self),
    {
        match self {
            StoppedEventReason::Step => text("step"),
            StoppedEventReason::Breakpoint => text("breakpoint"),
            StoppedEventReason::Exception => text("exception"),
            StoppedEventReason::Pause => text("pause"),
            StoppedEventReason::Entry => text("entry"),
            StoppedEventReason::Goto => text("goto"),
            StoppedEventReason::FunctionBreakpoint => text("function breakpoint"),
            StoppedEventReason::DataBreakpoint => text("data breakpoint"),
            StoppedEventReason::InstructionBreakpoint => text("instruction breakpoint"),
        }
    }

    /// The reason whose wire name is `s`, if any.
    pub fn from_name(s: &String) -> (r: Option<StoppedEventReason>)
        ensures
            r == reason_named(s@),
    {
        if *s == text("step") {
            Some(StoppedEventReason::Step)
        } else if *s == text("breakpoint") {
            Some(StoppedEventReason::Breakpoint)
        } else if *s == text("exception") {
            Some(StoppedEventReason::Exception)
        } else if *s == text("pause") {
            Some(StoppedEventReason::Pause)
        } else if *s == text("entry") {
            Some(StoppedEventReason::Entry)
        } else if *s == text("goto") {
            Some(StoppedEventReason::Goto)
        } else if *s == text("function breakpoint") {
            Some(StoppedEventReason::FunctionBreakpoint)
        } else if *s == text("data breakpoint") {
            Some(StoppedEventReason::DataBreakpoint)
        } else if *s == text("instruction breakpoint") {
            Some(StoppedEventReason::InstructionBreakpoint)
        } else {
            None
        }
    }
}

impl Payload for StoppedEventReason {
    open spec fn encodes(&self, v: JsonValue) -> bool {
        v matches JsonValue::Str(s) && s@ == reason_name(*self)
    }

    open spec fn decoding(v: JsonValue) -> Option<StoppedEventReason> {
        match v {
            JsonValue::Str(s) => reason_named(s@),
            _ => None,
        }
    }

    proof fn lemma_decode_encoded(a: StoppedEventReason, v: JsonValue) {
        lemma_reason_named(a);
    }

    fn to_json(self) -> (r: JsonValue) {
        JsonValue::Str(self.name())
    }

    fn from_json(v: JsonValue) -> (r: Option<StoppedEventReason>) {
        match v {
            JsonValue::Str(s) => StoppedEventReason::from_name(&s),
            _ => None,
        }
    }
}

/// The body of the `stopped` event.
#[derive(Debug, Clone)]
pub struct StoppedEventBody {
    /// The reason for the stop.
    pub reason: StoppedEventReason,
    /// The full reason for the stop, as shown in the UI.
    pub description: Option<String>,
    /// The thread that was stopped.
    pub thread_id: Option<i64>,
    /// Whether all threads were stopped.
    pub all_threads_stopped: Option<bool>,
}

/// The member names of a `StoppedEventBody` differ from one another.
proof fn lemma_stopped_keys_distinct()
    ensures
        "reason"@ != "description"@,
        "reason"@ != "threadId"@,
        "reason"@ != "allThreadsStopped"@,
        "description"@ != "threadId"@,
        "description"@ != "allThreadsStopped"@,
        "threadId"@ != "allThreadsStopped"@,
{
    reveal_strlit("reason");
    reveal_strlit("description");
    reveal_strlit("threadId");
    reveal_strlit("allThreadsStopped");
    assert("reason"@.len() == 6 && "description"@.len() == 11);
    assert("threadId"@.len() == 8 && "allThreadsStopped"@.len() == 17);
}

/// The optional integer `x` as an optional member value.
fn int_value(x: Option<i64>) -> (r: Option<JsonValue>)
    ensures
        r == match x {
            Some(n) => Some(JsonValue::Int(n)),
            None => None::<JsonValue>,
        },
{
    match x {
        Some(n) => Some(JsonValue::Int(n)),
        None => None,
    }
}

impl Payload for StoppedEventBody {
    open spec fn encodes(&self, v: JsonValue) -> bool {
        match v {
            JsonValue::Object(m) => {
                &&& m@.len() == 1 + present(self.description) + present(self.thread_id) + present(
                    self.all_threads_stopped,
                )
                &&& distinct_keys(m@)
                &&& member(m@, "reason"@) matches Some(x) && self.reason.encodes(x)
                &&& str_member_is(m@, "description"@, self.description)
                &&& int_member_is(m@, "threadId"@, self.thread_id)
                &&& bool_member_is(m@, "allThreadsStopped"@, self.all_threads_stopped)
            },
            _ => false,
        }
    }

    open spec fn decoding(v: JsonValue) -> Option<StoppedEventBody> {
        match v {
            JsonValue::Object(m) => match member(m@, "reason"@) {
                Some(x) => match (
                    StoppedEventReason::decoding(x),
                    opt_str_of(member(m@, "description"@)),
                    opt_int_of(member(m@, "threadId"@)),
                    opt_bool_of(member(m@, "allThreadsStopped"@)),
                ) {
                    (Some(reason), Some(description), Some(thread_id), Some(all_threads_stopped)) => Some(
                        StoppedEventBody { reason, description, thread_id, all_threads_stopped },
                    ),
                    _ => None,
                },
                None => None,
            },
            _ => None,
        }
    }

    proof fn lemma_decode_encoded(a: StoppedEventBody, v: JsonValue) {
        lemma_reason_named(a.reason);
    }

    fn to_json(self) -> (r: JsonValue) {
        broadcast use {lemma_member_push, lemma_distinct_push};

        proof {
            lemma_stopped_keys_distinct();
        }
        let StoppedEventBody { reason, description, thread_id, all_threads_stopped } = self;
        let mut m: Vec<(String, JsonValue)> = Vec::new();
        m.push((text("reason"), reason.to_json()));
        push_opt(&mut m, "description", str_value(description));
        push_opt(&mut m, "threadId", int_value(thread_id));
        push_opt(&mut m, "allThreadsStopped", bool_value(all_threads_stopped));
        JsonValue::Object(m)
    }

    fn from_json(v: JsonValue) -> (r: Option<StoppedEventBody>) {
        proof {
            lemma_stopped_keys_distinct();
        }
        match v {
            JsonValue::Object(m) => {
                let ghost m0 = m@;
                let mut m = m;
                let reason = take_member(&mut m, &text("reason"));
                let ghost m1 = m@;
                let description = take_member(&mut m, &text("description"));
                let ghost m2 = m@;
                let thread_id = take_member(&mut m, &text("threadId"));
                assert(member(m2, "allThreadsStopped"@) == member(m1, "allThreadsStopped"@));
                assert(member(m1, "allThreadsStopped"@) == member(m0, "allThreadsStopped"@));
                assert(member(m1, "threadId"@) == member(m0, "threadId"@));
                let all_threads_stopped = take_member(&mut m, &text("allThreadsStopped"));
                let reason = match reason {
                    Some(x) => match StoppedEventReason::from_json(x) {
                        Some(r) => r,
                        None => { return None },
                    },
                    None => { return None },
                };
                let description = match read_opt_str(description) {
                    Some(x) => x,
                    None => { return None },
                };
                let thread_id = match read_opt_int(thread_id) {
                    Some(x) => x,
                    None => { return None },
                };
                let all_threads_stopped = match read_opt_bool(all_threads_stopped) {
                    Some(x) => x,
                    None => { return None },
                };
                Some(StoppedEventBody { reason, description, thread_id, all_threads_stopped })
            },
            _ => None,
        }
    }
}

} // verus!
