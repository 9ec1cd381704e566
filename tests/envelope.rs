use dapts::binding::{BindingError, event_body, make_event, make_request, make_success_response, request_arguments, response_body, Payload};
use dapts::envelope::{Event, Request, Response, SerializationError};
use dapts::event::StoppedEvent;
use dapts::request::LaunchRequest;
use dapts::sequence::SeqAllocator;
use dapts::types::{Message, StoppedEventBody, StoppedEventReason};
use dapts::value::JsonValue;

fn to_serde(v: JsonValue) -> serde_json::Value {
    match v {
        JsonValue::Null => serde_json::Value::Null,
        JsonValue::Bool(b) => serde_json::Value::Bool(b),
        JsonValue::Int(n) => serde_json::Value::from(n),
        JsonValue::Number(s) => serde_json::from_str(&s).unwrap(),
        JsonValue::Str(s) => serde_json::Value::String(s),
        JsonValue::Array(a) => serde_json::Value::Array(a.into_iter().map(to_serde).collect()),
        JsonValue::Object(m) => {
            let mut map = serde_json::Map::new();
            for (k, v) in m {
                map.insert(k, to_serde(v));
            }
            serde_json::Value::Object(map)
        }
    }
}

fn from_serde(v: serde_json::Value) -> JsonValue {
    match v {
        serde_json::Value::Null => JsonValue::Null,
        serde_json::Value::Bool(b) => JsonValue::Bool(b),
        serde_json::Value::Number(n) => match n.as_i64() {
            Some(i) => JsonValue::Int(i),
            None => JsonValue::Number(n.to_string()),
        },
        serde_json::Value::String(s) => JsonValue::Str(s),
        serde_json::Value::Array(a) => JsonValue::Array(a.into_iter().map(from_serde).collect()),
        serde_json::Value::Object(m) => {
            JsonValue::Object(m.into_iter().map(|(k, v)| (k, from_serde(v))).collect())
        }
    }
}

fn parse(s: &str) -> JsonValue {
    from_serde(serde_json::from_str(s).unwrap())
}

fn same(v: JsonValue, expected: &str) -> bool {
    to_serde(v) == serde_json::from_str::<serde_json::Value>(expected).unwrap()
}

fn keys(v: &JsonValue) -> Vec<String> {
    match v {
        JsonValue::Object(m) => m.iter().map(|(k, _)| k.clone()).collect(),
        _ => panic!("not an object"),
    }
}

fn program(name: &str) -> JsonValue {
    JsonValue::Object(vec![("program".to_string(), JsonValue::Str(name.to_string()))])
}

fn cancelled_detail() -> Message {
    Message {
        id: 42,
        format: "request {name} was cancelled".to_string(),
        send_telemetry: None,
        show_user: Some(true),
        url: None,
        url_label: None,
    }
}

#[test]
fn test_serialize_stopped_reason() {
    let reason = StoppedEventReason::Exception;
    let serialized = serde_json::to_string(&to_serde(reason.to_json())).unwrap();
    assert_eq!(serialized, r#""exception""#);

    let reason = StoppedEventReason::FunctionBreakpoint;
    let serialized = serde_json::to_string(&to_serde(reason.to_json())).unwrap();
    assert_eq!(serialized, r#""function breakpoint""#);
}

#[test]
fn launch_request_wire_form() {
    let r = make_request::<LaunchRequest>(1, program("a.out"));
    let wire = r.to_json();
    assert_eq!(keys(&wire), vec!["seq", "command", "arguments"]);
    assert!(same(wire, r#"{"seq":1,"command":"launch","arguments":{"program":"a.out"}}"#));
}

#[test]
fn request_without_arguments_omits_the_member() {
    let wire = Request::new(4, "threads".to_string(), JsonValue::Null).to_json();
    assert_eq!(keys(&wire), vec!["seq", "command"]);
    let text = serde_json::to_string(&to_serde(wire)).unwrap();
    assert!(!text.contains("arguments"));
}

#[test]
fn success_response_wire_form() {
    let body = JsonValue::Object(vec![("threadId".to_string(), JsonValue::Int(7))]);
    let wire = Response::success(1, body).to_json();
    assert_eq!(keys(&wire), vec!["request_seq", "success", "body"]);
    assert!(same(wire, r#"{"request_seq":1,"success":true,"body":{"threadId":7}}"#));
}

#[test]
fn success_response_correlates() {
    for n in [1i64, 17, i64::MAX, i64::MIN] {
        let q = Request::new(n, "next".to_string(), JsonValue::Null);
        let r = Response::success(q.seq, JsonValue::Null);
        assert_eq!(r.request_seq, n);
        assert!(r.success);
        assert!(r.message.is_none());
    }
}

#[test]
fn error_response_without_detail() {
    let r = Response::error(1, Some("cancelled".to_string()), None);
    assert!(!r.success);
    assert!(r.body.is_none());
    let wire = r.to_json();
    assert_eq!(keys(&wire), vec!["request_seq", "success", "message"]);
    assert!(same(wire, r#"{"request_seq":1,"success":false,"message":"cancelled"}"#));
}

#[test]
fn error_response_wraps_detail() {
    let r = Response::error(9, Some("cancelled".to_string()), Some(cancelled_detail()));
    assert_eq!(r.request_seq, 9);
    assert_eq!(r.message.as_deref(), Some("cancelled"));
    let body = r.body.unwrap();
    assert_eq!(keys(&body), vec!["error"]);
    assert!(same(
        body,
        r#"{"error":{"id":42,"format":"request {name} was cancelled","showUser":true}}"#
    ));
}

#[test]
fn error_detail_reads_back() {
    let r = Response::error(9, None, Some(cancelled_detail()));
    let inner = match r.body.unwrap() {
        JsonValue::Object(mut m) => m.remove(0).1,
        _ => panic!("not an object"),
    };
    let m = Message::from_json(inner).unwrap();
    assert_eq!(m.id, 42);
    assert_eq!(m.format, "request {name} was cancelled");
    assert_eq!(m.show_user, Some(true));
    assert_eq!(m.send_telemetry, None);
    assert_eq!(m.url, None);
}

#[test]
fn stopped_event_reads_exception() {
    let ev = Event::from_json(parse(r#"{"seq":2,"event":"stopped","body":{"reason":"exception"}}"#)).unwrap();
    assert_eq!(ev.seq, 2);
    let body = event_body::<StoppedEvent>(ev).unwrap();
    assert_eq!(body.reason, StoppedEventReason::Exception);
    assert_eq!(body.thread_id, None);
    let text = serde_json::to_string(&to_serde(body.reason.to_json())).unwrap();
    assert_eq!(text, r#""exception""#);
}

#[test]
fn unknown_command_is_read() {
    let r = Request::from_json(parse(r#"{"seq":3,"command":"future_cmd","arguments":{"x":1}}"#)).unwrap();
    assert_eq!(r.seq, 3);
    assert_eq!(r.command, "future_cmd");
    assert_eq!(request_arguments::<LaunchRequest>(r).unwrap_err(), BindingError::UnknownBinding);
    let r = Request::from_json(parse(r#"{"seq":3,"command":"future_cmd","arguments":{"x":1}}"#)).unwrap();
    assert!(same(r.arguments, r#"{"x":1}"#));
}

#[test]
fn request_round_trip() {
    let r = make_request::<LaunchRequest>(11, program("b.out"));
    let back = Request::from_json(parse(&serde_json::to_string(&to_serde(r.to_json())).unwrap())).unwrap();
    assert_eq!(back.seq, 11);
    assert_eq!(back.command, "launch");
    let args = request_arguments::<LaunchRequest>(back).unwrap();
    assert!(same(args, r#"{"program":"b.out"}"#));
}

#[test]
fn event_round_trip() {
    let body = StoppedEventBody {
        reason: StoppedEventReason::DataBreakpoint,
        description: Some("watch hit".to_string()),
        thread_id: Some(3),
        all_threads_stopped: Some(false),
    };
    let ev = make_event::<StoppedEvent>(5, body);
    assert_eq!(ev.event, "stopped");
    let wire = ev.to_json();
    assert!(same(
        Event::from_json(parse(&serde_json::to_string(&to_serde(wire)).unwrap())).unwrap().to_json(),
        r#"{"seq":5,"event":"stopped","body":{"reason":"data breakpoint","description":"watch hit","threadId":3,"allThreadsStopped":false}}"#
    ));
    let ev = make_event::<StoppedEvent>(6, StoppedEventBody {
        reason: StoppedEventReason::Goto,
        description: None,
        thread_id: Some(8),
        all_threads_stopped: None,
    });
    let back = Event::from_json(parse(&serde_json::to_string(&to_serde(ev.to_json())).unwrap())).unwrap();
    assert_eq!(back.seq, 6);
    let b = event_body::<StoppedEvent>(back).unwrap();
    assert_eq!(b.reason, StoppedEventReason::Goto);
    assert_eq!(b.thread_id, Some(8));
    assert_eq!(b.description, None);
    assert_eq!(b.all_threads_stopped, None);
}

#[test]
fn response_round_trip_and_null_body() {
    let r = make_success_response::<LaunchRequest>(12, ());
    assert!(matches!(r.body, Some(JsonValue::Null)));
    let wire = r.to_json();
    assert_eq!(keys(&wire), vec!["request_seq", "success"]);
    let back = Response::from_json(wire).unwrap();
    assert_eq!(back.request_seq, 12);
    assert!(back.success);
    assert!(back.body.is_none());
    assert!(response_body::<LaunchRequest>(back).is_ok());
    let failed = Response::from_json(parse(r#"{"request_seq":2,"success":false,"message":"notStopped"}"#)).unwrap();
    assert_eq!(failed.message.as_deref(), Some("notStopped"));
    assert_eq!(response_body::<LaunchRequest>(failed).unwrap_err(), BindingError::Failed);
}

#[test]
fn envelope_errors() {
    assert_eq!(Request::from_json(JsonValue::Int(1)).unwrap_err(), SerializationError::NotAnObject);
    assert_eq!(Request::from_json(parse(r#"{"command":"next"}"#)).unwrap_err(), SerializationError::MissingField);
    assert_eq!(Request::from_json(parse(r#"{"seq":"1","command":"next"}"#)).unwrap_err(), SerializationError::InvalidField);
    assert_eq!(Event::from_json(parse(r#"{"seq":1}"#)).unwrap_err(), SerializationError::MissingField);
    assert_eq!(Response::from_json(parse(r#"{"request_seq":1,"success":1}"#)).unwrap_err(), SerializationError::InvalidField);
    assert_eq!(Response::from_json(parse(r#"{"request_seq":1,"success":true,"message":5}"#)).unwrap_err(), SerializationError::InvalidField);
    assert_eq!(Response::from_json(parse(r#"{"success":true}"#)).unwrap_err(), SerializationError::MissingField);
}

#[test]
fn binding_errors() {
    let ev = Event::from_json(parse(r#"{"seq":2,"event":"stopped","body":{"reason":"nap"}}"#)).unwrap();
    assert_eq!(event_body::<StoppedEvent>(ev).unwrap_err(), BindingError::InvalidPayload);
    let ev = Event::from_json(parse(r#"{"seq":2,"event":"stopped"}"#)).unwrap();
    assert_eq!(event_body::<StoppedEvent>(ev).unwrap_err(), BindingError::InvalidPayload);
    let ev = Event::from_json(parse(r#"{"seq":2,"event":"output","body":{}}"#)).unwrap();
    assert_eq!(event_body::<StoppedEvent>(ev).unwrap_err(), BindingError::UnknownBinding);
    let r = Response::from_json(parse(r#"{"request_seq":2,"success":true,"body":{"x":1}}"#)).unwrap();
    assert_eq!(response_body::<LaunchRequest>(r).unwrap_err(), BindingError::InvalidPayload);
}

#[test]
fn reason_names() {
    let all = [
        (StoppedEventReason::Step, "step"),
        (StoppedEventReason::Breakpoint, "breakpoint"),
        (StoppedEventReason::Exception, "exception"),
        (StoppedEventReason::Pause, "pause"),
        (StoppedEventReason::Entry, "entry"),
        (StoppedEventReason::Goto, "goto"),
        (StoppedEventReason::FunctionBreakpoint, "function breakpoint"),
        (StoppedEventReason::DataBreakpoint, "data breakpoint"),
        (StoppedEventReason::InstructionBreakpoint, "instruction breakpoint"),
    ];
    for (r, name) in all {
        assert_eq!(r.name(), name);
        assert_eq!(StoppedEventReason::from_name(&name.to_string()), Some(r));
    }
    assert_eq!(StoppedEventReason::from_name(&"Exception".to_string()), None);
}

#[test]
fn non_integer_numbers_pass_through() {
    let r = Request::from_json(parse(r#"{"seq":1,"command":"evaluate","arguments":{"frameId":1.5}}"#)).unwrap();
    assert!(same(r.to_json(), r#"{"seq":1,"command":"evaluate","arguments":{"frameId":1.5}}"#));
}

#[test]
fn allocator_counts_from_one() {
    let mut a = SeqAllocator::new();
    assert_eq!(a.last(), 0);
    assert_eq!(a.allocate(), Some(1));
    assert_eq!(a.allocate(), Some(2));
    assert_eq!(a.allocate(), Some(3));
    assert_eq!(a.last(), 3);
}

#[test]
fn response_answers_its_request() {
    let mut a = SeqAllocator::new();
    let q = Request::new(a.allocate().unwrap(), "pause".to_string(), JsonValue::Null);
    let other = Request::new(a.allocate().unwrap(), "pause".to_string(), JsonValue::Null);
    let r = Response::success(q.seq, JsonValue::Null);
    assert!(r.answers(&q));
    assert!(!r.answers(&other));
}

#[test]
fn null_response_body_is_left_out() {
    let wire = Response::success(3, JsonValue::Null).to_json();
    assert!(same(wire, r#"{"request_seq":3,"success":true}"#));
    let wire = Response::new(4, false, None, Some(JsonValue::Null)).to_json();
    let text = serde_json::to_string(&to_serde(wire)).unwrap();
    assert_eq!(text, r#"{"request_seq":4,"success":false}"#);
}

#[test]
fn default_response_and_clones() {
    let d = Response::default();
    assert_eq!(d.request_seq, 0);
    assert!(!d.success);
    assert!(d.message.is_none() && d.body.is_none());
    let r = make_request::<LaunchRequest>(7, program("c.out"));
    let c = r.clone();
    assert!(same(c.to_json(), r#"{"seq":7,"command":"launch","arguments":{"program":"c.out"}}"#));
    assert!(same(r.to_json(), r#"{"seq":7,"command":"launch","arguments":{"program":"c.out"}}"#));
    let nested = JsonValue::Array(vec![JsonValue::Number("2.5".to_string()), program("d")]);
    assert!(same(nested.clone(), r#"[2.5,{"program":"d"}]"#));
}
