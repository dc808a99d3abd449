use ra2a::jcodec::artifact_of_json;
use ra2a::jcodec::artifact_to_json;
use ra2a::jcodec::config_of_json;
use ra2a::jcodec::config_to_json;
use ra2a::jcodec::get_task_request_of_json;
use ra2a::jcodec::get_task_request_to_json;
use ra2a::jcodec::int_text;
use ra2a::jcodec::message_of_json;
use ra2a::jcodec::message_to_json;
use ra2a::jcodec::parse_int_text;
use ra2a::jcodec::part_of_json;
use ra2a::jcodec::part_to_json;
use ra2a::jcodec::payload_of_json;
use ra2a::jcodec::payload_to_json;
use ra2a::jcodec::send_request_of_json;
use ra2a::jcodec::send_request_to_json;
use ra2a::jcodec::send_response_of_json;
use ra2a::jcodec::send_response_to_json;
use ra2a::jcodec::status_of_json;
use ra2a::jcodec::status_to_json;
use ra2a::jcodec::task_of_json;
use ra2a::jcodec::task_to_json;
use ra2a::jsontext::from_json_text;
use ra2a::jsontext::to_json_text;
use ra2a::model::Artifact;
use ra2a::model::DataPart;
use ra2a::model::File;
use ra2a::model::FilePart;
use ra2a::model::GetTaskGrpcRequest;
use ra2a::model::GetTaskRequest;
use ra2a::model::Message;
use ra2a::model::Part;
use ra2a::model::PartBase;
use ra2a::model::PushNotificationAuthenticationInfo;
use ra2a::model::PushNotificationConfig;
use ra2a::model::SendMessageConfiguration;
use ra2a::model::SendMessageRequest;
use ra2a::model::SendMessageResponse;
use ra2a::model::SendMessageResponsePayload;
use ra2a::model::Task;
use ra2a::model::TaskStatus;
use ra2a::model::Timestamp;
use ra2a::object::JsonValue;
use ra2a::object::Object;

fn sample_object() -> Object {
    Object {
        fields: vec![
            ("flag".to_string(), JsonValue::Bool(true)),
            ("note".to_string(), JsonValue::Str("hi \"there\"\n".to_string())),
            ("count".to_string(), JsonValue::Number("42".to_string())),
            ("nothing".to_string(), JsonValue::Null),
            (
                "inner".to_string(),
                JsonValue::Array(vec![
                    JsonValue::Number("-7".to_string()),
                    JsonValue::Object(Object { fields: vec![] }),
                ]),
            ),
        ],
    }
}

fn sample_message() -> Message {
    Message {
        message_id: "m-1".to_string(),
        context_id: Some("ctx-1".to_string()),
        task_id: None,
        role: 1,
        parts: vec![
            Part { part: Some(PartBase::Text("hello".to_string())) },
            Part {
                part: Some(PartBase::File(FilePart {
                    file: Some(File::FileWithUri("file:///x".to_string())),
                    mime_type: "text/plain".to_string(),
                })),
            },
            Part {
                part: Some(PartBase::File(FilePart {
                    file: Some(File::FileWithBytes(vec![0, 1, 255])),
                    mime_type: "application/octet-stream".to_string(),
                })),
            },
            Part { part: Some(PartBase::Data(DataPart { data: Some(sample_object()) })) },
            Part { part: None },
        ],
        metadata: Some(sample_object()),
        extensions: vec!["https://ext.example".to_string()],
    }
}

fn sample_task() -> Task {
    Task {
        id: "t-1".to_string(),
        context_id: "c-1".to_string(),
        status: Some(TaskStatus {
            state: 3,
            message: Some(sample_message()),
            timestamp: Some(Timestamp { seconds: 1700000000, nanos: 123456789 }),
        }),
        artifacts: vec![Artifact {
            artifact_id: "a-1".to_string(),
            name: "out".to_string(),
            description: "result".to_string(),
            parts: vec![Part { part: Some(PartBase::Text("done".to_string())) }],
            metadata: None,
            extensions: vec![],
        }],
        history: vec![sample_message()],
        metadata: Some(Object::empty()),
    }
}

/// Every entity round-trips through its JSON tree form.
#[test]
fn tree_round_trips() {
    let m = sample_message();
    assert_eq!(message_of_json(&message_to_json(&m)).unwrap(), m);

    let t = sample_task();
    assert_eq!(task_of_json(&task_to_json(&t)).unwrap(), t);

    let st = t.status.clone().unwrap();
    assert_eq!(status_of_json(&status_to_json(&st)).unwrap(), st);

    let a = t.artifacts[0].clone();
    assert_eq!(artifact_of_json(&artifact_to_json(&a)).unwrap(), a);

    for p in &m.parts {
        assert_eq!(part_of_json(&part_to_json(p)).unwrap(), *p);
    }

    let cfg = SendMessageConfiguration {
        accepted_output_modes: vec!["text/plain".to_string()],
        push_notification: Some(PushNotificationConfig {
            id: "p-1".to_string(),
            url: "https://hook".to_string(),
            token: "tok".to_string(),
            authentication: Some(PushNotificationAuthenticationInfo {
                schemes: vec!["Bearer".to_string()],
                credentials: "cred".to_string(),
            }),
        }),
        history_length: -3,
        blocking: true,
    };
    assert_eq!(config_of_json(&config_to_json(&cfg)).unwrap(), cfg);

    let req = SendMessageRequest {
        message: Some(m.clone()),
        configuration: Some(cfg),
        metadata: Some(sample_object()),
    };
    assert_eq!(send_request_of_json(&send_request_to_json(&req)).unwrap(), req);

    let pt = SendMessageResponsePayload::Task(t.clone());
    assert_eq!(payload_of_json(&payload_to_json(&pt)).unwrap(), pt);
    let pm = SendMessageResponsePayload::Message(m.clone());
    assert_eq!(payload_of_json(&payload_to_json(&pm)).unwrap(), pm);

    let resp = SendMessageResponse { payload: Some(pt) };
    assert_eq!(send_response_of_json(&send_response_to_json(&resp)).unwrap(), resp);

    let gt = GetTaskRequest {
        id: "t-1".to_string(),
        history_length: Some(7),
        metadata: None,
    };
    assert_eq!(get_task_request_of_json(&get_task_request_to_json(&gt)).unwrap(), gt);
}

/// Printing a tree and reading the text back yields an equal tree.
#[test]
fn text_round_trips() {
    let v = JsonValue::Object(sample_object());
    let text = to_json_text(&v);
    let back = from_json_text(&text).unwrap();
    assert_eq!(back, v);

    let t = sample_task();
    let tv = task_to_json(&t);
    let bytes = to_json_text(&tv);
    let back = from_json_text(&bytes).unwrap();
    assert_eq!(task_of_json(&back).unwrap(), t);
}

/// The reader accepts whitespace, escapes and any field order.
#[test]
fn text_reader_accepts_standard_json() {
    let text = " {
        \"contextId\": null,
        \"messageId\": \"m-9\",
        \"role\": \"agent\",
        \"parts\": [ { \"kind\": \"text\", \"text\": \"a\\tbA\\ud83d\\ude00\" } ]
    } ";
    let v = from_json_text(text.as_bytes()).unwrap();
    let m = message_of_json(&v).unwrap();
    assert_eq!(m.message_id, "m-9");
    assert_eq!(m.role, 2);
    assert_eq!(
        m.parts[0].part,
        Some(PartBase::Text("a\tbA\u{1F600}".to_string()))
    );
}

/// Number texts are carried exactly; parsing enforces the i64 range.
#[test]
fn int_text_cases() {
    assert_eq!(int_text(0), "0");
    assert_eq!(int_text(-123), "-123");
    assert_eq!(int_text(9223372036854775807), "9223372036854775807");
    assert_eq!(int_text(i64::MIN), "-9223372036854775808");
    assert_eq!(parse_int_text("0"), Some(0));
    assert_eq!(parse_int_text("-123"), Some(-123));
    assert_eq!(parse_int_text("-9223372036854775808"), Some(i64::MIN));
    assert_eq!(parse_int_text("9223372036854775808"), None);
    assert_eq!(parse_int_text("12x"), None);
    assert_eq!(parse_int_text(""), None);
}

/// The binary-wire resource name wraps and strips the task id.
#[test]
fn task_name_round_trip() {
    let q = GetTaskRequest {
        id: "abc".to_string(),
        history_length: Some(2),
        metadata: None,
    };
    let g = GetTaskGrpcRequest::of_request(&q);
    assert_eq!(g.name, "task/abc");
    let back = g.to_request();
    assert_eq!(back.id, "abc");
    assert_eq!(back.history_length, Some(2));
    // A name without the prefix is taken verbatim.
    let raw = GetTaskGrpcRequest { name: "plain".to_string(), history_length: None };
    assert_eq!(raw.to_request().id, "plain");
}

/// A timestamp appears as an RFC 3339 string on the textual wire and
/// reads back as the same instant.
#[test]
fn timestamp_round_trip() {
    let st = TaskStatus {
        state: 1,
        message: None,
        timestamp: Some(Timestamp { seconds: 0, nanos: 0 }),
    };
    let v = status_to_json(&st);
    let back = status_of_json(&v).unwrap();
    assert_eq!(back, st);
    let text = to_json_text(&v);
    let s = String::from_utf8(text).unwrap();
    assert!(s.contains("1970-01-01T00:00:00"));
}
