use ra2a::dispatch::A2AAgentError;
use ra2a::dispatch::A2ADelegate;
use ra2a::dispatch::AgentHandler;
use ra2a::dispatch::NoopAgentHandler;
use ra2a::dispatch::truncate_history;
use ra2a::errors::A2AError;
use ra2a::errors::A2AErrorCode;
use ra2a::errors::A2AProtocolError;
use ra2a::errors::A2ATransportError;
use ra2a::model::Artifact;
use ra2a::model::GetTaskRequest;
use ra2a::model::Message;
use ra2a::model::Part;
use ra2a::model::PartBase;
use ra2a::model::SendMessageConfiguration;
use ra2a::model::SendMessageRequest;
use ra2a::model::SendMessageResponsePayload;
use ra2a::model::Task;
use ra2a::model::TaskState;
use ra2a::model::TaskStatus;
use ra2a::object::Object;
use ra2a::queue::BoundedTaskQueue;
use ra2a::queue::TaskQueue;
use ra2a::queue::TaskQueueError;
use ra2a::store::InMemoryTaskStore;

fn simple_request(text: &str) -> SendMessageRequest {
    SendMessageRequest {
        message: Some(Message::new_simple(text.to_string())),
        configuration: None,
        metadata: None,
    }
}

fn is_uuid_v4(s: &str) -> bool {
    let cs: Vec<char> = s.chars().collect();
    if cs.len() != 36 {
        return false;
    }
    for (i, c) in cs.iter().enumerate() {
        if i == 8 || i == 13 || i == 18 || i == 23 {
            if *c != '-' {
                return false;
            }
        } else if !(c.is_ascii_digit() || ('a'..='f').contains(c)) {
            return false;
        }
    }
    cs[14] == '4' && (cs[19] == '8' || cs[19] == '9' || cs[19] == 'a' || cs[19] == 'b')
}

/// The echo agent returns the input message unchanged; the response is
/// that message, carrying a freshly minted server-owned id.
#[test]
fn echo_message_round() {
    let mut delegate = A2ADelegate::new(NoopAgentHandler);
    let res = delegate.send_message(simple_request("hello")).unwrap();
    match res.payload.unwrap() {
        SendMessageResponsePayload::Message(m) => {
            assert!(is_uuid_v4(&m.message_id));
            assert_eq!(m.parts.len(), 1);
            assert_eq!(
                m.parts[0].part,
                Some(PartBase::Text("hello".to_string()))
            );
        }
        SendMessageResponsePayload::Task(_) => panic!("expected message"),
    }
}

#[derive(Debug, Default)]
struct JokeHandler;

impl AgentHandler for JokeHandler {
    fn handle_message(
        &self,
        mut message: Message,
        _metadata: Option<Object>,
        mut task: Task,
    ) -> Result<SendMessageResponsePayload, A2AAgentError> {
        message.message_id = "9229e770-767c-417b-a0b0-f0741243c589".to_string();
        message.task_id = Some("363422be-b0f9-4692-a24d-278670e7c7f1".to_string());
        message.context_id = Some("c295ea44-7543-4f78-b524-7a38915ad6e4".to_string());
        task.id = "363422be-b0f9-4692-a24d-278670e7c7f1".to_string();
        task.context_id = "c295ea44-7543-4f78-b524-7a38915ad6e4".to_string();
        task.artifacts.push(Artifact {
            artifact_id: "9b6934dd-37e3-4eb1-8766-962efaab63a1".to_string(),
            name: "joke".to_string(),
            description: String::new(),
            parts: vec![Part {
                part: Some(PartBase::Text(String::from(
                    "Why did the chicken cross the road? To get to the other side!",
                ))),
            }],
            metadata: None,
            extensions: vec![],
        });
        task.history.push(message);
        task.status = Some(TaskStatus {
            state: TaskState::Completed.into_i32(),
            message: None,
            timestamp: None,
        });
        task.metadata = Some(Object::empty());
        Ok(SendMessageResponsePayload::Task(task))
    }
}

/// The joke agent completes a task; the returned task carries the fixed
/// ids, one artifact, the request message in its history, and the
/// completed state, and it has been persisted.
#[test]
fn should_create_task_and_respond() {
    let mut delegate = A2ADelegate::new(JokeHandler);
    let res = delegate.send_message(simple_request("tell me a joke")).unwrap();
    let task = match res.payload.unwrap() {
        SendMessageResponsePayload::Task(t) => t,
        _ => panic!("expected task"),
    };
    assert_eq!(task.id, "363422be-b0f9-4692-a24d-278670e7c7f1");
    assert_eq!(task.context_id, "c295ea44-7543-4f78-b524-7a38915ad6e4");
    assert_eq!(task.status.as_ref().unwrap().state, TaskState::Completed.into_i32());
    assert_eq!(task.artifacts.len(), 1);
    assert_eq!(task.artifacts[0].name, "joke");
    assert_eq!(task.history.len(), 1);
    assert!(is_uuid_v4(&task.history[0].message_id));
    // A blocking send that returned a task persisted it under its id.
    let fetched = delegate
        .get_task(GetTaskRequest {
            id: task.id.clone(),
            history_length: None,
            metadata: None,
        })
        .unwrap();
    assert_eq!(fetched, task);
}

#[derive(Debug, Default)]
struct SubmitHandler;

impl AgentHandler for SubmitHandler {
    fn handle_message(
        &self,
        message: Message,
        _metadata: Option<Object>,
        mut task: Task,
    ) -> Result<SendMessageResponsePayload, A2AAgentError> {
        task.history.push(message);
        task.status = Some(TaskStatus::default_submitted());
        Ok(SendMessageResponsePayload::Task(task))
    }
}

/// After a non-blocking send, the task is in the store with status
/// submitted and the overwritten message attached, and exactly one entry
/// sits in the queue.
#[test]
fn should_have_existing_task() {
    let mut delegate = A2ADelegate::new(SubmitHandler);
    let request = SendMessageRequest {
        message: Some(Message::new_simple("hello there!".to_string())),
        configuration: Some(SendMessageConfiguration {
            accepted_output_modes: vec!["text/plain".to_string()],
            push_notification: None,
            history_length: 0,
            blocking: false,
        }),
        metadata: None,
    };
    let res = delegate.send_message(request).unwrap();
    let task = match res.payload.unwrap() {
        SendMessageResponsePayload::Task(t) => t,
        _ => panic!("expected task"),
    };
    let status = task.status.as_ref().unwrap();
    assert_eq!(status.state, TaskState::Submitted.into_i32());
    let attached = status.message.as_ref().unwrap();
    assert!(is_uuid_v4(&attached.message_id));
    assert_eq!(
        attached.parts[0].part,
        Some(PartBase::Text("hello there!".to_string()))
    );
    // Exactly one entry was pushed onto the queue, and it is the task.
    assert_eq!(delegate.queue.len(), 1);
    let queued = delegate.queue.take().unwrap();
    assert_eq!(queued, task);
    // The task is present in the store.
    let got = delegate
        .get_task(GetTaskRequest {
            id: task.id.clone(),
            history_length: None,
            metadata: None,
        })
        .unwrap();
    assert_eq!(got, task);
}

/// Reading an unknown task id yields the task-not-found protocol error
/// carrying exactly that id.
#[test]
fn should_report_task_not_found() {
    let delegate = A2ADelegate::new(NoopAgentHandler);
    let err = delegate
        .get_task(GetTaskRequest {
            id: "bogus".to_string(),
            history_length: None,
            metadata: None,
        })
        .unwrap_err();
    match err {
        A2AError::Protocol(A2AProtocolError::TaskNotFound { id, code }) => {
            assert_eq!(id, "bogus");
            assert_eq!(code, A2AErrorCode::TaskNotFound);
        }
        other => panic!("expected task not found error, got {other:?}"),
    }
}

/// A send whose message names an unknown task is rejected with
/// task-not-found for that id.
#[test]
fn send_to_unknown_task_rejected() {
    let mut delegate = A2ADelegate::new(NoopAgentHandler);
    let mut message = Message::new_simple("hi".to_string());
    message.task_id = Some("missing".to_string());
    let err = delegate
        .send_message(SendMessageRequest {
            message: Some(message),
            configuration: None,
            metadata: None,
        })
        .unwrap_err();
    match err {
        A2AError::Protocol(A2AProtocolError::TaskNotFound { id, .. }) => {
            assert_eq!(id, "missing")
        }
        other => panic!("expected task not found error, got {other:?}"),
    }
}

/// A request without a message is rejected with the missing-payload
/// transport error.
#[test]
fn missing_payload_rejected() {
    let mut delegate = A2ADelegate::new(NoopAgentHandler);
    let err = delegate
        .send_message(SendMessageRequest {
            message: None,
            configuration: None,
            metadata: None,
        })
        .unwrap_err();
    assert_eq!(err, A2AError::Transport(A2ATransportError::MissingPayload));
}

/// A send with no configuration behaves exactly like one that spells the
/// default configuration out.
#[test]
fn default_configuration_equivalence() {
    let mut without = A2ADelegate::new(NoopAgentHandler);
    let mut with = A2ADelegate::new(NoopAgentHandler);
    let r1 = without.send_message(simple_request("hi")).unwrap();
    let r2 = with
        .send_message(SendMessageRequest {
            message: Some(Message::new_simple("hi".to_string())),
            configuration: Some(SendMessageConfiguration::new_default()),
            metadata: None,
        })
        .unwrap();
    // Both dispatches ran the blocking path; the echoed messages differ
    // only in the minted id.
    let m1 = match r1.payload.unwrap() {
        SendMessageResponsePayload::Message(m) => m,
        _ => panic!("expected message"),
    };
    let m2 = match r2.payload.unwrap() {
        SendMessageResponsePayload::Message(m) => m,
        _ => panic!("expected message"),
    };
    assert_eq!(m1.parts, m2.parts);
    assert_eq!(m1.role, m2.role);
    assert_ne!(m1.message_id, m2.message_id);
}

/// The advisory history length truncates to the last entries on get_task.
#[test]
fn history_truncation() {
    let mut task = Task::new();
    for text in ["one", "two", "three", "four"] {
        task.history.push(Message::new_simple(text.to_string()));
    }
    let truncated = truncate_history(task.dup(), Some(2));
    assert_eq!(truncated.history.len(), 2);
    assert_eq!(
        truncated.history[0].parts[0].part,
        Some(PartBase::Text("three".to_string()))
    );
    assert_eq!(
        truncated.history[1].parts[0].part,
        Some(PartBase::Text("four".to_string()))
    );
    let whole = truncate_history(task.dup(), Some(0));
    assert_eq!(whole.history.len(), 4);
    let untouched = truncate_history(task, None);
    assert_eq!(untouched.history.len(), 4);
}

/// The store is keyed by id, last writer wins, and delete removes.
#[test]
fn store_semantics() {
    let mut store = InMemoryTaskStore::new();
    let mut a = Task::new_with_id("t1".to_string());
    store.save(a.dup());
    assert!(store.lookup("t1").is_some());
    assert!(store.lookup("t2").is_none());
    a.status = Some(TaskStatus::default_submitted());
    store.save(a.dup());
    let read = store.lookup("t1").unwrap();
    assert_eq!(read.status, Some(TaskStatus::default_submitted()));
    let removed = store.discard("t1").unwrap();
    assert_eq!(removed.status, Some(TaskStatus::default_submitted()));
    assert!(store.lookup("t1").is_none());
}

/// The queue is FIFO, bounded, and fails closed once closed.
#[test]
fn queue_semantics() {
    let mut q = BoundedTaskQueue::new(2);
    assert!(q.push(Task::new_with_id("a".to_string())).is_ok());
    assert!(q.push(Task::new_with_id("b".to_string())).is_ok());
    assert_eq!(
        q.push(Task::new_with_id("c".to_string())),
        Err(TaskQueueError::Timeout)
    );
    let first = q.take().unwrap();
    assert_eq!(first.id, "a");
    q.close();
    assert_eq!(q.take(), Err(TaskQueueError::Closed));
    assert_eq!(
        q.push(Task::new_with_id("d".to_string())),
        Err(TaskQueueError::Closed)
    );
}
