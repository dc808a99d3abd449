//! The dispatch core: from a validated request to the user handler.
//! Owns the task store and the task queue; mints ids, resolves the task,
//! enforces blocking and non-blocking semantics, and persists results.
use vstd::prelude::*;

use crate::errors::A2AError;
use crate::errors::A2AErrorCode;
use crate::errors::A2AErrorV;
use crate::errors::A2AProtocolError;
use crate::errors::A2AProtocolErrorV;
use crate::errors::A2ATransportError;
use crate::errors::A2ATransportErrorV;
use crate::ids::is_uuid_v4_text;
use crate::model::GetTaskRequest;
use crate::model::Message;
use crate::model::MessageV;
use crate::model::SendMessageConfiguration;
use crate::model::SendMessageConfigurationV;
use crate::model::SendMessageRequest;
use crate::model::SendMessageRequestV;
use crate::model::SendMessageResponse;
use crate::model::SendMessageResponsePayload;
use crate::model::SendMessageResponsePayloadV;
use crate::model::Task;
use crate::model::TaskState;
use crate::model::TaskStatus;
use crate::model::TaskV;
use crate::object::Object;
use crate::queue::BoundedTaskQueue;
use crate::queue::TaskQueue;
use crate::queue::TaskQueueError;
use crate::store::InMemoryTaskStore;
use crate::store::TaskStore;

verus! {

/// An error of the user-supplied handler. One that names a protocol error
/// code bubbles out as that protocol error; any other failure bubbles out
/// as invalid-agent-response.
#[derive(Debug, Clone, PartialEq)]
pub enum A2AAgentError {
    Code(A2AErrorCode),
    Failed { message: String },
}

/// The protocol error a handler failure bubbles out as: the named kind,
/// with the worked-on task's id where the kind carries one; the
/// invalid-agent-response error for a failure without a code.
pub open spec fn spec_agent_error_to_protocol(
    err: A2AAgentError,
    task_id: Seq<char>,
) -> A2AProtocolErrorV {
    match err {
        A2AAgentError::Code(code) => match code {
            A2AErrorCode::TaskNotFound => A2AProtocolErrorV::TaskNotFound { id: task_id, code },
            A2AErrorCode::TaskNotCancelable => A2AProtocolErrorV::TaskNotCancelable {
                id: task_id,
                code,
            },
            A2AErrorCode::PushNotificationNotSupported =>
                A2AProtocolErrorV::PushNotificationNotSupported { code },
            A2AErrorCode::UnsupportedOperation => A2AProtocolErrorV::UnsupportedOperation { code },
            A2AErrorCode::ContentTypeNotSupported => A2AProtocolErrorV::ContentTypeNotSupported {
                code,
            },
            A2AErrorCode::InvalidAgentResponse => A2AProtocolErrorV::InvalidAgentResponse { code },
            A2AErrorCode::AuthenticatedExtendedCardNotConfigured =>
                A2AProtocolErrorV::AuthenticatedExtendedCardNotConfigured { code },
        },
        A2AAgentError::Failed { .. } => A2AProtocolErrorV::InvalidAgentResponse {
            code: A2AErrorCode::InvalidAgentResponse,
        },
    }
}

/// Maps a handler failure to the protocol error it bubbles out as.
pub fn agent_error_to_protocol(err: A2AAgentError, task_id: String) -> (r: A2AProtocolError)
    ensures
        r@ == spec_agent_error_to_protocol(err, task_id@),
{
    match err {
        A2AAgentError::Code(code) => match code {
            A2AErrorCode::TaskNotFound => A2AProtocolError::TaskNotFound { id: task_id, code },
            A2AErrorCode::TaskNotCancelable => A2AProtocolError::TaskNotCancelable {
                id: task_id,
                code,
            },
            A2AErrorCode::PushNotificationNotSupported =>
                A2AProtocolError::PushNotificationNotSupported { code },
            A2AErrorCode::UnsupportedOperation => A2AProtocolError::UnsupportedOperation { code },
            A2AErrorCode::ContentTypeNotSupported => A2AProtocolError::ContentTypeNotSupported {
                code,
            },
            A2AErrorCode::InvalidAgentResponse => A2AProtocolError::InvalidAgentResponse { code },
            A2AErrorCode::AuthenticatedExtendedCardNotConfigured =>
                A2AProtocolError::AuthenticatedExtendedCardNotConfigured { code },
        },
        A2AAgentError::Failed { .. } => A2AProtocolError::invalid_agent_response(),
    }
}

/// The user-supplied agent: interprets a message and produces either a
/// reply message or an updated task. Takes message and task by value so it
/// may mutate and return a derived task.
pub trait AgentHandler: Sized {
    fn handle_message(&self, message: Message, metadata: Option<Object>, task: Task) -> Result<
        SendMessageResponsePayload,
        A2AAgentError,
    >;
}

/// The trivial agent: echoes the incoming message back.
#[derive(Debug, Clone, Copy, PartialEq, Eq, Structural, Default)]
pub struct NoopAgentHandler;

impl AgentHandler for NoopAgentHandler {
    fn handle_message(&self, message: Message, _metadata: Option<Object>, _task: Task) -> Result<
        SendMessageResponsePayload,
        A2AAgentError,
    > {
        Ok(SendMessageResponsePayload::Message(message))
    }
}

/// The configuration a request resolves to: its own, or the default when
/// it carries none.
pub open spec fn resolved_config(req: SendMessageRequestV) -> SendMessageConfigurationV {
    match req.configuration {
        Some(c) => c,
        None => SendMessageConfigurationV::default_config(),
    }
}

/// Default configuration: a send without a configuration resolves to the
/// same configuration as one that spells the default out, so the two
/// requests are dispatched identically — every clause of `send_message`'s
/// contract depends on the configuration only through `resolved_config`.
pub proof fn lemma_default_configuration(a: SendMessageRequestV, b: SendMessageRequestV)
    requires
        a.message == b.message,
        a.metadata == b.metadata,
        a.configuration is None,
        b.configuration == Some(SendMessageConfigurationV::default_config()),
    ensures
        resolved_config(a) == resolved_config(b),
{
}

/// The server-owned rewrite of an incoming message: the id is replaced by
/// a freshly minted version-4 UUID and every other field is kept.
pub open spec fn overwritten_message(m: MessageV, m2: MessageV) -> bool {
    &&& is_uuid_v4_text(m2.message_id)
    &&& m2.context_id == m.context_id
    &&& m2.task_id == m.task_id
    &&& m2.role == m.role
    &&& m2.parts == m.parts
    &&& m2.metadata == m.metadata
    &&& m2.extensions == m.extensions
}

/// A task dispatch has just created: fresh minted ids, no status, no
/// artifacts, no history, no metadata.
pub open spec fn fresh_task(t: TaskV) -> bool {
    &&& is_uuid_v4_text(t.id)
    &&& is_uuid_v4_text(t.context_id)
    &&& t.status is None
    &&& t.artifacts == Seq::<crate::model::ArtifactV>::empty()
    &&& t.history == Seq::<MessageV>::empty()
    &&& t.metadata is None
}

/// The task a send resolves to: the stored one when the message names a
/// task, a fresh one when it does not.
pub open spec fn resolved_base_task(
    s0: Map<Seq<char>, TaskV>,
    m: MessageV,
    base: TaskV,
) -> bool {
    match m.task_id {
        Some(tid) => s0.contains_key(tid) && base == s0[tid],
        None => fresh_task(base),
    }
}

/// The task a non-blocking send persists and returns: the base task with
/// its status set to submitted, carrying the overwritten message and no
/// timestamp.
pub open spec fn submitted_task(t2: TaskV, base: TaskV, m: MessageV) -> bool {
    &&& t2.id == base.id
    &&& t2.context_id == base.context_id
    &&& t2.artifacts == base.artifacts
    &&& t2.history == base.history
    &&& t2.metadata == base.metadata
    &&& match t2.status {
        Some(st) => {
            &&& st.state == TaskState::Submitted.as_i32()
            &&& st.timestamp is None
            &&& match st.message {
                Some(m2) => overwritten_message(m, m2),
                None => false,
            }
        },
        None => false,
    }
}

/// A task with its history truncated to the last `n` entries when the
/// advisory history length asks for that; the full task otherwise.
pub open spec fn spec_truncated(t: TaskV, history_length: Option<int>) -> TaskV {
    match history_length {
        Some(n) => if n > 0 && t.history.len() > n {
            TaskV { history: t.history.subrange(t.history.len() - n, t.history.len() as int), ..t }
        } else {
            t
        },
        None => t,
    }
}

/// The dispatch core. Owns one task store and one task queue, and holds
/// the user handler.
#[derive(Debug)]
pub struct A2ADelegate<H: AgentHandler> {
    pub agent: H,
    pub store: InMemoryTaskStore,
    pub queue: BoundedTaskQueue,
}

/// The default capacity of the task queue a delegate is built with.
pub const DEFAULT_QUEUE_CAPACITY: usize = 10;

impl<H: AgentHandler> A2ADelegate<H> {
    /// The delegate's invariant: its store's own invariant.
    pub open spec fn inv(&self) -> bool {
        self.store.inv()
    }

    /// The tasks the delegate has persisted, keyed by id.
    pub open spec fn contents(&self) -> Map<Seq<char>, TaskV> {
        self.store.contents()
    }

    /// The tasks awaiting non-blocking execution, oldest first.
    pub open spec fn queued(&self) -> Seq<TaskV> {
        self.queue.items()
    }

    /// A fresh delegate around the given handler: empty store, empty open
    /// queue of the default capacity.
    pub fn new(agent: H) -> (r: A2ADelegate<H>)
        ensures
            r.inv(),
            r.contents() == Map::<Seq<char>, TaskV>::empty(),
            r.queued() == Seq::<TaskV>::empty(),
            !r.queue.closed(),
            r.queue.cap() == DEFAULT_QUEUE_CAPACITY,
    {
        A2ADelegate {
            agent,
            store: InMemoryTaskStore::new(),
            queue: BoundedTaskQueue::new(DEFAULT_QUEUE_CAPACITY),
        }
    }

    /// Dispatches one send. Rejects a request without a message; mints the
    /// message id; resolves configuration and task; then either runs the
    /// handler to completion (blocking) or persists and enqueues a
    /// submitted task (non-blocking).
    pub fn send_message(&mut self, request: SendMessageRequest) -> (r: Result<
        SendMessageResponse,
        A2AError,
    >)
        requires
            old(self).inv(),
        ensures
            final(self).inv(),
            final(self).queue.closed() == old(self).queue.closed(),
            // A request without a message is rejected, exactly then, and
            // changes nothing.
            request@.message is None ==> (r matches Err(e) && e@ == A2AErrorV::Transport(
                A2ATransportErrorV::MissingPayload,
            ) && final(self).contents() == old(self).contents() && final(self).queued() == old(
                self,
            ).queued()),
            // A message naming an unknown task is rejected with
            // task-not-found for that id, and changes nothing.
            (request@.message matches Some(m) && m.task_id matches Some(tid) && !old(
                self,
            ).contents().contains_key(tid)) ==> (r matches Err(e) && e@ == A2AErrorV::Protocol(
                A2AProtocolErrorV::TaskNotFound {
                    id: request@.message->Some_0.task_id->Some_0,
                    code: A2AErrorCode::TaskNotFound,
                },
            ) && final(self).contents() == old(self).contents() && final(self).queued() == old(
                self,
            ).queued()),
            // A blocking send returns the handler's payload; a returned
            // task is persisted under its id, a returned message persists
            // nothing. A failing handler surfaces as invalid-agent-response.
            ({
                &&& request@.message matches Some(m)
                &&& (m.task_id matches Some(tid) ==> old(self).contents().contains_key(tid))
                &&& resolved_config(request@).blocking
            }) ==> final(self).queued() == old(self).queued() && match r {
                Ok(resp) => match resp@.payload {
                    Some(SendMessageResponsePayloadV::Task(t)) => final(self).contents() == old(
                        self,
                    ).contents().insert(t.id, t),
                    Some(SendMessageResponsePayloadV::Message(_)) => final(self).contents() == old(
                        self,
                    ).contents(),
                    None => false,
                },
                Err(e) => e@ matches A2AErrorV::Protocol(_) && final(self).contents() == old(
                    self,
                ).contents(),
            },
            // A non-blocking send persists a submitted task carrying the
            // overwritten message, pushes exactly that task onto the queue,
            // and returns it.
            ({
                &&& request@.message matches Some(m)
                &&& (m.task_id matches Some(tid) ==> old(self).contents().contains_key(tid))
                &&& !resolved_config(request@).blocking
                &&& !old(self).queue.closed()
                &&& !old(self).queue.full()
            }) ==> (r matches Ok(resp) && match resp@.payload {
                Some(SendMessageResponsePayloadV::Task(t2)) => {
                    &&& exists|base: TaskV|
                        resolved_base_task(
                            old(self).contents(),
                            request@.message->Some_0,
                            base,
                        ) && #[trigger] submitted_task(t2, base, request@.message->Some_0)
                    &&& final(self).contents() == old(self).contents().insert(t2.id, t2)
                    &&& final(self).queued() == old(self).queued().push(t2)
                },
                _ => false,
            }),
            // A non-blocking send against a closed or full queue still
            // persists the submitted task but reports the queue failure.
            ({
                &&& request@.message matches Some(m)
                &&& (m.task_id matches Some(tid) ==> old(self).contents().contains_key(tid))
                &&& !resolved_config(request@).blocking
                &&& (old(self).queue.closed() || old(self).queue.full())
            }) ==> (r matches Err(e) && final(self).queued() == old(self).queued() && match e@ {
                A2AErrorV::Transport(A2ATransportErrorV::IoFailure { message }) => (old(
                    self,
                ).queue.closed() ==> message == "task queue closed"@) && (!old(self).queue.closed()
                    ==> message == "task queue full"@) && exists|t2: TaskV, base: TaskV|
                    resolved_base_task(old(self).contents(), request@.message->Some_0, base)
                        && #[trigger] submitted_task(t2, base, request@.message->Some_0) && final(self).contents() == old(self).contents().insert(t2.id, t2),
                _ => false,
            }),
    {
        let message = match request.message {
            Some(m) => m,
            None => {
                return Err(A2AError::Transport(A2ATransportError::MissingPayload));
            },
        };
        // The server owns message identity: overwrite whatever id the
        // client supplied.
        let ghost m0 = message@;
        let mut message = message;
        message.message_id = crate::ids::new_uuid_v4();
        proof {
            assert(overwritten_message(m0, message@));
        }

        let configuration = match request.configuration {
            Some(c) => c,
            None => SendMessageConfiguration::new_default(),
        };

        let task: Task = match &message.task_id {
            Some(tid) => match self.store.lookup(tid.as_str()) {
                Some(t) => t,
                None => {
                    return Err(A2AError::Protocol(A2AProtocolError::task_not_found(tid.clone())));
                },
            },
            None => Task::new(),
        };

        if configuration.blocking {
            let task_id_for_errors = task.id.clone();
            match self.agent.handle_message(message, request.metadata, task) {
                Ok(payload) => {
                    match &payload {
                        SendMessageResponsePayload::Task(t) => {
                            let _persisted = self.store.save(t.dup());
                        },
                        SendMessageResponsePayload::Message(_) => {},
                    }
                    Ok(SendMessageResponse { payload: Some(payload) })
                },
                Err(err) => Err(
                    A2AError::Protocol(agent_error_to_protocol(err, task_id_for_errors)),
                ),
            }
        } else {
            let ghost base = task@;
            proof {
                assert(resolved_base_task(old(self).contents(), m0, base));
            }
            let mut task = task;
            task.status = Some(
                TaskStatus { state: 1, message: Some(message), timestamp: None },
            );
            proof {
                assert(submitted_task(task@, base, m0));
            }
            let task = self.store.save(task);
            let response_task = task.dup();
            match self.queue.push(task) {
                Ok(()) => Ok(
                    SendMessageResponse {
                        payload: Some(SendMessageResponsePayload::Task(response_task)),
                    },
                ),
                Err(TaskQueueError::Closed) => Err(
                    A2AError::Transport(
                        A2ATransportError::IoFailure { message: "task queue closed".to_owned() },
                    ),
                ),
                Err(TaskQueueError::Timeout) => Err(
                    A2AError::Transport(
                        A2ATransportError::IoFailure { message: "task queue full".to_owned() },
                    ),
                ),
            }
        }
    }

    /// Reads one task by id. Fails with task-not-found exactly when the
    /// store holds no task of that id; truncates the history to the last
    /// `history_length` entries when that advisory field is positive.
    pub fn get_task(&self, request: GetTaskRequest) -> (r: Result<Task, A2AError>)
        requires
            self.inv(),
        ensures
            match r {
                Ok(t) => self.contents().contains_key(request@.id) && t@ == spec_truncated(
                    self.contents().index(request@.id),
                    request@.history_length,
                ),
                Err(e) => !self.contents().contains_key(request@.id) && e@ == A2AErrorV::Protocol(
                    A2AProtocolErrorV::TaskNotFound {
                        id: request@.id,
                        code: A2AErrorCode::TaskNotFound,
                    },
                ),
            },
    {
        match self.store.lookup(request.id.as_str()) {
            Some(t) => Ok(truncate_history(t, request.history_length)),
            None => Err(A2AError::Protocol(A2AProtocolError::task_not_found(request.id))),
        }
    }
}

/// Truncates a task's history to its last `n` entries when the advisory
/// length `n` is positive; keeps it whole otherwise.
pub fn truncate_history(task: Task, history_length: Option<i32>) -> (r: Task)
    ensures
        r@ == spec_truncated(task@, match history_length {
            Some(n) => Some(n as int),
            None => None,
        }),
{
    let ghost orig = task@;
    let mut task = task;
    match history_length {
        Some(n) => {
            if n > 0 {
                let keep = n as usize;
                while task.history.len() > keep
                    invariant
                        keep == n as usize,
                        n > 0,
                        task@.history.len() >= keep || task@.history == orig.history,
                        orig.history.len() >= task@.history.len(),
                        task@.history == orig.history.subrange(
                            orig.history.len() - task@.history.len(),
                            orig.history.len() as int,
                        ),
                        task@.id == orig.id,
                        task@.context_id == orig.context_id,
                        task@.status == orig.status,
                        task@.artifacts == orig.artifacts,
                        task@.metadata == orig.metadata,
                    decreases task@.history.len(),
                {
                    let ghost pre = task@.history;
                    task.history.remove(0);
                    proof {
                        assert(task@.history =~= pre.drop_first());
                        assert(task@.history =~= orig.history.subrange(
                            orig.history.len() - task@.history.len(),
                            orig.history.len() as int,
                        ));
                    }
                }
                proof {
                    if orig.history.len() > n {
                        assert(task@.history.len() == keep);
                    } else {
                        assert(task@.history =~= orig.history);
                    }
                    assert(task@ == spec_truncated(orig, Some(n as int)));
                }
                task
            } else {
                task
            }
        },
        None => task,
    }
}

} // verus!
