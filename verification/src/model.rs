//! Canonical A2A entities: tasks, messages, parts, artifacts and the
//! request/response shapes of the service contract, together with their
//! mathematical views and well-formedness predicates.
use vstd::prelude::*;

use crate::object::Object;
use crate::object::ObjectV;
use vstd::string::StrSliceExecFns;
use vstd::string::StringExecFns;

verus! {

/// The author of a message.
#[derive(Debug, Clone, Copy, PartialEq, Eq, Structural)]
pub enum Role {
    Unspecified,
    User,
    Agent,
}

impl Role {
    /// The stable numeric code of a role on the binary wire.
    pub open spec fn as_i32(self) -> int {
        match self {
            Role::Unspecified => 0,
            Role::User => 1,
            Role::Agent => 2,
        }
    }

    /// The role a numeric code stands for, if any.
    pub open spec fn spec_from_i32(v: int) -> Option<Role> {
        if v == 0 {
            Some(Role::Unspecified)
        } else if v == 1 {
            Some(Role::User)
        } else if v == 2 {
            Some(Role::Agent)
        } else {
            None
        }
    }

    pub fn into_i32(self) -> (r: i32)
        ensures
            r == self.as_i32(),
    {
        match self {
            Role::Unspecified => 0,
            Role::User => 1,
            Role::Agent => 2,
        }
    }

    pub fn from_i32(v: i32) -> (r: Option<Role>)
        ensures
            r == Role::spec_from_i32(v as int),
    {
        if v == 0 {
            Some(Role::Unspecified)
        } else if v == 1 {
            Some(Role::User)
        } else if v == 2 {
            Some(Role::Agent)
        } else {
            None
        }
    }

    /// The numeric code of the unspecified role.
    pub fn unspecified_i32() -> (r: i32)
        ensures
            r == 0,
    {
        0
    }

    /// Whether a numeric code names the unspecified role.
    pub fn is_unspecified(val: &i32) -> (r: bool)
        ensures
            r == (*val == 0),
    {
        *val == 0
    }
}

/// The lifecycle state of a task.
#[derive(Debug, Clone, Copy, PartialEq, Eq, Structural)]
pub enum TaskState {
    Unspecified,
    Submitted,
    Working,
    Completed,
    Failed,
    Cancelled,
    InputRequired,
    Rejected,
    AuthRequired,
}

impl TaskState {
    /// The stable numeric code of a state on the binary wire.
    pub open spec fn as_i32(self) -> int {
        match self {
            TaskState::Unspecified => 0,
            TaskState::Submitted => 1,
            TaskState::Working => 2,
            TaskState::Completed => 3,
            TaskState::Failed => 4,
            TaskState::Cancelled => 5,
            TaskState::InputRequired => 6,
            TaskState::Rejected => 7,
            TaskState::AuthRequired => 8,
        }
    }

    /// The state a numeric code stands for, if any.
    pub open spec fn spec_from_i32(v: int) -> Option<TaskState> {
        if v == 0 {
            Some(TaskState::Unspecified)
        } else if v == 1 {
            Some(TaskState::Submitted)
        } else if v == 2 {
            Some(TaskState::Working)
        } else if v == 3 {
            Some(TaskState::Completed)
        } else if v == 4 {
            Some(TaskState::Failed)
        } else if v == 5 {
            Some(TaskState::Cancelled)
        } else if v == 6 {
            Some(TaskState::InputRequired)
        } else if v == 7 {
            Some(TaskState::Rejected)
        } else if v == 8 {
            Some(TaskState::AuthRequired)
        } else {
            None
        }
    }

    /// A terminal state admits no further mutation of the task.
    pub open spec fn spec_is_terminal(self) -> bool {
        match self {
            TaskState::Completed | TaskState::Failed | TaskState::Cancelled
                | TaskState::Rejected => true,
            _ => false,
        }
    }

    /// An interrupted state awaits more input from the client.
    pub open spec fn spec_is_interrupted(self) -> bool {
        self is InputRequired
    }

    pub fn into_i32(self) -> (r: i32)
        ensures
            r == self.as_i32(),
    {
        match self {
            TaskState::Unspecified => 0,
            TaskState::Submitted => 1,
            TaskState::Working => 2,
            TaskState::Completed => 3,
            TaskState::Failed => 4,
            TaskState::Cancelled => 5,
            TaskState::InputRequired => 6,
            TaskState::Rejected => 7,
            TaskState::AuthRequired => 8,
        }
    }

    pub fn from_i32(v: i32) -> (r: Option<TaskState>)
        ensures
            r == TaskState::spec_from_i32(v as int),
    {
        if v == 0 {
            Some(TaskState::Unspecified)
        } else if v == 1 {
            Some(TaskState::Submitted)
        } else if v == 2 {
            Some(TaskState::Working)
        } else if v == 3 {
            Some(TaskState::Completed)
        } else if v == 4 {
            Some(TaskState::Failed)
        } else if v == 5 {
            Some(TaskState::Cancelled)
        } else if v == 6 {
            Some(TaskState::InputRequired)
        } else if v == 7 {
            Some(TaskState::Rejected)
        } else if v == 8 {
            Some(TaskState::AuthRequired)
        } else {
            None
        }
    }

    pub fn is_terminal(self) -> (r: bool)
        ensures
            r == self.spec_is_terminal(),
    {
        match self {
            TaskState::Completed | TaskState::Failed | TaskState::Cancelled
                | TaskState::Rejected => true,
            _ => false,
        }
    }
}

/// An instant: seconds since the Unix epoch plus a nanosecond remainder.
/// On the textual wire it appears as an RFC 3339 string, on the binary wire
/// as the two integers.
#[derive(Debug, Clone, Copy, PartialEq, Eq, Structural)]
pub struct Timestamp {
    pub seconds: i64,
    pub nanos: i32,
}

impl Timestamp {
    /// Seconds of 0001-01-01T00:00:00Z: the earliest instant the textual
    /// wire can carry (RFC 3339 years have four digits).
    pub open spec fn min_seconds() -> int {
        -62135596800
    }

    /// Seconds of 9999-12-31T23:59:59Z: the latest such instant.
    pub open spec fn max_seconds() -> int {
        253402300799
    }

    /// An instant both wires can carry.
    pub open spec fn wf(self) -> bool {
        &&& Timestamp::min_seconds() <= self.seconds <= Timestamp::max_seconds()
        &&& 0 <= self.nanos < 1000000000
    }
}

/// A file payload: either a reference by URI or inline bytes.
#[derive(Debug, Clone, PartialEq)]
pub enum File {
    FileWithUri(String),
    FileWithBytes(Vec<u8>),
}

/// The view of a `File`.
pub ghost enum FileV {
    FileWithUri(Seq<char>),
    FileWithBytes(Seq<u8>),
}

impl View for File {
    type V = FileV;

    open spec fn view(&self) -> FileV {
        match self {
            File::FileWithUri(u) => FileV::FileWithUri(u@),
            File::FileWithBytes(b) => FileV::FileWithBytes(b@),
        }
    }
}

/// A file part: a file payload plus its media type.
#[derive(Debug, Clone, PartialEq)]
pub struct FilePart {
    pub file: Option<File>,
    pub mime_type: String,
}

pub ghost struct FilePartV {
    pub file: Option<FileV>,
    pub mime_type: Seq<char>,
}

impl View for FilePart {
    type V = FilePartV;

    open spec fn view(&self) -> FilePartV {
        FilePartV {
            file: match self.file {
                Some(f) => Some(f@),
                None => None,
            },
            mime_type: self.mime_type@,
        }
    }
}

/// A structured-data part: a free-form object.
#[derive(Debug, Clone, PartialEq)]
pub struct DataPart {
    pub data: Option<Object>,
}

pub ghost struct DataPartV {
    pub data: Option<ObjectV>,
}

impl View for DataPart {
    type V = DataPartV;

    open spec fn view(&self) -> DataPartV {
        DataPartV {
            data: match self.data {
                Some(o) => Some(o@),
                None => None,
            },
        }
    }
}

/// The discriminated payload of a part: text, a file, or structured data.
#[derive(Debug, Clone, PartialEq)]
pub enum PartBase {
    Text(String),
    File(FilePart),
    Data(DataPart),
}

pub ghost enum PartBaseV {
    Text(Seq<char>),
    File(FilePartV),
    Data(DataPartV),
}

impl View for PartBase {
    type V = PartBaseV;

    open spec fn view(&self) -> PartBaseV {
        match self {
            PartBase::Text(t) => PartBaseV::Text(t@),
            PartBase::File(f) => PartBaseV::File(f@),
            PartBase::Data(d) => PartBaseV::Data(d@),
        }
    }
}

/// One payload element of a message or artifact.
#[derive(Debug, Clone, PartialEq)]
pub struct Part {
    pub part: Option<PartBase>,
}

pub ghost struct PartV {
    pub part: Option<PartBaseV>,
}

impl View for Part {
    type V = PartV;

    open spec fn view(&self) -> PartV {
        PartV {
            part: match self.part {
                Some(p) => Some(p@),
                None => None,
            },
        }
    }
}

impl File {
    /// An exact copy of the file payload.
    pub fn dup(&self) -> (r: File)
        ensures
            r@ == self@,
    {
        match self {
            File::FileWithUri(u) => File::FileWithUri(u.clone()),
            File::FileWithBytes(b) => {
                let c = b.clone();
                proof {
                    assert(c@ =~= b@);
                }
                File::FileWithBytes(c)
            },
        }
    }
}

impl FilePart {
    /// An exact copy of the file part.
    pub fn dup(&self) -> (r: FilePart)
        ensures
            r@ == self@,
    {
        FilePart {
            file: match &self.file {
                Some(f) => Some(f.dup()),
                None => None,
            },
            mime_type: self.mime_type.clone(),
        }
    }
}

impl DataPart {
    /// An exact copy of the data part.
    pub fn dup(&self) -> (r: DataPart)
        ensures
            r@ == self@,
    {
        DataPart {
            data: match &self.data {
                Some(o) => Some(o.dup()),
                None => None,
            },
        }
    }
}

impl PartBase {
    /// An exact copy of the part payload.
    pub fn dup(&self) -> (r: PartBase)
        ensures
            r@ == self@,
    {
        match self {
            PartBase::Text(t) => PartBase::Text(t.clone()),
            PartBase::File(f) => PartBase::File(f.dup()),
            PartBase::Data(d) => PartBase::Data(d.dup()),
        }
    }
}

impl Part {
    /// An exact copy of the part.
    pub fn dup(&self) -> (r: Part)
        ensures
            r@ == self@,
    {
        Part {
            part: match &self.part {
                Some(p) => Some(p.dup()),
                None => None,
            },
        }
    }
}

/// An exact copy of a list of strings.
pub fn dup_strings(v: &Vec<String>) -> (r: Vec<String>)
    ensures
        r@ == v@,
{
    let r = v.clone();
    proof {
        assert forall|i: int| 0 <= i < v@.len() implies r@[i] == v@[i] by {
            assert(cloned::<String>(v@[i], r@[i]));
        }
        assert(r@ =~= v@);
    }
    r
}

/// An exact copy of a list of parts.
pub fn dup_parts(v: &Vec<Part>) -> (r: Vec<Part>)
    ensures
        r@.map_values(|p: Part| p@) == v@.map_values(|p: Part| p@),
{
    let mut out: Vec<Part> = Vec::new();
    let n = v.len();
    let mut i: usize = 0;
    while i < n
        invariant
            n == v.len(),
            i <= n,
            out@.len() == i,
            forall|k: int| 0 <= k < i ==> (#[trigger] out@[k])@ == v@[k]@,
        decreases n - i,
    {
        out.push(v[i].dup());
        i += 1;
    }
    proof {
        assert(out@.map_values(|p: Part| p@) =~= v@.map_values(|p: Part| p@));
    }
    out
}

/// One unit of communication between client and server.
#[derive(Debug, Clone, PartialEq)]
pub struct Message {
    pub message_id: String,
    pub context_id: Option<String>,
    pub task_id: Option<String>,
    pub role: i32,
    pub parts: Vec<Part>,
    pub metadata: Option<Object>,
    pub extensions: Vec<String>,
}

pub ghost struct MessageV {
    pub message_id: Seq<char>,
    pub context_id: Option<Seq<char>>,
    pub task_id: Option<Seq<char>>,
    pub role: int,
    pub parts: Seq<PartV>,
    pub metadata: Option<ObjectV>,
    pub extensions: Seq<Seq<char>>,
}

impl MessageV {
    /// A message both wires can carry: its role code names a role.
    pub open spec fn wf(self) -> bool {
        Role::spec_from_i32(self.role) is Some
    }
}

impl View for Message {
    type V = MessageV;

    open spec fn view(&self) -> MessageV {
        MessageV {
            message_id: self.message_id@,
            context_id: match self.context_id {
                Some(c) => Some(c@),
                None => None,
            },
            task_id: match self.task_id {
                Some(t) => Some(t@),
                None => None,
            },
            role: self.role as int,
            parts: self.parts@.map_values(|p: Part| p@),
            metadata: match self.metadata {
                Some(o) => Some(o@),
                None => None,
            },
            extensions: self.extensions@.map_values(|e: String| e@),
        }
    }
}

impl Message {
    /// An exact copy of the message.
    pub fn dup(&self) -> (r: Message)
        ensures
            r@ == self@,
    {
        Message {
            message_id: self.message_id.clone(),
            context_id: match &self.context_id {
                Some(c) => Some(c.clone()),
                None => None,
            },
            task_id: match &self.task_id {
                Some(t) => Some(t.clone()),
                None => None,
            },
            role: self.role,
            parts: dup_parts(&self.parts),
            metadata: match &self.metadata {
                Some(o) => Some(o.dup()),
                None => None,
            },
            extensions: dup_strings(&self.extensions),
        }
    }

    /// A user message holding one text part and nothing else.
    pub fn new_simple(text: String) -> (r: Message)
        ensures
            r@.message_id == Seq::<char>::empty(),
            r@.context_id is None,
            r@.task_id is None,
            r@.role == Role::User.as_i32(),
            r@.parts =~= seq![
                PartV { part: Some(PartBaseV::Text(text@)) },
            ],
            r@.metadata is None,
            r@.extensions =~= Seq::<Seq<char>>::empty(),
    {
        let ghost t = text@;
        let mut parts: Vec<Part> = Vec::new();
        parts.push(Part { part: Some(PartBase::Text(text)) });
        let r = Message {
            message_id: String::new(),
            context_id: None,
            task_id: None,
            role: 1,
            parts,
            metadata: None,
            extensions: Vec::new(),
        };
        assert(r.parts@.map_values(|p: Part| p@) =~= seq![
            PartV { part: Some(PartBaseV::Text(t)) },
        ]);
        assert(r.extensions@.map_values(|e: String| e@) =~= Seq::<Seq<char>>::empty());
        r
    }

    /// The role of the message, or `None` when the code names no role.
    pub fn as_role(&self) -> (r: Option<Role>)
        ensures
            r == Role::spec_from_i32(self@.role),
    {
        Role::from_i32(self.role)
    }
}

/// A named output attached to a task by the handler.
#[derive(Debug, Clone, PartialEq)]
pub struct Artifact {
    pub artifact_id: String,
    pub name: String,
    pub description: String,
    pub parts: Vec<Part>,
    pub metadata: Option<Object>,
    pub extensions: Vec<String>,
}

pub ghost struct ArtifactV {
    pub artifact_id: Seq<char>,
    pub name: Seq<char>,
    pub description: Seq<char>,
    pub parts: Seq<PartV>,
    pub metadata: Option<ObjectV>,
    pub extensions: Seq<Seq<char>>,
}

impl View for Artifact {
    type V = ArtifactV;

    open spec fn view(&self) -> ArtifactV {
        ArtifactV {
            artifact_id: self.artifact_id@,
            name: self.name@,
            description: self.description@,
            parts: self.parts@.map_values(|p: Part| p@),
            metadata: match self.metadata {
                Some(o) => Some(o@),
                None => None,
            },
            extensions: self.extensions@.map_values(|e: String| e@),
        }
    }
}

impl Artifact {
    /// An exact copy of the artifact.
    pub fn dup(&self) -> (r: Artifact)
        ensures
            r@ == self@,
    {
        Artifact {
            artifact_id: self.artifact_id.clone(),
            name: self.name.clone(),
            description: self.description.clone(),
            parts: dup_parts(&self.parts),
            metadata: match &self.metadata {
                Some(o) => Some(o.dup()),
                None => None,
            },
            extensions: dup_strings(&self.extensions),
        }
    }
}

/// An exact copy of a list of messages.
pub fn dup_messages(v: &Vec<Message>) -> (r: Vec<Message>)
    ensures
        r@.map_values(|m: Message| m@) == v@.map_values(|m: Message| m@),
{
    let mut out: Vec<Message> = Vec::new();
    let n = v.len();
    let mut i: usize = 0;
    while i < n
        invariant
            n == v.len(),
            i <= n,
            out@.len() == i,
            forall|k: int| 0 <= k < i ==> (#[trigger] out@[k])@ == v@[k]@,
        decreases n - i,
    {
        out.push(v[i].dup());
        i += 1;
    }
    proof {
        assert(out@.map_values(|m: Message| m@) =~= v@.map_values(|m: Message| m@));
    }
    out
}

/// An exact copy of a list of artifacts.
pub fn dup_artifacts(v: &Vec<Artifact>) -> (r: Vec<Artifact>)
    ensures
        r@.map_values(|a: Artifact| a@) == v@.map_values(|a: Artifact| a@),
{
    let mut out: Vec<Artifact> = Vec::new();
    let n = v.len();
    let mut i: usize = 0;
    while i < n
        invariant
            n == v.len(),
            i <= n,
            out@.len() == i,
            forall|k: int| 0 <= k < i ==> (#[trigger] out@[k])@ == v@[k]@,
        decreases n - i,
    {
        out.push(v[i].dup());
        i += 1;
    }
    proof {
        assert(out@.map_values(|a: Artifact| a@) =~= v@.map_values(|a: Artifact| a@));
    }
    out
}

/// The current status of a task.
#[derive(Debug, Clone, PartialEq)]
pub struct TaskStatus {
    pub state: i32,
    pub message: Option<Message>,
    pub timestamp: Option<Timestamp>,
}

pub ghost struct TaskStatusV {
    pub state: int,
    pub message: Option<MessageV>,
    pub timestamp: Option<Timestamp>,
}

impl TaskStatusV {
    /// A status both wires can carry.
    pub open spec fn wf(self) -> bool {
        &&& TaskState::spec_from_i32(self.state) is Some
        &&& match self.message {
            Some(m) => m.wf(),
            None => true,
        }
        &&& match self.timestamp {
            Some(t) => t.wf(),
            None => true,
        }
    }
}

impl View for TaskStatus {
    type V = TaskStatusV;

    open spec fn view(&self) -> TaskStatusV {
        TaskStatusV {
            state: self.state as int,
            message: match self.message {
                Some(m) => Some(m@),
                None => None,
            },
            timestamp: self.timestamp,
        }
    }
}

impl TaskStatus {
    /// An exact copy of the status.
    pub fn dup(&self) -> (r: TaskStatus)
        ensures
            r@ == self@,
    {
        TaskStatus {
            state: self.state,
            message: match &self.message {
                Some(m) => Some(m.dup()),
                None => None,
            },
            timestamp: self.timestamp,
        }
    }

    /// A plain submitted status with no message and no timestamp.
    pub fn default_submitted() -> (r: TaskStatus)
        ensures
            r@.state == TaskState::Submitted.as_i32(),
            r@.message is None,
            r@.timestamp is None,
    {
        TaskStatus { state: 1, message: None, timestamp: None }
    }
}

/// The durable unit of work.
#[derive(Debug, Clone, PartialEq)]
pub struct Task {
    pub id: String,
    pub context_id: String,
    pub status: Option<TaskStatus>,
    pub artifacts: Vec<Artifact>,
    pub history: Vec<Message>,
    pub metadata: Option<Object>,
}

pub ghost struct TaskV {
    pub id: Seq<char>,
    pub context_id: Seq<char>,
    pub status: Option<TaskStatusV>,
    pub artifacts: Seq<ArtifactV>,
    pub history: Seq<MessageV>,
    pub metadata: Option<ObjectV>,
}

impl TaskV {
    /// A task both wires can carry.
    pub open spec fn wf(self) -> bool {
        &&& match self.status {
            Some(s) => s.wf(),
            None => true,
        }
        &&& forall|i: int| 0 <= i < self.history.len() ==> #[trigger] self.history[i].wf()
    }
}

impl View for Task {
    type V = TaskV;

    open spec fn view(&self) -> TaskV {
        TaskV {
            id: self.id@,
            context_id: self.context_id@,
            status: match self.status {
                Some(s) => Some(s@),
                None => None,
            },
            artifacts: self.artifacts@.map_values(|a: Artifact| a@),
            history: self.history@.map_values(|m: Message| m@),
            metadata: match self.metadata {
                Some(o) => Some(o@),
                None => None,
            },
        }
    }
}

impl Task {
    /// A fresh task: a minted id and context id, no status, no artifacts,
    /// no history, no metadata.
    pub fn new() -> (r: Task)
        ensures
            crate::ids::is_uuid_v4_text(r@.id),
            crate::ids::is_uuid_v4_text(r@.context_id),
            r@.status is None,
            r@.artifacts == Seq::<ArtifactV>::empty(),
            r@.history == Seq::<MessageV>::empty(),
            r@.metadata is None,
    {
        Task::new_with_id(crate::ids::new_uuid_v4())
    }

    /// A fresh task under the given id, with a minted context id.
    pub fn new_with_id(id: String) -> (r: Task)
        ensures
            r@.id == id@,
            crate::ids::is_uuid_v4_text(r@.context_id),
            r@.status is None,
            r@.artifacts == Seq::<ArtifactV>::empty(),
            r@.history == Seq::<MessageV>::empty(),
            r@.metadata is None,
    {
        let r = Task {
            id,
            context_id: crate::ids::new_uuid_v4(),
            status: None,
            artifacts: Vec::new(),
            history: Vec::new(),
            metadata: None,
        };
        proof {
            assert(r@.artifacts =~= Seq::<ArtifactV>::empty());
            assert(r@.history =~= Seq::<MessageV>::empty());
        }
        r
    }

    /// An exact copy of the task.
    pub fn dup(&self) -> (r: Task)
        ensures
            r@ == self@,
    {
        Task {
            id: self.id.clone(),
            context_id: self.context_id.clone(),
            status: match &self.status {
                Some(s) => Some(s.dup()),
                None => None,
            },
            artifacts: dup_artifacts(&self.artifacts),
            history: dup_messages(&self.history),
            metadata: match &self.metadata {
                Some(o) => Some(o.dup()),
                None => None,
            },
        }
    }
}

/// How a send is to be performed.
#[derive(Debug, Clone, PartialEq)]
pub struct SendMessageConfiguration {
    pub accepted_output_modes: Vec<String>,
    pub push_notification: Option<PushNotificationConfig>,
    pub history_length: i32,
    pub blocking: bool,
}

pub ghost struct SendMessageConfigurationV {
    pub accepted_output_modes: Seq<Seq<char>>,
    pub push_notification: Option<PushNotificationConfigV>,
    pub history_length: int,
    pub blocking: bool,
}

impl View for SendMessageConfiguration {
    type V = SendMessageConfigurationV;

    open spec fn view(&self) -> SendMessageConfigurationV {
        SendMessageConfigurationV {
            accepted_output_modes: self.accepted_output_modes@.map_values(|m: String| m@),
            push_notification: match self.push_notification {
                Some(p) => Some(p@),
                None => None,
            },
            history_length: self.history_length as int,
            blocking: self.blocking,
        }
    }
}

impl SendMessageConfigurationV {
    /// The configuration that an absent one stands for: plain-text output,
    /// no push notification, unlimited history, blocking.
    pub open spec fn default_config() -> SendMessageConfigurationV {
        SendMessageConfigurationV {
            accepted_output_modes: seq!["text/plain"@],
            push_notification: None,
            history_length: 0,
            blocking: true,
        }
    }
}

impl SendMessageConfiguration {
    /// The configuration that an absent one stands for.
    pub fn new_default() -> (r: SendMessageConfiguration)
        ensures
            r@ == SendMessageConfigurationV::default_config(),
    {
        let mut modes: Vec<String> = Vec::new();
        modes.push("text/plain".to_owned());
        let r = SendMessageConfiguration {
            accepted_output_modes: modes,
            push_notification: None,
            history_length: 0,
            blocking: true,
        };
        assert(r@.accepted_output_modes =~= seq!["text/plain"@]);
        assert(r@ =~= SendMessageConfigurationV::default_config());
        r
    }
}

/// A request to send one message to the agent.
#[derive(Debug, Clone, PartialEq)]
pub struct SendMessageRequest {
    pub message: Option<Message>,
    pub configuration: Option<SendMessageConfiguration>,
    pub metadata: Option<Object>,
}

pub ghost struct SendMessageRequestV {
    pub message: Option<MessageV>,
    pub configuration: Option<SendMessageConfigurationV>,
    pub metadata: Option<ObjectV>,
}

impl View for SendMessageRequest {
    type V = SendMessageRequestV;

    open spec fn view(&self) -> SendMessageRequestV {
        SendMessageRequestV {
            message: match self.message {
                Some(m) => Some(m@),
                None => None,
            },
            configuration: match self.configuration {
                Some(c) => Some(c@),
                None => None,
            },
            metadata: match self.metadata {
                Some(o) => Some(o@),
                None => None,
            },
        }
    }
}

/// The payload of a send: either the task the handler worked on or a
/// direct reply message.
#[derive(Debug, Clone, PartialEq)]
pub enum SendMessageResponsePayload {
    Task(Task),
    Message(Message),
}

pub ghost enum SendMessageResponsePayloadV {
    Task(TaskV),
    Message(MessageV),
}

impl View for SendMessageResponsePayload {
    type V = SendMessageResponsePayloadV;

    open spec fn view(&self) -> SendMessageResponsePayloadV {
        match self {
            SendMessageResponsePayload::Task(t) => SendMessageResponsePayloadV::Task(t@),
            SendMessageResponsePayload::Message(m) => SendMessageResponsePayloadV::Message(m@),
        }
    }
}

/// The response to a send.
#[derive(Debug, Clone, PartialEq)]
pub struct SendMessageResponse {
    pub payload: Option<SendMessageResponsePayload>,
}

pub ghost struct SendMessageResponseV {
    pub payload: Option<SendMessageResponsePayloadV>,
}

impl View for SendMessageResponse {
    type V = SendMessageResponseV;

    open spec fn view(&self) -> SendMessageResponseV {
        SendMessageResponseV {
            payload: match self.payload {
                Some(p) => Some(p@),
                None => None,
            },
        }
    }
}

/// A request to read one task, as the textual wire carries it.
#[derive(Debug, Clone, PartialEq)]
pub struct GetTaskRequest {
    pub id: String,
    pub history_length: Option<i32>,
    pub metadata: Option<Object>,
}

pub ghost struct GetTaskRequestV {
    pub id: Seq<char>,
    pub history_length: Option<int>,
    pub metadata: Option<ObjectV>,
}

impl View for GetTaskRequest {
    type V = GetTaskRequestV;

    open spec fn view(&self) -> GetTaskRequestV {
        GetTaskRequestV {
            id: self.id@,
            history_length: match self.history_length {
                Some(h) => Some(h as int),
                None => None,
            },
            metadata: match self.metadata {
                Some(o) => Some(o@),
                None => None,
            },
        }
    }
}

/// A request to read one task, as the binary wire carries it: the id is
/// wrapped in a resource name of the form `task/<id>`.
#[derive(Debug, Clone, PartialEq)]
pub struct GetTaskGrpcRequest {
    pub name: String,
    pub history_length: Option<i32>,
}

pub ghost struct GetTaskGrpcRequestV {
    pub name: Seq<char>,
    pub history_length: Option<int>,
}

impl View for GetTaskGrpcRequest {
    type V = GetTaskGrpcRequestV;

    open spec fn view(&self) -> GetTaskGrpcRequestV {
        GetTaskGrpcRequestV {
            name: self.name@,
            history_length: match self.history_length {
                Some(h) => Some(h as int),
                None => None,
            },
        }
    }
}

/// A webhook to receive task updates on.
#[derive(Debug, Clone, PartialEq)]
pub struct PushNotificationConfig {
    pub id: String,
    pub url: String,
    pub token: String,
    pub authentication: Option<PushNotificationAuthenticationInfo>,
}

pub ghost struct PushNotificationConfigV {
    pub id: Seq<char>,
    pub url: Seq<char>,
    pub token: Seq<char>,
    pub authentication: Option<PushNotificationAuthenticationInfoV>,
}

impl View for PushNotificationConfig {
    type V = PushNotificationConfigV;

    open spec fn view(&self) -> PushNotificationConfigV {
        PushNotificationConfigV {
            id: self.id@,
            url: self.url@,
            token: self.token@,
            authentication: match self.authentication {
                Some(a) => Some(a@),
                None => None,
            },
        }
    }
}

/// Authentication details for a push-notification endpoint.
#[derive(Debug, Clone, PartialEq)]
pub struct PushNotificationAuthenticationInfo {
    pub schemes: Vec<String>,
    pub credentials: String,
}

pub ghost struct PushNotificationAuthenticationInfoV {
    pub schemes: Seq<Seq<char>>,
    pub credentials: Seq<char>,
}

impl View for PushNotificationAuthenticationInfo {
    type V = PushNotificationAuthenticationInfoV;

    open spec fn view(&self) -> PushNotificationAuthenticationInfoV {
        PushNotificationAuthenticationInfoV {
            schemes: self.schemes@.map_values(|s: String| s@),
            credentials: self.credentials@,
        }
    }
}

/// A push-notification configuration bound to one task.
#[derive(Debug, Clone, PartialEq)]
pub struct TaskPushNotificationConfig {
    pub task_id: String,
    pub push_notification_config: Option<PushNotificationConfig>,
}

pub ghost struct TaskPushNotificationConfigV {
    pub task_id: Seq<char>,
    pub push_notification_config: Option<PushNotificationConfigV>,
}

impl View for TaskPushNotificationConfig {
    type V = TaskPushNotificationConfigV;

    open spec fn view(&self) -> TaskPushNotificationConfigV {
        TaskPushNotificationConfigV {
            task_id: self.task_id@,
            push_notification_config: match self.push_notification_config {
                Some(p) => Some(p@),
                None => None,
            },
        }
    }
}

/// A plain list of strings, one repeated field on the binary wire and a
/// bare JSON array on the textual one.
#[derive(Debug, Clone, PartialEq, Eq)]
pub struct StringList {
    pub list: Vec<String>,
}

impl View for StringList {
    type V = Seq<Seq<char>>;

    open spec fn view(&self) -> Seq<Seq<char>> {
        self.list@.map_values(|s: String| s@)
    }
}

/// The resource-name form of a task id on the binary wire: `task/<id>`.
pub open spec fn spec_task_name(id: Seq<char>) -> Seq<char> {
    "task/"@ + id
}

/// The id a binary-wire resource name denotes: the text behind a `task/`
/// prefix, or the whole name when the prefix is missing.
pub open spec fn spec_task_name_id(name: Seq<char>) -> Seq<char> {
    if name.len() >= 5 && name.subrange(0, 5) == "task/"@ {
        name.skip(5)
    } else {
        name
    }
}

/// Wrapping an id in the resource-name form and stripping it again yields
/// the id, for every id.
pub proof fn lemma_task_name_round_trip(id: Seq<char>)
    ensures
        spec_task_name_id(spec_task_name(id)) == id,
{
    reveal_strlit("task/");
    let name = spec_task_name(id);
    assert(name.subrange(0, 5) =~= "task/"@);
    assert(name.skip(5) =~= id);
}

impl GetTaskGrpcRequest {
    /// The binary-wire form of a task read request: the id is wrapped as
    /// `task/<id>` and the metadata is left behind.
    pub fn of_request(q: &GetTaskRequest) -> (r: GetTaskGrpcRequest)
        ensures
            r@.name == spec_task_name(q@.id),
            r@.history_length == q@.history_length,
    {
        let name = "task/".to_owned().concat(q.id.as_str());
        GetTaskGrpcRequest {
            name,
            history_length: q.history_length,
        }
    }

    /// The textual form of a binary-wire task read request: the `task/`
    /// prefix is stripped when present, and there is no metadata.
    pub fn to_request(&self) -> (r: GetTaskRequest)
        ensures
            r@.id == spec_task_name_id(self@.name),
            r@.history_length == self@.history_length,
            r@.metadata is None,
    {
        proof {
            reveal_strlit("task/");
        }
        let s = self.name.as_str();
        let n = s.unicode_len();
        let has_prefix: bool = if n >= 5 {
            s.get_char(0) == 't' && s.get_char(1) == 'a' && s.get_char(2) == 's' && s.get_char(3)
                == 'k' && s.get_char(4) == '/'
        } else {
            false
        };
        if has_prefix {
            proof {
                assert(self@.name.subrange(0, 5) =~= "task/"@);
            }
            let id = s.substring_char(5, n).to_owned();
            GetTaskRequest { id, history_length: self.history_length, metadata: None }
        } else {
            proof {
                if self@.name.len() >= 5 && self@.name.subrange(0, 5) == "task/"@ {
                    let p = self@.name.subrange(0, 5);
                    assert(self@.name[0] == p[0] && self@.name[1] == p[1] && self@.name[2] == p[2]
                        && self@.name[3] == p[3] && self@.name[4] == p[4]);
                    assert(false);
                }
            }
            GetTaskRequest {
                id: self.name.clone(),
                history_length: self.history_length,
                metadata: None,
            }
        }
    }
}

} // verus!
