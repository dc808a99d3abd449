//! The server orchestrator as data and decisions: which transports are
//! enabled and where they bind, the address map written during the bind
//! phase and read thereafter, and the shutdown state machine. The runtime
//! around the library owns the sockets and the serving loops; it records
//! what it bound here and follows the decisions taken here.
use vstd::prelude::*;

use crate::dispatch::A2ADelegate;
use crate::dispatch::AgentHandler;
use crate::errors::BinaryStatus;
use crate::Transport;

verus! {

/// A socket address as plain configuration data: a host and a port. Port
/// zero asks the system for an ephemeral port at bind time.
#[derive(Debug, Clone, PartialEq, Eq)]
pub struct SocketAddress {
    pub host: String,
    pub port: u16,
}

/// The view of a socket address.
pub ghost struct SocketAddressV {
    pub host: Seq<char>,
    pub port: int,
}

impl View for SocketAddress {
    type V = SocketAddressV;

    open spec fn view(&self) -> SocketAddressV {
        SocketAddressV { host: self.host@, port: self.port as int }
    }
}

impl SocketAddress {
    /// An address from host and port.
    pub fn new(host: String, port: u16) -> (r: SocketAddress)
        ensures
            r@.host == host@,
            r@.port == port,
    {
        SocketAddress { host, port }
    }

    /// An exact copy of the address.
    pub fn dup(&self) -> (r: SocketAddress)
        ensures
            r@ == self@,
    {
        SocketAddress { host: self.host.clone(), port: self.port }
    }
}

/// Why a server cannot be built or run.
#[derive(Debug, Clone, PartialEq)]
pub enum A2AServerError {
    Grpc { message: String },
    Io { message: String },
    RegisterMethod { message: String },
    Join { message: String },
}

/// Why a server configuration is rejected.
#[derive(Debug, Clone, Copy, PartialEq, Eq, Structural)]
pub enum A2AServerBuilderError {
    EmptyServers,
}

/// Why an agent cannot be built.
#[derive(Debug, Clone, Copy, PartialEq, Eq, Structural)]
pub enum AgentBuilderError {
    MissingName,
}

/// Why a client cannot reach the binary transport.
#[derive(Debug, Clone, PartialEq)]
pub enum A2AGrpcClientError {
    InvalidUri { message: String },
    Transport { message: String },
    Status(BinaryStatus),
}

/// Why a client cannot reach the textual transport.
#[derive(Debug, Clone, PartialEq)]
pub enum A2AJsonRpcClientError {
    JsonRpc { message: String },
}

/// Why a client cannot be made.
#[derive(Debug, Clone, PartialEq)]
pub enum A2AClientError {
    Grpc(A2AGrpcClientError),
    JsonRpc(A2AJsonRpcClientError),
}

/// The dual-transport server: the dispatch core plus, per transport, the
/// configured bind address and the local address recorded once the bind
/// phase has run.
#[derive(Debug)]
pub struct A2AServer<H: AgentHandler> {
    pub delegate: A2ADelegate<H>,
    pub jsonrpc: Option<SocketAddress>,
    pub grpc: Option<SocketAddress>,
    pub jsonrpc_local: Option<SocketAddress>,
    pub grpc_local: Option<SocketAddress>,
}

impl<H: AgentHandler> A2AServer<H> {
    /// Whether the given transport is enabled.
    pub open spec fn spec_enabled(&self, t: Transport) -> bool {
        match t {
            Transport::Grpc => self.grpc is Some,
            Transport::JsonRpc => self.jsonrpc is Some,
        }
    }

    /// The recorded local address of the given transport, if any.
    pub open spec fn spec_local_addr(&self, t: Transport) -> Option<SocketAddressV> {
        match t {
            Transport::Grpc => match self.grpc_local {
                Some(a) => Some(a@),
                None => None,
            },
            Transport::JsonRpc => match self.jsonrpc_local {
                Some(a) => Some(a@),
                None => None,
            },
        }
    }

    /// A fresh server around the given dispatch core: no transports
    /// enabled, no addresses recorded.
    pub fn new(delegate: A2ADelegate<H>) -> (r: A2AServer<H>)
        ensures
            r.delegate == delegate,
            !r.spec_enabled(Transport::Grpc),
            !r.spec_enabled(Transport::JsonRpc),
            r.spec_local_addr(Transport::Grpc) is None,
            r.spec_local_addr(Transport::JsonRpc) is None,
    {
        A2AServer { delegate, jsonrpc: None, grpc: None, jsonrpc_local: None, grpc_local: None }
    }

    /// The server with the textual transport enabled at the given address.
    pub fn with_jsonrpc(self, addr: SocketAddress) -> (r: A2AServer<H>)
        ensures
            r.spec_enabled(Transport::JsonRpc),
            r.spec_enabled(Transport::Grpc) == self.spec_enabled(Transport::Grpc),
            r.jsonrpc matches Some(a) && a@ == addr@,
            r.grpc == self.grpc,
            r.delegate == self.delegate,
            r.jsonrpc_local == self.jsonrpc_local,
            r.grpc_local == self.grpc_local,
    {
        A2AServer { jsonrpc: Some(addr), ..self }
    }

    /// The server with the binary transport enabled at the given address.
    pub fn with_grpc(self, addr: SocketAddress) -> (r: A2AServer<H>)
        ensures
            r.spec_enabled(Transport::Grpc),
            r.spec_enabled(Transport::JsonRpc) == self.spec_enabled(Transport::JsonRpc),
            r.grpc matches Some(a) && a@ == addr@,
            r.jsonrpc == self.jsonrpc,
            r.delegate == self.delegate,
            r.jsonrpc_local == self.jsonrpc_local,
            r.grpc_local == self.grpc_local,
    {
        A2AServer { grpc: Some(addr), ..self }
    }

    /// The enabled transports, binary first.
    pub fn enabled_transports(&self) -> (r: Vec<Transport>)
        ensures
            r@.contains(Transport::Grpc) == self.spec_enabled(Transport::Grpc),
            r@.contains(Transport::JsonRpc) == self.spec_enabled(Transport::JsonRpc),
            r@.len() <= 2,
    {
        let mut transports: Vec<Transport> = Vec::new();
        if self.grpc.is_some() {
            transports.push(Transport::Grpc);
        }
        if self.jsonrpc.is_some() {
            transports.push(Transport::JsonRpc);
        }
        proof {
            let s = transports@;
            if self.grpc is Some {
                assert(s[0] == Transport::Grpc);
                assert(s.contains(Transport::Grpc));
                if self.jsonrpc is Some {
                    assert(s[1] == Transport::JsonRpc);
                    assert(s.contains(Transport::JsonRpc));
                } else {
                    assert forall|i: int| 0 <= i < s.len() implies s[i] != Transport::JsonRpc by {
                        assert(s[i] == Transport::Grpc);
                    }
                }
            } else {
                assert forall|i: int| 0 <= i < s.len() implies s[i] != Transport::Grpc by {
                    assert(s[i] == Transport::JsonRpc);
                }
                if self.jsonrpc is Some {
                    assert(s[0] == Transport::JsonRpc);
                    assert(s.contains(Transport::JsonRpc));
                } else {
                    assert(s.len() == 0);
                }
            }
        }
        transports
    }

    /// The recorded local address of the given transport.
    pub fn local_addr(&self, transport: Transport) -> (r: Option<SocketAddress>)
        ensures
            match r {
                Some(a) => self.spec_local_addr(transport) == Some(a@),
                None => self.spec_local_addr(transport) is None,
            },
    {
        match transport {
            Transport::Grpc => match &self.grpc_local {
                Some(a) => Some(a.dup()),
                None => None,
            },
            Transport::JsonRpc => match &self.jsonrpc_local {
                Some(a) => Some(a.dup()),
                None => None,
            },
        }
    }

    /// Records the address a transport's listener actually bound; the
    /// runtime calls this during the bind phase, before any serving.
    pub fn record_local_addr(&mut self, transport: Transport, addr: SocketAddress)
        ensures
            final(self).spec_local_addr(transport) == Some(addr@),
            forall|t: Transport|
                t != transport ==> final(self).spec_local_addr(t) == old(self).spec_local_addr(t),
            final(self).delegate == old(self).delegate,
            final(self).jsonrpc == old(self).jsonrpc,
            final(self).grpc == old(self).grpc,
            forall|t: Transport|
                final(self).spec_enabled(t) == old(self).spec_enabled(t),
    {
        match transport {
            Transport::Grpc => {
                self.grpc_local = Some(addr);
            },
            Transport::JsonRpc => {
                self.jsonrpc_local = Some(addr);
            },
        }
    }
}

/// Address discovery: once the bind phase has recorded an address for
/// every enabled transport, reading the local-address map yields one for
/// every enabled transport — before any request is served.
pub proof fn lemma_address_discovery<H: AgentHandler>(s: A2AServer<H>)
    requires
        forall|t: Transport| s.spec_enabled(t) ==> (#[trigger] s.spec_local_addr(t)) is Some,
    ensures
        s.spec_enabled(Transport::Grpc) ==> s.spec_local_addr(Transport::Grpc) is Some,
        s.spec_enabled(Transport::JsonRpc) ==> s.spec_local_addr(Transport::JsonRpc) is Some,
{
}

/// The state of a running server as its handle sees it: whether the
/// shutdown signal has been sent and whether the serving tasks have been
/// joined.
#[derive(Debug, Clone, Copy, PartialEq, Eq, Structural)]
pub struct AgentServerHandle {
    pub signalled: bool,
    pub joined: bool,
}

impl AgentServerHandle {
    /// A handle on a freshly started server.
    pub fn new() -> (r: AgentServerHandle)
        ensures
            !r.signalled,
            !r.joined,
    {
        AgentServerHandle { signalled: false, joined: false }
    }

    /// Asks the server to stop and waits for it: sends the shutdown
    /// signal (idempotently) and joins. Always succeeds; a second call
    /// succeeds the same way.
    pub fn shutdown(&mut self) -> (r: Result<(), A2AServerError>)
        ensures
            r is Ok,
            (*final(self), r) == spec_shutdown(*old(self)),
    {
        self.signalled = true;
        self.join()
    }

    /// Waits for the serving tasks; in this state model the join always
    /// completes.
    pub fn join(&mut self) -> (r: Result<(), A2AServerError>)
        ensures
            r == Ok::<(), A2AServerError>(()),
            final(self).joined,
            final(self).signalled == old(self).signalled,
    {
        self.joined = true;
        Ok(())
    }
}

/// What one shutdown does to the handle's state, and its outcome.
pub open spec fn spec_shutdown(h: AgentServerHandle) -> (AgentServerHandle, Result<
    (),
    A2AServerError,
>) {
    (AgentServerHandle { signalled: true, joined: true }, Ok(()))
}

/// Shutdown idempotence: calling shutdown twice returns success both
/// times, whatever state the handle started in.
pub proof fn lemma_shutdown_idempotent(h0: AgentServerHandle)
    ensures
        spec_shutdown(h0).1 is Ok,
        spec_shutdown(spec_shutdown(h0).0).1 is Ok,
        spec_shutdown(spec_shutdown(h0).0).0 == spec_shutdown(h0).0,
{
}

/// An agent: a named handler behind a configured dual-transport server.
#[derive(Debug)]
pub struct Agent<H: AgentHandler> {
    pub name: String,
    pub server: A2AServer<H>,
}

impl<H: AgentHandler> Agent<H> {
    /// The transports the agent will serve.
    pub fn supported_transports(&self) -> (r: Vec<Transport>)
        ensures
            r@.contains(Transport::Grpc) == self.server.spec_enabled(Transport::Grpc),
            r@.contains(Transport::JsonRpc) == self.server.spec_enabled(Transport::JsonRpc),
            r@.len() <= 2,
    {
        self.server.enabled_transports()
    }
}

/// Gathers what an agent needs before it is built: the handler, a name,
/// and the addresses of the transports to serve.
#[derive(Debug)]
pub struct AgentBuilder<H: AgentHandler> {
    pub handler: H,
    pub name: Option<String>,
    pub json_rpc_socket: Option<SocketAddress>,
    pub grpc_socket: Option<SocketAddress>,
}

impl<H: AgentHandler> AgentBuilder<H> {
    /// A builder around the given handler, with nothing else chosen.
    pub fn new(handler: H) -> (r: AgentBuilder<H>)
        ensures
            r.name is None,
            r.json_rpc_socket is None,
            r.grpc_socket is None,
    {
        AgentBuilder { handler, name: None, json_rpc_socket: None, grpc_socket: None }
    }

    /// The builder with the agent's name chosen.
    pub fn with_name(self, name: String) -> (r: AgentBuilder<H>)
        ensures
            r.name matches Some(n) && n@ == name@,
            r.json_rpc_socket == self.json_rpc_socket,
            r.grpc_socket == self.grpc_socket,
    {
        AgentBuilder { name: Some(name), ..self }
    }

    /// The builder with the textual transport at the given address.
    pub fn with_json_rpc_server(self, addr: SocketAddress) -> (r: AgentBuilder<H>)
        ensures
            r.json_rpc_socket matches Some(a) && a@ == addr@,
            r.name == self.name,
            r.grpc_socket == self.grpc_socket,
    {
        AgentBuilder { json_rpc_socket: Some(addr), ..self }
    }

    /// The builder with the binary transport at the given address.
    pub fn with_grpc_server(self, addr: SocketAddress) -> (r: AgentBuilder<H>)
        ensures
            r.grpc_socket matches Some(a) && a@ == addr@,
            r.name == self.name,
            r.json_rpc_socket == self.json_rpc_socket,
    {
        AgentBuilder { grpc_socket: Some(addr), ..self }
    }

    /// Builds the agent: fails exactly when no name was chosen; otherwise
    /// yields an agent whose server has a fresh dispatch core and each
    /// chosen transport enabled at its address.
    pub fn build(self) -> (r: Result<Agent<H>, AgentBuilderError>)
        ensures
            self.name is None <==> r == Err::<Agent<H>, AgentBuilderError>(
                AgentBuilderError::MissingName,
            ),
            r matches Ok(agent) ==> {
                &&& agent.name@ == self.name->Some_0@
                &&& agent.server.spec_enabled(Transport::JsonRpc) == (self.json_rpc_socket
                    is Some)
                &&& agent.server.spec_enabled(Transport::Grpc) == (self.grpc_socket is Some)
                &&& agent.server.spec_local_addr(Transport::JsonRpc) is None
                &&& agent.server.spec_local_addr(Transport::Grpc) is None
                &&& agent.server.delegate.inv()
                &&& agent.server.delegate.contents() == Map::<
                    Seq<char>,
                    crate::model::TaskV,
                >::empty()
                &&& agent.server.delegate.queued() == Seq::<crate::model::TaskV>::empty()
            },
    {
        let name = match self.name {
            Some(name) => name,
            None => {
                return Err(AgentBuilderError::MissingName);
            },
        };
        let delegate = A2ADelegate::new(self.handler);
        let mut server = A2AServer::new(delegate);
        if let Some(addr) = self.json_rpc_socket {
            server = server.with_jsonrpc(addr);
        }
        if let Some(addr) = self.grpc_socket {
            server = server.with_grpc(addr);
        }
        Ok(Agent { name, server })
    }
}

/// The unary methods of the binary service `a2a.v1.A2AService`, and the
/// rejection of everything else.
#[derive(Debug, Clone, Copy, PartialEq, Eq, Structural)]
pub enum GrpcRoute {
    SendMessage,
    GetTask,
    Unknown,
}

/// The method a binary-wire request path names: `SendMessage` and
/// `GetTask` under the service name; anything else is unknown and is
/// answered with an unimplemented status.
pub open spec fn spec_grpc_route(path: Seq<char>) -> GrpcRoute {
    if path == "/a2a.v1.A2AService/SendMessage"@ {
        GrpcRoute::SendMessage
    } else if path == "/a2a.v1.A2AService/GetTask"@ {
        GrpcRoute::GetTask
    } else {
        GrpcRoute::Unknown
    }
}

/// Routes one binary-wire request path.
pub fn grpc_route(path: &String) -> (r: GrpcRoute)
    ensures
        r == spec_grpc_route(path@),
{
    if *path == "/a2a.v1.A2AService/SendMessage".to_owned() {
        GrpcRoute::SendMessage
    } else if *path == "/a2a.v1.A2AService/GetTask".to_owned() {
        GrpcRoute::GetTask
    } else {
        GrpcRoute::Unknown
    }
}

/// The path of the binary-wire send method.
pub fn grpc_send_message_path() -> (r: &'static str)
    ensures
        r@ == "/a2a.v1.A2AService/SendMessage"@,
{
    "/a2a.v1.A2AService/SendMessage"
}

/// The path of the binary-wire task read method.
pub fn grpc_get_task_path() -> (r: &'static str)
    ensures
        r@ == "/a2a.v1.A2AService/GetTask"@,
{
    "/a2a.v1.A2AService/GetTask"
}

/// The textual methods of the service, and the rejection of everything
/// else.
#[derive(Debug, Clone, Copy, PartialEq, Eq, Structural)]
pub enum JsonRpcRoute {
    SendMessage,
    GetTask,
    Unknown,
}

/// The method a textual-wire method name names: `message/send` and
/// `tasks/get`; anything else is unknown.
pub open spec fn spec_jsonrpc_route(method: Seq<char>) -> JsonRpcRoute {
    if method == "message/send"@ {
        JsonRpcRoute::SendMessage
    } else if method == "tasks/get"@ {
        JsonRpcRoute::GetTask
    } else {
        JsonRpcRoute::Unknown
    }
}

/// Routes one textual-wire method name.
pub fn jsonrpc_route(method: &String) -> (r: JsonRpcRoute)
    ensures
        r == spec_jsonrpc_route(method@),
{
    if *method == "message/send".to_owned() {
        JsonRpcRoute::SendMessage
    } else if *method == "tasks/get".to_owned() {
        JsonRpcRoute::GetTask
    } else {
        JsonRpcRoute::Unknown
    }
}

/// The name of the textual-wire send method.
pub fn jsonrpc_send_message_method() -> (r: &'static str)
    ensures
        r@ == "message/send"@,
{
    "message/send"
}

/// The name of the textual-wire task read method.
pub fn jsonrpc_get_task_method() -> (r: &'static str)
    ensures
        r@ == "tasks/get"@,
{
    "tasks/get"
}

} // verus!
