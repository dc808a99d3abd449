use ra2a::dispatch::NoopAgentHandler;
use ra2a::server::AgentBuilder;
use ra2a::server::AgentBuilderError;
use ra2a::server::AgentServerHandle;
use ra2a::server::GrpcRoute;
use ra2a::server::JsonRpcRoute;
use ra2a::server::SocketAddress;
use ra2a::server::grpc_route;
use ra2a::server::jsonrpc_route;
use ra2a::Transport;

/// Binding with port 0 and recording what the listeners bound yields a
/// non-zero port for every enabled transport, before any serving.
#[test]
fn address_discovery() {
    let agent = AgentBuilder::new(NoopAgentHandler)
        .with_name("test".to_string())
        .with_json_rpc_server(SocketAddress::new("::".to_string(), 0))
        .with_grpc_server(SocketAddress::new("::".to_string(), 0))
        .build()
        .expect("failed to build agent");
    let mut server = agent.server;
    let transports = server.enabled_transports();
    assert!(transports.contains(&Transport::Grpc));
    assert!(transports.contains(&Transport::JsonRpc));
    assert!(server.local_addr(Transport::Grpc).is_none());
    // The runtime's bind phase reports the ephemeral ports it got.
    server.record_local_addr(Transport::Grpc, SocketAddress::new("::".to_string(), 50051));
    server.record_local_addr(Transport::JsonRpc, SocketAddress::new("::".to_string(), 52123));
    for t in [Transport::Grpc, Transport::JsonRpc] {
        let addr = server.local_addr(t).expect("every enabled transport has an address");
        assert_ne!(addr.port, 0);
    }
}

/// Calling shutdown twice returns success both times.
#[test]
fn shutdown_idempotence() {
    let mut handle = AgentServerHandle::new();
    assert!(handle.shutdown().is_ok());
    assert!(handle.shutdown().is_ok());
    assert!(handle.joined && handle.signalled);
}

/// Building without a name is rejected; with one, the chosen transports
/// are enabled.
#[test]
fn builder_requires_name() {
    let err = AgentBuilder::new(NoopAgentHandler)
        .with_json_rpc_server(SocketAddress::new("127.0.0.1".to_string(), 52123))
        .build()
        .unwrap_err();
    assert_eq!(err, AgentBuilderError::MissingName);

    let agent = AgentBuilder::new(NoopAgentHandler)
        .with_name("test".to_string())
        .with_grpc_server(SocketAddress::new("::".to_string(), 0))
        .build()
        .expect("failed to build agent");
    assert_eq!(agent.supported_transports(), vec![Transport::Grpc]);
}

/// The binary wire serves exactly two paths; everything else is unknown.
#[test]
fn wire_routing() {
    assert_eq!(
        grpc_route(&"/a2a.v1.A2AService/SendMessage".to_string()),
        GrpcRoute::SendMessage
    );
    assert_eq!(
        grpc_route(&"/a2a.v1.A2AService/GetTask".to_string()),
        GrpcRoute::GetTask
    );
    assert_eq!(grpc_route(&"/other".to_string()), GrpcRoute::Unknown);
    assert_eq!(
        jsonrpc_route(&"message/send".to_string()),
        JsonRpcRoute::SendMessage
    );
    assert_eq!(jsonrpc_route(&"tasks/get".to_string()), JsonRpcRoute::GetTask);
    assert_eq!(jsonrpc_route(&"tasks/list".to_string()), JsonRpcRoute::Unknown);
}
