use ra2a::card::sample_agent_card;
use ra2a::card::AgentCapabilities;
use ra2a::card::AgentInterface;
use ra2a::card::AgentProvider;
use ra2a::card::Security;
use ra2a::card::TransportProtocol;
use ra2a::cardcodec::card_of_json;
use ra2a::cardcodec::card_to_json;
use ra2a::jsontext::from_json_text;
use ra2a::jsontext::to_json_text;

/// The sample card round-trips through textual encode and decode, equal
/// to the in-memory form: the card prefers the JSONRPC transport and
/// carries three interfaces, two skills, one `google` scheme with three
/// scopes, and one signature.
#[test]
fn spec_example_serde() {
    let expected = sample_agent_card();
    let tree = card_to_json(&expected);
    let text = to_json_text(&tree);
    let parsed = from_json_text(&text).expect("the card prints as readable JSON");
    let deserialized = card_of_json(&parsed).expect("the card JSON decodes");
    assert_eq!(deserialized, expected);
}

#[test]
fn sample_card_shape() {
    let card = sample_agent_card();
    assert_eq!(card.preferred_transport, Some(TransportProtocol::JsonRpc));
    assert_eq!(card.additional_interfaces.len(), 3);
    assert_eq!(card.skills.len(), 2);
    assert_eq!(card.security_schemes.len(), 1);
    assert_eq!(card.security_schemes[0].0, "google");
    assert_eq!(card.security.len(), 1);
    assert_eq!(
        card.security[0].schemes[0].1.list,
        vec!["openid".to_string(), "profile".to_string(), "email".to_string()]
    );
    assert_eq!(card.signatures.len(), 1);
    assert!(card.supports_authenticated_extended_card);
}

#[test]
fn transport_names() {
    assert_eq!(TransportProtocol::JsonRpc.as_str(), "JSONRPC");
    assert_eq!(TransportProtocol::Grpc.as_str(), "GRPC");
    assert_eq!(TransportProtocol::HttpJson.as_str(), "HTTP+JSON");
    assert_eq!(
        TransportProtocol::from_name(&"GRPC".to_string()),
        Some(TransportProtocol::Grpc)
    );
    assert_eq!(TransportProtocol::from_name(&"http".to_string()), None);
}

#[test]
fn builders() {
    let p = AgentProvider::empty()
        .with_organization("Org".to_string())
        .with_url("https://org.example".to_string());
    assert_eq!(p.organization, "Org");
    assert_eq!(p.url, "https://org.example");

    let c = AgentCapabilities::new_default()
        .with_streaming(true)
        .with_push_notifications(true)
        .with_state_transition_history(false);
    assert!(c.streaming && c.push_notifications && !c.state_transition_history);

    let i = AgentInterface::new("https://x".to_string(), TransportProtocol::Grpc);
    assert_eq!(i.transport, Some(TransportProtocol::Grpc));

    let s = Security::empty().with_scheme("google".to_string(), vec!["openid".to_string()]);
    assert_eq!(s.schemes.len(), 1);
    assert_eq!(s.schemes[0].0, "google");
}
