//! The agent's self-describing manifest: identity, capabilities, skills,
//! supported transports and security requirements, with its textual wire
//! form. No core behavior depends on these fields; they are data.
use vstd::prelude::*;

use crate::object::Object;
use crate::object::ObjectV;

verus! {

/// A wire protocol an agent interface can speak. The stable textual names
/// are `JSONRPC`, `GRPC` and `HTTP+JSON` (the last is reserved).
#[derive(Debug, Clone, Copy, PartialEq, Eq, Structural, PartialOrd, Ord)]
pub enum TransportProtocol {
    JsonRpc,
    Grpc,
    HttpJson,
}

/// The stable textual name of a transport protocol.
pub open spec fn spec_transport_name(t: TransportProtocol) -> Seq<char> {
    match t {
        TransportProtocol::JsonRpc => "JSONRPC"@,
        TransportProtocol::Grpc => "GRPC"@,
        TransportProtocol::HttpJson => "HTTP+JSON"@,
    }
}

/// The transport protocol a stable name denotes, if any.
pub open spec fn spec_transport_of_name(s: Seq<char>) -> Option<TransportProtocol> {
    if s == "JSONRPC"@ {
        Some(TransportProtocol::JsonRpc)
    } else if s == "GRPC"@ {
        Some(TransportProtocol::Grpc)
    } else if s == "HTTP+JSON"@ {
        Some(TransportProtocol::HttpJson)
    } else {
        None
    }
}

/// A transport name reads back as its protocol.
pub proof fn lemma_transport_name_round_trip(t: TransportProtocol)
    ensures
        spec_transport_of_name(spec_transport_name(t)) == Some(t),
{
    reveal_strlit("JSONRPC");
    reveal_strlit("GRPC");
    reveal_strlit("HTTP+JSON");
    assert(("JSONRPC"@).len() == 7);
    assert(("GRPC"@).len() == 4);
    assert(("HTTP+JSON"@).len() == 9);
}

impl TransportProtocol {
    /// The stable textual name of the protocol.
    pub fn as_str(&self) -> (r: &'static str)
        ensures
            r@ == spec_transport_name(*self),
    {
        match self {
            TransportProtocol::JsonRpc => "JSONRPC",
            TransportProtocol::Grpc => "GRPC",
            TransportProtocol::HttpJson => "HTTP+JSON",
        }
    }

    /// The protocol of a stable textual name, if any.
    pub fn from_name(s: &String) -> (r: Option<TransportProtocol>)
        ensures
            r == spec_transport_of_name(s@),
    {
        if *s == "JSONRPC".to_owned() {
            Some(TransportProtocol::JsonRpc)
        } else if *s == "GRPC".to_owned() {
            Some(TransportProtocol::Grpc)
        } else if *s == "HTTP+JSON".to_owned() {
            Some(TransportProtocol::HttpJson)
        } else {
            None
        }
    }
}

impl Default for TransportProtocol {
    /// The default transport is the textual one.
    fn default() -> (r: TransportProtocol)
        ensures
            r == TransportProtocol::JsonRpc,
    {
        TransportProtocol::JsonRpc
    }
}

/// One supported interface: a URL and the transport spoken there.
#[derive(Debug, Clone, PartialEq)]
pub struct AgentInterface {
    pub url: String,
    pub transport: Option<TransportProtocol>,
}

pub ghost struct AgentInterfaceV {
    pub url: Seq<char>,
    pub transport: Option<TransportProtocol>,
}

impl View for AgentInterface {
    type V = AgentInterfaceV;

    open spec fn view(&self) -> AgentInterfaceV {
        AgentInterfaceV {
            url: self.url@,
            transport: self.transport,
        }
    }
}

impl AgentInterface {
    /// An interface at the given URL speaking the given transport.
    pub fn new(url: String, transport: TransportProtocol) -> (r: AgentInterface)
        ensures
            r@.url == url@,
            r@.transport == Some(transport),
    {
        AgentInterface { url, transport: Some(transport) }
    }
}

/// The agent's service provider.
#[derive(Debug, Clone, PartialEq, Eq)]
pub struct AgentProvider {
    pub organization: String,
    pub url: String,
}

pub ghost struct AgentProviderV {
    pub organization: Seq<char>,
    pub url: Seq<char>,
}

impl View for AgentProvider {
    type V = AgentProviderV;

    open spec fn view(&self) -> AgentProviderV {
        AgentProviderV { organization: self.organization@, url: self.url@ }
    }
}

impl AgentProvider {
    /// A provider with empty fields.
    pub fn empty() -> (r: AgentProvider)
        ensures
            r@.organization == Seq::<char>::empty(),
            r@.url == Seq::<char>::empty(),
    {
        AgentProvider { organization: String::new(), url: String::new() }
    }

    /// The provider with its organization replaced.
    pub fn with_organization(self, organization: String) -> (r: AgentProvider)
        ensures
            r@.organization == organization@,
            r@.url == self@.url,
    {
        AgentProvider { organization, url: self.url }
    }

    /// The provider with its URL replaced.
    pub fn with_url(self, url: String) -> (r: AgentProvider)
        ensures
            r@.organization == self@.organization,
            r@.url == url@,
    {
        AgentProvider { organization: self.organization, url }
    }
}

/// A protocol extension the agent supports.
#[derive(Debug, Clone, PartialEq)]
pub struct AgentExtension {
    pub url: String,
    pub description: String,
    pub required: bool,
    pub params: Option<Object>,
}

pub ghost struct AgentExtensionV {
    pub url: Seq<char>,
    pub description: Seq<char>,
    pub required: bool,
    pub params: Option<ObjectV>,
}

impl View for AgentExtension {
    type V = AgentExtensionV;

    open spec fn view(&self) -> AgentExtensionV {
        AgentExtensionV {
            url: self.url@,
            description: self.description@,
            required: self.required,
            params: match self.params {
                Some(o) => Some(o@),
                None => None,
            },
        }
    }
}

/// The optional capabilities an agent declares.
#[derive(Debug, Clone, PartialEq)]
pub struct AgentCapabilities {
    pub streaming: bool,
    pub push_notifications: bool,
    pub state_transition_history: bool,
    pub extensions: Vec<AgentExtension>,
}

pub ghost struct AgentCapabilitiesV {
    pub streaming: bool,
    pub push_notifications: bool,
    pub state_transition_history: bool,
    pub extensions: Seq<AgentExtensionV>,
}

impl View for AgentCapabilities {
    type V = AgentCapabilitiesV;

    open spec fn view(&self) -> AgentCapabilitiesV {
        AgentCapabilitiesV {
            streaming: self.streaming,
            push_notifications: self.push_notifications,
            state_transition_history: self.state_transition_history,
            extensions: self.extensions@.map_values(|e: AgentExtension| e@),
        }
    }
}

impl AgentCapabilities {
    /// Capabilities with everything switched off.
    pub fn new_default() -> (r: AgentCapabilities)
        ensures
            !r@.streaming,
            !r@.push_notifications,
            !r@.state_transition_history,
            r@.extensions == Seq::<AgentExtensionV>::empty(),
    {
        let r = AgentCapabilities {
            streaming: false,
            push_notifications: false,
            state_transition_history: false,
            extensions: Vec::new(),
        };
        proof {
            assert(r@.extensions =~= Seq::<AgentExtensionV>::empty());
        }
        r
    }

    /// The capabilities with streaming switched as given.
    pub fn with_streaming(self, streaming: bool) -> (r: AgentCapabilities)
        ensures
            r@ == (AgentCapabilitiesV { streaming, ..self@ }),
    {
        AgentCapabilities { streaming, ..self }
    }

    /// The capabilities with push notifications switched as given.
    pub fn with_push_notifications(self, push_notifications: bool) -> (r: AgentCapabilities)
        ensures
            r@ == (AgentCapabilitiesV { push_notifications, ..self@ }),
    {
        AgentCapabilities { push_notifications, ..self }
    }

    /// The capabilities with the history capability switched as given.
    pub fn with_state_transition_history(self, state_transition_history: bool) -> (r:
        AgentCapabilities)
        ensures
            r@ == (AgentCapabilitiesV { state_transition_history, ..self@ }),
    {
        AgentCapabilities { state_transition_history, ..self }
    }

    /// The capabilities with one more extension appended.
    pub fn with_extension(self, extension: AgentExtension) -> (r: AgentCapabilities)
        ensures
            r@ == (AgentCapabilitiesV {
                extensions: self@.extensions.push(extension@),
                ..self@
            }),
    {
        let ghost e = extension@;
        let mut exts = self.extensions;
        let ghost pre = exts@.map_values(|x: AgentExtension| x@);
        exts.push(extension);
        let r = AgentCapabilities { extensions: exts, ..self };
        proof {
            assert(r@.extensions =~= pre.push(e));
        }
        r
    }

    /// The capabilities with the given extensions appended.
    pub fn with_extensions(self, extensions: Vec<AgentExtension>) -> (r: AgentCapabilities)
        ensures
            r@ == (AgentCapabilitiesV {
                extensions: self@.extensions + extensions@.map_values(|e: AgentExtension| e@),
                ..self@
            }),
    {
        let ghost added = extensions@.map_values(|e: AgentExtension| e@);
        let mut exts = self.extensions;
        let ghost pre = exts@.map_values(|x: AgentExtension| x@);
        let mut more = extensions;
        exts.append(&mut more);
        let r = AgentCapabilities { extensions: exts, ..self };
        proof {
            assert(r@.extensions =~= pre + added);
        }
        r
    }

    /// The capabilities with the extensions replaced outright.
    pub fn set_extensions(self, extensions: Vec<AgentExtension>) -> (r: AgentCapabilities)
        ensures
            r@ == (AgentCapabilitiesV {
                extensions: extensions@.map_values(|e: AgentExtension| e@),
                ..self@
            }),
    {
        AgentCapabilities { extensions, ..self }
    }
}

/// One set of security schemes that must be used together; the list of
/// scopes is kept per scheme name.
#[derive(Debug, Clone, PartialEq, Eq)]
pub struct Security {
    pub schemes: Vec<(String, crate::model::StringList)>,
}

pub ghost struct SecurityV {
    pub schemes: Seq<(Seq<char>, Seq<Seq<char>>)>,
}

impl View for Security {
    type V = SecurityV;

    open spec fn view(&self) -> SecurityV {
        SecurityV {
            schemes: self.schemes@.map_values(
                |p: (String, crate::model::StringList)| (p.0@, p.1@),
            ),
        }
    }
}

impl Security {
    /// A requirement naming no schemes.
    pub fn empty() -> (r: Security)
        ensures
            r@.schemes == Seq::<(Seq<char>, Seq<Seq<char>>)>::empty(),
    {
        let r = Security { schemes: Vec::new() };
        proof {
            assert(r@.schemes =~= Seq::<(Seq<char>, Seq<Seq<char>>)>::empty());
        }
        r
    }

    /// The requirement with one more scheme and its scopes appended.
    pub fn with_scheme(self, scheme: String, scopes: Vec<String>) -> (r: Security)
        ensures
            r@.schemes == self@.schemes.push(
                (scheme@, scopes@.map_values(|s: String| s@)),
            ),
    {
        let ghost key = scheme@;
        let ghost vals = scopes@.map_values(|s: String| s@);
        let mut schemes = self.schemes;
        let ghost pre = schemes@.map_values(
            |p: (String, crate::model::StringList)| (p.0@, p.1@),
        );
        schemes.push((scheme, crate::model::StringList { list: scopes }));
        let r = Security { schemes };
        proof {
            assert(r@.schemes =~= pre.push((key, vals)));
        }
        r
    }
}

/// A named way to authorize requests; this runtime carries the OpenAPI
/// OpenID Connect shape.
#[derive(Debug, Clone, PartialEq, Eq)]
pub struct SecurityScheme {
    pub scheme_type: String,
    pub open_id_connect_url: String,
    pub description: String,
}

pub ghost struct SecuritySchemeV {
    pub scheme_type: Seq<char>,
    pub open_id_connect_url: Seq<char>,
    pub description: Seq<char>,
}

impl View for SecurityScheme {
    type V = SecuritySchemeV;

    open spec fn view(&self) -> SecuritySchemeV {
        SecuritySchemeV {
            scheme_type: self.scheme_type@,
            open_id_connect_url: self.open_id_connect_url@,
            description: self.description@,
        }
    }
}

impl SecurityScheme {
    /// An OpenID Connect scheme with the given discovery URL.
    pub fn open_id_connect(url: String, description: Option<String>) -> (r: SecurityScheme)
        ensures
            r@.scheme_type == "openIdConnect"@,
            r@.open_id_connect_url == url@,
            r@.description == (match description {
                Some(d) => d@,
                None => Seq::<char>::empty(),
            }),
    {
        SecurityScheme {
            scheme_type: "openIdConnect".to_owned(),
            open_id_connect_url: url,
            description: match description {
                Some(d) => d,
                None => String::new(),
            },
        }
    }
}

/// A distinct capability the agent can perform.
#[derive(Debug, Clone, PartialEq)]
pub struct AgentSkill {
    pub id: String,
    pub name: String,
    pub description: String,
    pub tags: Vec<String>,
    pub examples: Vec<String>,
    pub input_modes: Vec<String>,
    pub output_modes: Vec<String>,
    pub security: Vec<Security>,
}

pub ghost struct AgentSkillV {
    pub id: Seq<char>,
    pub name: Seq<char>,
    pub description: Seq<char>,
    pub tags: Seq<Seq<char>>,
    pub examples: Seq<Seq<char>>,
    pub input_modes: Seq<Seq<char>>,
    pub output_modes: Seq<Seq<char>>,
    pub security: Seq<SecurityV>,
}

impl View for AgentSkill {
    type V = AgentSkillV;

    open spec fn view(&self) -> AgentSkillV {
        AgentSkillV {
            id: self.id@,
            name: self.name@,
            description: self.description@,
            tags: self.tags@.map_values(|s: String| s@),
            examples: self.examples@.map_values(|s: String| s@),
            input_modes: self.input_modes@.map_values(|s: String| s@),
            output_modes: self.output_modes@.map_values(|s: String| s@),
            security: self.security@.map_values(|s: Security| s@),
        }
    }
}

/// A JSON Web Signature computed for the card.
#[derive(Debug, Clone, PartialEq)]
pub struct AgentCardSignature {
    pub protected: String,
    pub signature: String,
    pub header: Option<Object>,
}

pub ghost struct AgentCardSignatureV {
    pub protected: Seq<char>,
    pub signature: Seq<char>,
    pub header: Option<ObjectV>,
}

impl View for AgentCardSignature {
    type V = AgentCardSignatureV;

    open spec fn view(&self) -> AgentCardSignatureV {
        AgentCardSignatureV {
            protected: self.protected@,
            signature: self.signature@,
            header: match self.header {
                Some(o) => Some(o@),
                None => None,
            },
        }
    }
}

/// The agent's self-describing manifest.
#[derive(Debug, Clone, PartialEq)]
pub struct AgentCard {
    pub protocol_version: String,
    pub name: String,
    pub description: String,
    pub url: String,
    pub preferred_transport: Option<TransportProtocol>,
    pub additional_interfaces: Vec<AgentInterface>,
    pub provider: Option<AgentProvider>,
    pub version: String,
    pub documentation_url: String,
    pub capabilities: Option<AgentCapabilities>,
    pub security_schemes: Vec<(String, SecurityScheme)>,
    pub security: Vec<Security>,
    pub default_input_modes: Vec<String>,
    pub default_output_modes: Vec<String>,
    pub skills: Vec<AgentSkill>,
    pub supports_authenticated_extended_card: bool,
    pub signatures: Vec<AgentCardSignature>,
    pub icon_url: String,
}

pub ghost struct AgentCardV {
    pub protocol_version: Seq<char>,
    pub name: Seq<char>,
    pub description: Seq<char>,
    pub url: Seq<char>,
    pub preferred_transport: Option<TransportProtocol>,
    pub additional_interfaces: Seq<AgentInterfaceV>,
    pub provider: Option<AgentProviderV>,
    pub version: Seq<char>,
    pub documentation_url: Seq<char>,
    pub capabilities: Option<AgentCapabilitiesV>,
    pub security_schemes: Seq<(Seq<char>, SecuritySchemeV)>,
    pub security: Seq<SecurityV>,
    pub default_input_modes: Seq<Seq<char>>,
    pub default_output_modes: Seq<Seq<char>>,
    pub skills: Seq<AgentSkillV>,
    pub supports_authenticated_extended_card: bool,
    pub signatures: Seq<AgentCardSignatureV>,
    pub icon_url: Seq<char>,
}

impl View for AgentCard {
    type V = AgentCardV;

    open spec fn view(&self) -> AgentCardV {
        AgentCardV {
            protocol_version: self.protocol_version@,
            name: self.name@,
            description: self.description@,
            url: self.url@,
            preferred_transport: self.preferred_transport,
            additional_interfaces: self.additional_interfaces@.map_values(
                |i: AgentInterface| i@,
            ),
            provider: match self.provider {
                Some(p) => Some(p@),
                None => None,
            },
            version: self.version@,
            documentation_url: self.documentation_url@,
            capabilities: match self.capabilities {
                Some(c) => Some(c@),
                None => None,
            },
            security_schemes: self.security_schemes@.map_values(
                |p: (String, SecurityScheme)| (p.0@, p.1@),
            ),
            security: self.security@.map_values(|s: Security| s@),
            default_input_modes: self.default_input_modes@.map_values(|s: String| s@),
            default_output_modes: self.default_output_modes@.map_values(|s: String| s@),
            skills: self.skills@.map_values(|s: AgentSkill| s@),
            supports_authenticated_extended_card: self.supports_authenticated_extended_card,
            signatures: self.signatures@.map_values(|s: AgentCardSignature| s@),
            icon_url: self.icon_url@,
        }
    }
}

/// A sample manifest: the GeoSpatial route planner agent, preferring the
/// textual transport, with three interfaces, one
/// provider, one OpenID Connect scheme named `google` carrying three
/// scopes, two skills and one signature.
pub fn sample_agent_card() -> (r: AgentCard)
    ensures
        r@.protocol_version == "0.2.9"@,
        r@.name == "GeoSpatial Route Planner Agent"@,
        r@.url == "https://georoute-agent.example.com/a2a/v1"@,
        r@.preferred_transport == Some(TransportProtocol::JsonRpc),
        r@.additional_interfaces.len() == 3,
        r@.additional_interfaces[0].transport == Some(TransportProtocol::JsonRpc),
        r@.additional_interfaces[1].transport == Some(TransportProtocol::Grpc),
        r@.additional_interfaces[2].transport == Some(TransportProtocol::HttpJson),
        r@.provider matches Some(p) && p.organization == "Example Geo Services Inc."@,
        r@.version == "1.2.0"@,
        r@.capabilities matches Some(c) && c.streaming && c.push_notifications
            && !c.state_transition_history && c.extensions.len() == 0,
        r@.security_schemes.len() == 1,
        r@.security_schemes[0].0 == "google"@,
        r@.security_schemes[0].1.scheme_type == "openIdConnect"@,
        r@.security.len() == 1,
        r@.security[0].schemes.len() == 1,
        r@.security[0].schemes[0].0 == "google"@,
        r@.security[0].schemes[0].1 =~= seq!["openid"@, "profile"@, "email"@],
        r@.default_input_modes =~= seq!["application/json"@, "text/plain"@],
        r@.default_output_modes =~= seq!["application/json"@, "image/png"@],
        r@.skills.len() == 2,
        r@.skills[0].id == "route-optimizer-traffic"@,
        r@.skills[1].id == "custom-map-generator"@,
        r@.supports_authenticated_extended_card,
        r@.signatures.len() == 1,
{
    let mut additional_interfaces: Vec<AgentInterface> = Vec::new();
    additional_interfaces.push(
        AgentInterface::new(
            "https://georoute-agent.example.com/a2a/v1".to_owned(),
            TransportProtocol::JsonRpc,
        ),
    );
    additional_interfaces.push(
        AgentInterface::new(
            "https://georoute-agent.example.com/a2a/grpc".to_owned(),
            TransportProtocol::Grpc,
        ),
    );
    additional_interfaces.push(
        AgentInterface::new(
            "https://georoute-agent.example.com/a2a/json".to_owned(),
            TransportProtocol::HttpJson,
        ),
    );
    let mut security_schemes: Vec<(String, SecurityScheme)> = Vec::new();
    security_schemes.push(
        (
            "google".to_owned(),
            SecurityScheme::open_id_connect(
                "https://accounts.google.com/.well-known/openid-configuration".to_owned(),
                None,
            ),
        ),
    );
    let mut scopes: Vec<String> = Vec::new();
    scopes.push("openid".to_owned());
    scopes.push("profile".to_owned());
    scopes.push("email".to_owned());
    let mut security: Vec<Security> = Vec::new();
    security.push(Security::empty().with_scheme("google".to_owned(), scopes));
    let mut default_input_modes: Vec<String> = Vec::new();
    default_input_modes.push("application/json".to_owned());
    default_input_modes.push("text/plain".to_owned());
    let mut default_output_modes: Vec<String> = Vec::new();
    default_output_modes.push("application/json".to_owned());
    default_output_modes.push("image/png".to_owned());

    let mut tags1: Vec<String> = Vec::new();
    tags1.push("maps".to_owned());
    tags1.push("routing".to_owned());
    tags1.push("navigation".to_owned());
    tags1.push("directions".to_owned());
    tags1.push("traffic".to_owned());
    let mut examples1: Vec<String> = Vec::new();
    examples1.push(
        "Plan a route from '1600 Amphitheatre Parkway, Mountain View, CA' to 'San Francisco International Airport' avoiding tolls.".to_owned(),
    );
    examples1.push(
        "{\"origin\": {\"lat\": 37.422, \"lng\": -122.084}, \"destination\": {\"lat\": 37.7749, \"lng\": -122.4194}, \"preferences\": [\"avoid_ferries\"]}".to_owned(),
    );
    let mut input_modes1: Vec<String> = Vec::new();
    input_modes1.push("application/json".to_owned());
    input_modes1.push("text/plain".to_owned());
    let mut output_modes1: Vec<String> = Vec::new();
    output_modes1.push("application/json".to_owned());
    output_modes1.push("application/vnd.geo+json".to_owned());
    output_modes1.push("text/html".to_owned());
    let skill1 = AgentSkill {
        id: "route-optimizer-traffic".to_owned(),
        name: "Traffic-Aware Route Optimizer".to_owned(),
        description: "Calculates the optimal driving route between two or more locations, taking into account real-time traffic conditions, road closures, and user preferences (e.g., avoid tolls, prefer highways).".to_owned(),
        tags: tags1,
        examples: examples1,
        input_modes: input_modes1,
        output_modes: output_modes1,
        security: Vec::new(),
    };

    let mut tags2: Vec<String> = Vec::new();
    tags2.push("maps".to_owned());
    tags2.push("customization".to_owned());
    tags2.push("visualization".to_owned());
    tags2.push("cartography".to_owned());
    let mut examples2: Vec<String> = Vec::new();
    examples2.push(
        "Generate a map of my upcoming road trip with all planned stops highlighted.".to_owned(),
    );
    examples2.push(
        "Show me a map visualizing all coffee shops within a 1-mile radius of my current location.".to_owned(),
    );
    let mut input_modes2: Vec<String> = Vec::new();
    input_modes2.push("application/json".to_owned());
    let mut output_modes2: Vec<String> = Vec::new();
    output_modes2.push("image/png".to_owned());
    output_modes2.push("image/jpeg".to_owned());
    output_modes2.push("application/json".to_owned());
    output_modes2.push("text/html".to_owned());
    let skill2 = AgentSkill {
        id: "custom-map-generator".to_owned(),
        name: "Personalized Map Generator".to_owned(),
        description: "Creates custom map images or interactive map views based on user-defined points of interest, routes, and style preferences. Can overlay data layers.".to_owned(),
        tags: tags2,
        examples: examples2,
        input_modes: input_modes2,
        output_modes: output_modes2,
        security: Vec::new(),
    };
    let mut skills: Vec<AgentSkill> = Vec::new();
    skills.push(skill1);
    skills.push(skill2);

    let mut signatures: Vec<AgentCardSignature> = Vec::new();
    signatures.push(
        AgentCardSignature {
            protected: "eyJhbGciOiJFUzI1NiIsInR5cCI6IkpPU0UiLCJraWQiOiJrZXktMSIsImprdSI6Imh0dHBzOi8vZXhhbXBsZS5jb20vYWdlbnQvandrcy5qc29uIn0".to_owned(),
            signature: "QFdkNLNszlGj3z3u0YQGt_T9LixY3qtdQpZmsTdDHDe3fXV9y9-B3m2-XgCpzuhiLt8E0tV6HXoZKHv4GtHgKQ".to_owned(),
            header: None,
        },
    );

    let r = AgentCard {
        protocol_version: "0.2.9".to_owned(),
        name: "GeoSpatial Route Planner Agent".to_owned(),
        description: "Provides advanced route planning, traffic analysis, and custom map generation services. This agent can calculate optimal routes, estimate travel times considering real-time traffic, and create personalized maps with points of interest.".to_owned(),
        url: "https://georoute-agent.example.com/a2a/v1".to_owned(),
        preferred_transport: Some(TransportProtocol::JsonRpc),
        additional_interfaces,
        provider: Some(
            AgentProvider::empty().with_organization(
                "Example Geo Services Inc.".to_owned(),
            ).with_url("https://www.examplegeoservices.com".to_owned()),
        ),
        version: "1.2.0".to_owned(),
        documentation_url: "https://docs.examplegeoservices.com/georoute-agent/api".to_owned(),
        capabilities: Some(
            AgentCapabilities::new_default().with_streaming(true).with_push_notifications(
                true,
            ).with_state_transition_history(false),
        ),
        security_schemes,
        security,
        default_input_modes,
        default_output_modes,
        skills,
        supports_authenticated_extended_card: true,
        signatures,
        icon_url: "https://georoute-agent.example.com/icon.png".to_owned(),
    };
    proof {
        assert(r@.security[0].schemes[0].1 =~= seq!["openid"@, "profile"@, "email"@]);
        assert(r@.default_input_modes =~= seq!["application/json"@, "text/plain"@]);
        assert(r@.default_output_modes =~= seq!["application/json"@, "image/png"@]);
    }
    r
}

} // verus!
