//! The textual wire form of the agent manifest: the card and its parts as
//! free-form JSON values and back, in the same canonical style as the
//! service entities. Every encoder's contract states the round trip.
use vstd::prelude::*;

use crate::card::AgentCard;
use crate::card::AgentCardSignature;
use crate::card::AgentCapabilities;
use crate::card::AgentExtension;
use crate::card::AgentInterface;
use crate::card::AgentProvider;
use crate::card::AgentSkill;
use crate::card::Security;
use crate::card::SecurityScheme;
use crate::card::AgentCardV;
use crate::card::AgentCardSignatureV;
use crate::card::AgentCapabilitiesV;
use crate::card::AgentExtensionV;
use crate::card::AgentInterfaceV;
use crate::card::AgentProviderV;
use crate::card::AgentSkillV;
use crate::card::SecurityV;
use crate::card::SecuritySchemeV;
use crate::card::spec_transport_name;
use crate::card::spec_transport_of_name;
use crate::card::lemma_transport_name_round_trip;
use crate::card::TransportProtocol;
use crate::jcodec::field_of;
use crate::jcodec::get_field;
use crate::jcodec::opt_object_field;
use crate::jcodec::req_str_field;
use crate::jcodec::str_or_empty_field;
use crate::jcodec::strings_field;
use crate::jcodec::strings_from_json;
use crate::jcodec::strings_of_json;
use crate::jcodec::strings_to_json;
use crate::object::jv_fields_view;
use crate::object::jv_seq_view;
use crate::object::lemma_jv_fields_view;
use crate::object::lemma_jv_seq_view;
use crate::object::JsonV;
use crate::object::JsonValue;
use crate::object::Object;

verus! {

/// A boolean field that defaults to false when absent.
pub open spec fn bool_field(fields: Seq<(Seq<char>, JsonV)>, key: Seq<char>) -> Option<bool> {
    match field_of(fields, key) {
        None => Some(false),
        Some(JsonV::Bool(b)) => Some(b),
        Some(_) => None,
    }
}

/// The provider a JSON value denotes.
pub open spec fn provider_from_json(v: JsonV) -> Option<AgentProviderV> {
    match v {
        JsonV::Obj(fs) => match str_or_empty_field(fs, "organization"@) {
            Some(org) => match str_or_empty_field(fs, "url"@) {
                Some(url) => Some(AgentProviderV { organization: org, url: url }),
                None => None,
            },
            None => None,
        },
        _ => None,
    }
}

/// Encodes a provider. Decoding the result yields it back.
pub fn provider_to_json(p: &AgentProvider) -> (r: JsonValue)
    ensures
        provider_from_json(r@) == Some(p@),
{
    let mut fields: Vec<(String, JsonValue)> = Vec::new();
    fields.push(("organization".to_owned(), JsonValue::Str(p.organization.clone())));
    fields.push(("url".to_owned(), JsonValue::Str(p.url.clone())));
    let r = JsonValue::Object(Object { fields });
    proof {
        let fs = r->Object_0@.fields;
        lemma_jv_fields_view(r->Object_0.fields@);
        reveal_strlit("organization");
        reveal_strlit("url");
        reveal_with_fuel(field_of, 4);
        assert(fs.len() == 2);
        let d1 = fs.drop_first();
        assert(fs[0].0 == "organization"@);
        assert(d1[0].0 == "url"@);
        assert(field_of(fs, "organization"@) == Some(fs[0].1));
        assert(field_of(fs, "url"@) == Some(d1[0].1));
        assert(provider_from_json(r@) == Some(p@));
    }
    r
}

/// Decodes a provider.
pub fn provider_of_json(v: &JsonValue) -> (r: Option<AgentProvider>)
    ensures
        match r {
            Some(p) => provider_from_json(v@) == Some(p@),
            None => provider_from_json(v@) is None,
        },
{
    let obj = match v {
        JsonValue::Object(o) => o,
        _ => {
            return None;
        },
    };
    let organization = match get_field(obj, "organization") {
        None => String::new(),
        Some(JsonValue::Str(s)) => s.clone(),
        Some(_) => {
            return None;
        },
    };
    let url = match get_field(obj, "url") {
        None => String::new(),
        Some(JsonValue::Str(s)) => s.clone(),
        Some(_) => {
            return None;
        },
    };
    Some(AgentProvider { organization, url })
}

/// The interface a JSON value denotes.
pub open spec fn interface_from_json(v: JsonV) -> Option<AgentInterfaceV> {
    match v {
        JsonV::Obj(fs) => match str_or_empty_field(fs, "url"@) {
            Some(url) => match (match field_of(fs, "transport"@) {
                None => Some(None),
                Some(JsonV::Null) => Some(None),
                Some(JsonV::Str(tn)) => match spec_transport_of_name(tn) {
                    Some(t) => Some(Some(t)),
                    None => None,
                },
                Some(_) => None,
            }) {
                Some(t) => Some(AgentInterfaceV { url: url, transport: t }),
                None => None,
            },
            None => None,
        },
        _ => None,
    }
}

/// Encodes an interface. Decoding the result yields it back.
pub fn interface_to_json(a: &AgentInterface) -> (r: JsonValue)
    ensures
        interface_from_json(r@) == Some(a@),
{
    let mut fields: Vec<(String, JsonValue)> = Vec::new();
    fields.push(("url".to_owned(), JsonValue::Str(a.url.clone())));
    match &a.transport {
        Some(t) => {
            fields.push(("transport".to_owned(), JsonValue::Str(t.as_str().to_owned())));
        },
        None => {
            fields.push(("transport".to_owned(), JsonValue::Null));
        },
    }
    let r = JsonValue::Object(Object { fields });
    proof {
        let fs = r->Object_0@.fields;
        lemma_jv_fields_view(r->Object_0.fields@);
        reveal_strlit("url");
        reveal_strlit("transport");
        reveal_with_fuel(field_of, 4);
        assert(fs.len() == 2);
        let d1 = fs.drop_first();
        assert(fs[0].0 == "url"@);
        assert(d1[0].0 == "transport"@);
        assert(field_of(fs, "url"@) == Some(fs[0].1));
        assert(field_of(fs, "transport"@) == Some(d1[0].1));
        match a.transport {
            Some(t) => {
                lemma_transport_name_round_trip(t);
            },
            None => {
            },
        }
        assert(interface_from_json(r@) == Some(a@));
    }
    r
}

/// Decodes an interface.
pub fn interface_of_json(v: &JsonValue) -> (r: Option<AgentInterface>)
    ensures
        match r {
            Some(a) => interface_from_json(v@) == Some(a@),
            None => interface_from_json(v@) is None,
        },
{
    let obj = match v {
        JsonValue::Object(o) => o,
        _ => {
            return None;
        },
    };
    let url = match get_field(obj, "url") {
        None => String::new(),
        Some(JsonValue::Str(s)) => s.clone(),
        Some(_) => {
            return None;
        },
    };
    let transport = match get_field(obj, "transport") {
        None => None,
        Some(JsonValue::Null) => None,
        Some(JsonValue::Str(tn)) => match TransportProtocol::from_name(tn) {
            Some(t) => Some(t),
            None => {
                return None;
            },
        },
        Some(_) => {
            return None;
        },
    };
    Some(AgentInterface { url, transport })
}

/// The extension a JSON value denotes.
pub open spec fn extension_from_json(v: JsonV) -> Option<AgentExtensionV> {
    match v {
        JsonV::Obj(fs) => match str_or_empty_field(fs, "url"@) {
            Some(url) => match str_or_empty_field(fs, "description"@) {
                Some(desc) => match bool_field(fs, "required"@) {
                    Some(req) => match opt_object_field(fs, "params"@) {
                        Some(params) => Some(
                            AgentExtensionV {
                                url: url,
                                description: desc,
                                required: req,
                                params: params,
                            },
                        ),
                        None => None,
                    },
                    None => None,
                },
                None => None,
            },
            None => None,
        },
        _ => None,
    }
}

/// Encodes an extension. Decoding the result yields it back.
pub fn extension_to_json(a: &AgentExtension) -> (r: JsonValue)
    ensures
        extension_from_json(r@) == Some(a@),
{
    let mut fields: Vec<(String, JsonValue)> = Vec::new();
    fields.push(("url".to_owned(), JsonValue::Str(a.url.clone())));
    fields.push(("description".to_owned(), JsonValue::Str(a.description.clone())));
    fields.push(("required".to_owned(), JsonValue::Bool(a.required)));
    match &a.params {
        Some(o) => {
            fields.push(("params".to_owned(), JsonValue::Object(o.dup())));
        },
        None => {
            fields.push(("params".to_owned(), JsonValue::Null));
        },
    }
    let r = JsonValue::Object(Object { fields });
    proof {
        let fs = r->Object_0@.fields;
        lemma_jv_fields_view(r->Object_0.fields@);
        reveal_strlit("url");
        reveal_strlit("description");
        reveal_strlit("required");
        reveal_strlit("params");
        reveal_with_fuel(field_of, 6);
        assert(fs.len() == 4);
        let d1 = fs.drop_first();
        let d2 = d1.drop_first();
        let d3 = d2.drop_first();
        assert(fs[0].0 == "url"@);
        assert(d1[0].0 == "description"@);
        assert(d2[0].0 == "required"@);
        assert(d3[0].0 == "params"@);
        assert(field_of(fs, "url"@) == Some(fs[0].1));
        assert(field_of(fs, "description"@) == Some(d1[0].1));
        assert(field_of(fs, "required"@) == Some(d2[0].1));
        assert(field_of(fs, "params"@) == Some(d3[0].1));
        if a@.params is Some {
            assert(!(d3[0].1 is Null));
        }
        assert(extension_from_json(r@) == Some(a@));
    }
    r
}

/// Decodes an extension.
pub fn extension_of_json(v: &JsonValue) -> (r: Option<AgentExtension>)
    ensures
        match r {
            Some(a) => extension_from_json(v@) == Some(a@),
            None => extension_from_json(v@) is None,
        },
{
    let obj = match v {
        JsonValue::Object(o) => o,
        _ => {
            return None;
        },
    };
    let url = match get_field(obj, "url") {
        None => String::new(),
        Some(JsonValue::Str(s)) => s.clone(),
        Some(_) => {
            return None;
        },
    };
    let description = match get_field(obj, "description") {
        None => String::new(),
        Some(JsonValue::Str(s)) => s.clone(),
        Some(_) => {
            return None;
        },
    };
    let required = match get_field(obj, "required") {
        None => false,
        Some(JsonValue::Bool(b)) => *b,
        Some(_) => {
            return None;
        },
    };
    let params = match get_field(obj, "params") {
        None => None,
        Some(JsonValue::Null) => None,
        Some(JsonValue::Object(o)) => Some(o.dup()),
        Some(_) => {
            return None;
        },
    };
    Some(AgentExtension { url, description, required, params })
}

/// The scopes-per-scheme pairs a JSON object's own fields denote.
pub open spec fn scopes_map_from_fields(fs: Seq<(Seq<char>, JsonV)>) -> Option<
    Seq<(Seq<char>, Seq<Seq<char>>)>,
>
    decreases fs.len(),
{
    if fs.len() == 0 {
        Some(Seq::empty())
    } else {
        match fs.last().1 {
            JsonV::Arr(items) => match strings_from_json(items) {
                Some(scopes) => match scopes_map_from_fields(fs.drop_last()) {
                    Some(ps) => Some(ps.push((fs.last().0, scopes))),
                    None => None,
                },
                None => None,
            },
            _ => None,
        }
    }
}

/// The security requirement a JSON value denotes: every field of the
/// object is a scheme name with its scopes.
pub open spec fn security_item_from_json(v: JsonV) -> Option<SecurityV> {
    match v {
        JsonV::Obj(fs) => match scopes_map_from_fields(fs) {
            Some(ps) => Some(SecurityV { schemes: ps }),
            None => None,
        },
        _ => None,
    }
}

/// Encodes a security requirement. Decoding the result yields it back.
pub fn security_item_to_json(sec: &Security) -> (r: JsonValue)
    ensures
        security_item_from_json(r@) == Some(sec@),
{
    let mut fields: Vec<(String, JsonValue)> = Vec::new();
    let n = sec.schemes.len();
    let mut i: usize = 0;
    proof {
        lemma_jv_fields_view(fields@);
        assert(jv_fields_view(fields@) =~= Seq::<(Seq<char>, JsonV)>::empty());
        assert(sec@.schemes.subrange(0, 0) =~= Seq::<(Seq<char>, Seq<Seq<char>>)>::empty());
    }
    while i < n
        invariant
            n == sec.schemes@.len(),
            i <= n,
            fields@.len() == i,
            scopes_map_from_fields(jv_fields_view(fields@)) == Some(sec@.schemes.subrange(0, i as int)),
        decreases n - i,
    {
        let ghost pre = jv_fields_view(fields@);
        let ghost prefields = fields@;
        let key = sec.schemes[i].0.clone();
        let scopes = strings_to_json(&sec.schemes[i].1.list);
        fields.push((key, scopes));
        proof {
            lemma_jv_fields_view(prefields);
            lemma_jv_fields_view(fields@);
            let cur = jv_fields_view(fields@);
            assert(cur.drop_last() =~= pre);
            assert(cur.last() == (sec.schemes@[i as int].0@, crate::object::jv_view(fields@.last().1)));
            assert(sec@.schemes.subrange(0, i + 1 as int).drop_last() =~= sec@.schemes.subrange(0, i as int));
            assert(sec@.schemes.subrange(0, i + 1 as int).last() == sec@.schemes[i as int]);
        }
        i += 1;
    }
    let r = JsonValue::Object(Object { fields });
    proof {
        assert(sec@.schemes.subrange(0, n as int) =~= sec@.schemes);
        assert(security_item_from_json(r@) == Some(sec@));
    }
    r
}

/// Decodes a security requirement.
pub fn security_item_of_json(v: &JsonValue) -> (r: Option<Security>)
    ensures
        match r {
            Some(sec) => security_item_from_json(v@) == Some(sec@),
            None => security_item_from_json(v@) is None,
        },
{
    let obj = match v {
        JsonValue::Object(o) => o,
        _ => {
            return None;
        },
    };
    let ghost views = jv_fields_view(obj.fields@);
    let mut out: Vec<(String, crate::model::StringList)> = Vec::new();
    let n = obj.fields.len();
    let mut i: usize = 0;
    proof {
        lemma_jv_fields_view(obj.fields@);
        assert(views.subrange(0, 0) =~= Seq::<(Seq<char>, JsonV)>::empty());
        assert(out@.map_values(|p: (String, crate::model::StringList)| (p.0@, p.1@)) =~= Seq::<
            (Seq<char>, Seq<Seq<char>>),
        >::empty());
    }
    while i < n
        invariant
            n == obj.fields@.len(),
            i <= n,
            views == jv_fields_view(obj.fields@),
            crate::object::jv_view(*v) == JsonV::Obj(views),
            views.len() == n,
            forall|k: int|
                0 <= k < n ==> views[k] == (
                obj.fields@[k].0@,
                crate::object::jv_view(obj.fields@[k].1),
                ),
            scopes_map_from_fields(views.subrange(0, i as int)) == Some(
                out@.map_values(|p: (String, crate::model::StringList)| (p.0@, p.1@)),
            ),
        decreases n - i,
    {
        let ghost pre = out@.map_values(|p: (String, crate::model::StringList)| (p.0@, p.1@));
        let scopes: Vec<String> = match &obj.fields[i].1 {
            JsonValue::Array(items) => match strings_of_json(items) {
                Some(ss) => ss,
                None => {
                    proof {
                        assert(views[i as int].1 == JsonV::Arr(jv_seq_view(items@)));
                        lemma_scopes_map_bad(views, i as int);
                    }
                    return None;
                },
            },
            _ => {
                proof {
                    assert(!(views[i as int].1 is Arr));
                    lemma_scopes_map_bad(views, i as int);
                }
                return None;
            },
        };
        let key = obj.fields[i].0.clone();
        out.push((key, crate::model::StringList { list: scopes }));
        proof {
            let cur = views.subrange(0, i + 1 as int);
            assert(cur.drop_last() =~= views.subrange(0, i as int));
            assert(cur.last() == views[i as int]);
            assert(out@.map_values(|p: (String, crate::model::StringList)| (p.0@, p.1@)) =~=
                pre.push((out@.last().0@, out@.last().1@)));
        }
        i += 1;
    }
    proof {
        assert(views.subrange(0, n as int) =~= views);
    }
    Some(Security { schemes: out })
}

/// A field that is no string array anywhere spoils a scopes map.
proof fn lemma_scopes_map_bad(views: Seq<(Seq<char>, JsonV)>, i: int)
    requires
        0 <= i < views.len(),
        match views[i].1 {
            JsonV::Arr(items) => strings_from_json(items) is None,
            _ => true,
        },
    ensures
        scopes_map_from_fields(views) is None,
    decreases views.len(),
{
    if views.len() > 0 {
        if i < views.len() - 1 {
            lemma_scopes_map_bad(views.drop_last(), i);
        }
    }
}

/// The security scheme a JSON value denotes.
pub open spec fn scheme_from_json(v: JsonV) -> Option<SecuritySchemeV> {
    match v {
        JsonV::Obj(fs) => match req_str_field(fs, "type"@) {
            Some(ty) => match str_or_empty_field(fs, "openIdConnectUrl"@) {
                Some(url) => match str_or_empty_field(fs, "description"@) {
                    Some(desc) => Some(
                        SecuritySchemeV {
                            scheme_type: ty,
                            open_id_connect_url: url,
                            description: desc,
                        },
                    ),
                    None => None,
                },
                None => None,
            },
            None => None,
        },
        _ => None,
    }
}

/// Encodes a security scheme. Decoding the result yields it back.
pub fn scheme_to_json(s: &SecurityScheme) -> (r: JsonValue)
    ensures
        scheme_from_json(r@) == Some(s@),
{
    let mut fields: Vec<(String, JsonValue)> = Vec::new();
    fields.push(("type".to_owned(), JsonValue::Str(s.scheme_type.clone())));
    fields.push(("openIdConnectUrl".to_owned(), JsonValue::Str(s.open_id_connect_url.clone())));
    fields.push(("description".to_owned(), JsonValue::Str(s.description.clone())));
    let r = JsonValue::Object(Object { fields });
    proof {
        let fs = r->Object_0@.fields;
        lemma_jv_fields_view(r->Object_0.fields@);
        reveal_strlit("type");
        reveal_strlit("openIdConnectUrl");
        reveal_strlit("description");
        reveal_with_fuel(field_of, 5);
        assert(fs.len() == 3);
        let d1 = fs.drop_first();
        let d2 = d1.drop_first();
        assert(fs[0].0 == "type"@);
        assert(d1[0].0 == "openIdConnectUrl"@);
        assert(d2[0].0 == "description"@);
        assert(field_of(fs, "type"@) == Some(fs[0].1));
        assert(field_of(fs, "openIdConnectUrl"@) == Some(d1[0].1));
        assert(field_of(fs, "description"@) == Some(d2[0].1));
        assert(scheme_from_json(r@) == Some(s@));
    }
    r
}

/// Decodes a security scheme.
pub fn scheme_of_json(v: &JsonValue) -> (r: Option<SecurityScheme>)
    ensures
        match r {
            Some(s) => scheme_from_json(v@) == Some(s@),
            None => scheme_from_json(v@) is None,
        },
{
    let obj = match v {
        JsonValue::Object(o) => o,
        _ => {
            return None;
        },
    };
    let scheme_type = match get_field(obj, "type") {
        Some(JsonValue::Str(s)) => s.clone(),
        _ => {
            return None;
        },
    };
    let open_id_connect_url = match get_field(obj, "openIdConnectUrl") {
        None => String::new(),
        Some(JsonValue::Str(s)) => s.clone(),
        Some(_) => {
            return None;
        },
    };
    let description = match get_field(obj, "description") {
        None => String::new(),
        Some(JsonValue::Str(s)) => s.clone(),
        Some(_) => {
            return None;
        },
    };
    Some(SecurityScheme { scheme_type, open_id_connect_url, description })
}

/// The named security schemes a JSON object's own fields denote.
pub open spec fn schemes_map_from_fields(fs: Seq<(Seq<char>, JsonV)>) -> Option<
    Seq<(Seq<char>, SecuritySchemeV)>,
>
    decreases fs.len(),
{
    if fs.len() == 0 {
        Some(Seq::empty())
    } else {
        match scheme_from_json(fs.last().1) {
            Some(s) => match schemes_map_from_fields(fs.drop_last()) {
                Some(ps) => Some(ps.push((fs.last().0, s))),
                None => None,
            },
            None => None,
        }
    }
}

/// A field that is no scheme anywhere spoils a schemes map.
proof fn lemma_schemes_map_bad(views: Seq<(Seq<char>, JsonV)>, i: int)
    requires
        0 <= i < views.len(),
        scheme_from_json(views[i].1) is None,
    ensures
        schemes_map_from_fields(views) is None,
    decreases views.len(),
{
    if views.len() > 0 {
        if i < views.len() - 1 {
            lemma_schemes_map_bad(views.drop_last(), i);
        }
    }
}

/// Encodes the named security schemes as one JSON object.
pub fn schemes_map_to_json(v: &Vec<(String, SecurityScheme)>) -> (r: JsonValue)
    ensures
        r@ matches JsonV::Obj(fs) && schemes_map_from_fields(fs) == Some(
            v@.map_values(|p: (String, SecurityScheme)| (p.0@, p.1@)),
        ),
{
    let mut fields: Vec<(String, JsonValue)> = Vec::new();
    let n = v.len();
    let mut i: usize = 0;
    proof {
        lemma_jv_fields_view(fields@);
        assert(jv_fields_view(fields@) =~= Seq::<(Seq<char>, JsonV)>::empty());
        assert(v@.map_values(|p: (String, SecurityScheme)| (p.0@, p.1@)).subrange(0, 0) =~= Seq::<
            (Seq<char>, SecuritySchemeV),
        >::empty());
    }
    while i < n
        invariant
            n == v@.len(),
            i <= n,
            fields@.len() == i,
            schemes_map_from_fields(jv_fields_view(fields@)) == Some(
                v@.map_values(|p: (String, SecurityScheme)| (p.0@, p.1@)).subrange(0, i as int),
            ),
        decreases n - i,
    {
        let ghost pre = jv_fields_view(fields@);
        let ghost prefields = fields@;
        let key = v[i].0.clone();
        let val = scheme_to_json(&v[i].1);
        fields.push((key, val));
        proof {
            lemma_jv_fields_view(prefields);
            lemma_jv_fields_view(fields@);
            let cur = jv_fields_view(fields@);
            assert(cur.drop_last() =~= pre);
            let full = v@.map_values(|p: (String, SecurityScheme)| (p.0@, p.1@));
            assert(full.subrange(0, i + 1 as int).drop_last() =~= full.subrange(0, i as int));
            assert(full.subrange(0, i + 1 as int).last() == full[i as int]);
        }
        i += 1;
    }
    let r = JsonValue::Object(Object { fields });
    proof {
        let full = v@.map_values(|p: (String, SecurityScheme)| (p.0@, p.1@));
        assert(full.subrange(0, n as int) =~= full);
    }
    r
}

/// Decodes the named security schemes from one JSON object.
pub fn schemes_map_of_json(obj: &Object) -> (r: Option<Vec<(String, SecurityScheme)>>)
    ensures
        match r {
            Some(ps) => schemes_map_from_fields(obj@.fields) == Some(
                ps@.map_values(|p: (String, SecurityScheme)| (p.0@, p.1@)),
            ),
            None => schemes_map_from_fields(obj@.fields) is None,
        },
{
    let ghost views = jv_fields_view(obj.fields@);
    let mut out: Vec<(String, SecurityScheme)> = Vec::new();
    let n = obj.fields.len();
    let mut i: usize = 0;
    proof {
        lemma_jv_fields_view(obj.fields@);
        assert(views.subrange(0, 0) =~= Seq::<(Seq<char>, JsonV)>::empty());
        assert(out@.map_values(|p: (String, SecurityScheme)| (p.0@, p.1@)) =~= Seq::<
            (Seq<char>, SecuritySchemeV),
        >::empty());
    }
    while i < n
        invariant
            n == obj.fields@.len(),
            i <= n,
            views == jv_fields_view(obj.fields@),
            views.len() == n,
            forall|k: int|
                0 <= k < n ==> views[k] == (
                obj.fields@[k].0@,
                crate::object::jv_view(obj.fields@[k].1),
                ),
            schemes_map_from_fields(views.subrange(0, i as int)) == Some(
                out@.map_values(|p: (String, SecurityScheme)| (p.0@, p.1@)),
            ),
        decreases n - i,
    {
        let ghost pre = out@.map_values(|p: (String, SecurityScheme)| (p.0@, p.1@));
        let s = match scheme_of_json(&obj.fields[i].1) {
            Some(s) => s,
            None => {
                proof {
                    lemma_schemes_map_bad(views, i as int);
                }
                return None;
            },
        };
        let key = obj.fields[i].0.clone();
        out.push((key, s));
        proof {
            let cur = views.subrange(0, i + 1 as int);
            assert(cur.drop_last() =~= views.subrange(0, i as int));
            assert(cur.last() == views[i as int]);
            assert(out@.map_values(|p: (String, SecurityScheme)| (p.0@, p.1@)) =~= pre.push(
                (out@.last().0@, out@.last().1@),
            ));
        }
        i += 1;
    }
    proof {
        assert(views.subrange(0, n as int) =~= views);
    }
    Some(out)
}

/// The skill a JSON value denotes.
pub open spec fn skill_from_json(v: JsonV) -> Option<AgentSkillV> {
    match v {
        JsonV::Obj(fs) => match req_str_field(fs, "id"@) {
            Some(id) => match str_or_empty_field(fs, "name"@) {
                Some(name) => match str_or_empty_field(fs, "description"@) {
                    Some(desc) => match strings_field(fs, "tags"@) {
                        Some(tags) => match strings_field(fs, "examples"@) {
                            Some(examples) => match strings_field(fs, "inputModes"@) {
                                Some(im) => match strings_field(fs, "outputModes"@) {
                                    Some(om) => match (match field_of(fs, "security"@) {
                                        None => Some(Seq::<SecurityV>::empty()),
                                        Some(JsonV::Arr(items)) => security_items_from_json(items),
                                        Some(_) => None,
                                    }) {
                                        Some(sec) => Some(
                                            AgentSkillV {
                                                id: id,
                                                name: name,
                                                description: desc,
                                                tags: tags,
                                                examples: examples,
                                                input_modes: im,
                                                output_modes: om,
                                                security: sec,
                                            },
                                        ),
                                        None => None,
                                    },
                                    None => None,
                                },
                                None => None,
                            },
                            None => None,
                        },
                        None => None,
                    },
                    None => None,
                },
                None => None,
            },
            None => None,
        },
        _ => None,
    }
}

/// Encodes a skill. Decoding the result yields it back.
pub fn skill_to_json(a: &AgentSkill) -> (r: JsonValue)
    ensures
        skill_from_json(r@) == Some(a@),
{
    let mut fields: Vec<(String, JsonValue)> = Vec::new();
    fields.push(("id".to_owned(), JsonValue::Str(a.id.clone())));
    fields.push(("name".to_owned(), JsonValue::Str(a.name.clone())));
    fields.push(("description".to_owned(), JsonValue::Str(a.description.clone())));
    fields.push(("tags".to_owned(), strings_to_json(&a.tags)));
    fields.push(("examples".to_owned(), strings_to_json(&a.examples)));
    fields.push(("inputModes".to_owned(), strings_to_json(&a.input_modes)));
    fields.push(("outputModes".to_owned(), strings_to_json(&a.output_modes)));
    fields.push(("security".to_owned(), security_items_to_json(&a.security)));
    let r = JsonValue::Object(Object { fields });
    proof {
        let fs = r->Object_0@.fields;
        lemma_jv_fields_view(r->Object_0.fields@);
        reveal_strlit("id");
        reveal_strlit("name");
        reveal_strlit("description");
        reveal_strlit("tags");
        reveal_strlit("examples");
        reveal_strlit("inputModes");
        reveal_strlit("outputModes");
        reveal_strlit("security");
        reveal_with_fuel(field_of, 10);
        assert(fs.len() == 8);
        assert(("name"@).len() == 4);
        assert(("tags"@).len() == 4);
        assert(("name"@)[0] != ("tags"@)[0]);
        assert("name"@ != "tags"@);
        assert(("inputModes"@).len() == 10);
        assert(("outputModes"@).len() == 11);
        assert(("description"@).len() == 11);
        assert(("description"@)[0] != ("outputModes"@)[0]);
        assert("description"@ != "outputModes"@);
        assert(("examples"@).len() == 8);
        assert(("security"@).len() == 8);
        assert(("examples"@)[0] != ("security"@)[0]);
        assert("examples"@ != "security"@);
        let d1 = fs.drop_first();
        let d2 = d1.drop_first();
        let d3 = d2.drop_first();
        let d4 = d3.drop_first();
        let d5 = d4.drop_first();
        let d6 = d5.drop_first();
        let d7 = d6.drop_first();
        assert(fs[0].0 == "id"@);
        assert(d1[0].0 == "name"@);
        assert(d2[0].0 == "description"@);
        assert(d3[0].0 == "tags"@);
        assert(d4[0].0 == "examples"@);
        assert(d5[0].0 == "inputModes"@);
        assert(d6[0].0 == "outputModes"@);
        assert(d7[0].0 == "security"@);
        assert(field_of(fs, "id"@) == Some(fs[0].1));
        assert(field_of(fs, "name"@) == Some(d1[0].1));
        assert(field_of(fs, "description"@) == Some(d2[0].1));
        assert(field_of(fs, "tags"@) == Some(d3[0].1));
        assert(field_of(fs, "examples"@) == Some(d4[0].1));
        assert(field_of(fs, "inputModes"@) == Some(d5[0].1));
        assert(field_of(fs, "outputModes"@) == Some(d6[0].1));
        assert(field_of(fs, "security"@) == Some(d7[0].1));
        assert(skill_from_json(r@) == Some(a@));
    }
    r
}

/// Decodes a skill.
pub fn skill_of_json(v: &JsonValue) -> (r: Option<AgentSkill>)
    ensures
        match r {
            Some(a) => skill_from_json(v@) == Some(a@),
            None => skill_from_json(v@) is None,
        },
{
    let obj = match v {
        JsonValue::Object(o) => o,
        _ => {
            return None;
        },
    };
    let id = match get_field(obj, "id") {
        Some(JsonValue::Str(s)) => s.clone(),
        _ => {
            return None;
        },
    };
    let name = match get_field(obj, "name") {
        None => String::new(),
        Some(JsonValue::Str(s)) => s.clone(),
        Some(_) => {
            return None;
        },
    };
    let description = match get_field(obj, "description") {
        None => String::new(),
        Some(JsonValue::Str(s)) => s.clone(),
        Some(_) => {
            return None;
        },
    };
    let tags: Vec<String> = match get_field(obj, "tags") {
        None => Vec::new(),
        Some(JsonValue::Array(items)) => match strings_of_json(items) {
            Some(ss) => ss,
            None => {
                return None;
            },
        },
        Some(_) => {
            return None;
        },
    };
    let examples: Vec<String> = match get_field(obj, "examples") {
        None => Vec::new(),
        Some(JsonValue::Array(items)) => match strings_of_json(items) {
            Some(ss) => ss,
            None => {
                return None;
            },
        },
        Some(_) => {
            return None;
        },
    };
    let input_modes: Vec<String> = match get_field(obj, "inputModes") {
        None => Vec::new(),
        Some(JsonValue::Array(items)) => match strings_of_json(items) {
            Some(ss) => ss,
            None => {
                return None;
            },
        },
        Some(_) => {
            return None;
        },
    };
    let output_modes: Vec<String> = match get_field(obj, "outputModes") {
        None => Vec::new(),
        Some(JsonValue::Array(items)) => match strings_of_json(items) {
            Some(ss) => ss,
            None => {
                return None;
            },
        },
        Some(_) => {
            return None;
        },
    };
    let security: Vec<Security> = match get_field(obj, "security") {
        None => Vec::new(),
        Some(JsonValue::Array(items)) => match security_items_of_json(items) {
            Some(ss) => ss,
            None => {
                return None;
            },
        },
        Some(_) => {
            return None;
        },
    };
    let a = AgentSkill { id, name, description, tags, examples, input_modes, output_modes, security };
    proof {
        if a.tags@.len() == 0 {
            assert(a@.tags =~= Seq::<Seq<char>>::empty());
        }
        if a.examples@.len() == 0 {
            assert(a@.examples =~= Seq::<Seq<char>>::empty());
        }
        if a.input_modes@.len() == 0 {
            assert(a@.input_modes =~= Seq::<Seq<char>>::empty());
        }
        if a.output_modes@.len() == 0 {
            assert(a@.output_modes =~= Seq::<Seq<char>>::empty());
        }
        if a.security@.len() == 0 {
            assert(a@.security =~= Seq::<SecurityV>::empty());
        }
        assert(skill_from_json(v@) == Some(a@));
    }
    Some(a)
}

/// The capabilities a JSON value denotes.
pub open spec fn capabilities_from_json(v: JsonV) -> Option<AgentCapabilitiesV> {
    match v {
        JsonV::Obj(fs) => match bool_field(fs, "streaming"@) {
            Some(streaming) => match bool_field(fs, "pushNotifications"@) {
                Some(push) => match bool_field(fs, "stateTransitionHistory"@) {
                    Some(hist) => match (match field_of(fs, "extensions"@) {
                        None => Some(Seq::<AgentExtensionV>::empty()),
                        Some(JsonV::Arr(items)) => extensions_from_json(items),
                        Some(_) => None,
                    }) {
                        Some(exts) => Some(
                            AgentCapabilitiesV {
                                streaming: streaming,
                                push_notifications: push,
                                state_transition_history: hist,
                                extensions: exts,
                            },
                        ),
                        None => None,
                    },
                    None => None,
                },
                None => None,
            },
            None => None,
        },
        _ => None,
    }
}

/// Encodes capabilities. Decoding the result yields them back.
pub fn capabilities_to_json(c: &AgentCapabilities) -> (r: JsonValue)
    ensures
        capabilities_from_json(r@) == Some(c@),
{
    let mut fields: Vec<(String, JsonValue)> = Vec::new();
    fields.push(("streaming".to_owned(), JsonValue::Bool(c.streaming)));
    fields.push(("pushNotifications".to_owned(), JsonValue::Bool(c.push_notifications)));
    fields.push(("stateTransitionHistory".to_owned(), JsonValue::Bool(c.state_transition_history)));
    fields.push(("extensions".to_owned(), extensions_to_json(&c.extensions)));
    let r = JsonValue::Object(Object { fields });
    proof {
        let fs = r->Object_0@.fields;
        lemma_jv_fields_view(r->Object_0.fields@);
        reveal_strlit("streaming");
        reveal_strlit("pushNotifications");
        reveal_strlit("stateTransitionHistory");
        reveal_strlit("extensions");
        reveal_with_fuel(field_of, 6);
        assert(fs.len() == 4);
        let d1 = fs.drop_first();
        let d2 = d1.drop_first();
        let d3 = d2.drop_first();
        assert(fs[0].0 == "streaming"@);
        assert(d1[0].0 == "pushNotifications"@);
        assert(d2[0].0 == "stateTransitionHistory"@);
        assert(d3[0].0 == "extensions"@);
        assert(field_of(fs, "streaming"@) == Some(fs[0].1));
        assert(field_of(fs, "pushNotifications"@) == Some(d1[0].1));
        assert(field_of(fs, "stateTransitionHistory"@) == Some(d2[0].1));
        assert(field_of(fs, "extensions"@) == Some(d3[0].1));
        assert(capabilities_from_json(r@) == Some(c@));
    }
    r
}

/// Decodes capabilities.
pub fn capabilities_of_json(v: &JsonValue) -> (r: Option<AgentCapabilities>)
    ensures
        match r {
            Some(c) => capabilities_from_json(v@) == Some(c@),
            None => capabilities_from_json(v@) is None,
        },
{
    let obj = match v {
        JsonValue::Object(o) => o,
        _ => {
            return None;
        },
    };
    let streaming = match get_field(obj, "streaming") {
        None => false,
        Some(JsonValue::Bool(b)) => *b,
        Some(_) => {
            return None;
        },
    };
    let push_notifications = match get_field(obj, "pushNotifications") {
        None => false,
        Some(JsonValue::Bool(b)) => *b,
        Some(_) => {
            return None;
        },
    };
    let state_transition_history = match get_field(obj, "stateTransitionHistory") {
        None => false,
        Some(JsonValue::Bool(b)) => *b,
        Some(_) => {
            return None;
        },
    };
    let extensions: Vec<AgentExtension> = match get_field(obj, "extensions") {
        None => Vec::new(),
        Some(JsonValue::Array(items)) => match extensions_of_json(items) {
            Some(es) => es,
            None => {
                return None;
            },
        },
        Some(_) => {
            return None;
        },
    };
    let c = AgentCapabilities { streaming, push_notifications, state_transition_history, extensions };
    proof {
        if c.extensions@.len() == 0 {
            assert(c@.extensions =~= Seq::<AgentExtensionV>::empty());
        }
        assert(capabilities_from_json(v@) == Some(c@));
    }
    Some(c)
}

/// The interface list an array of JSON values denotes.
pub open spec fn interfaces_from_json(items: Seq<JsonV>) -> Option<Seq<AgentInterfaceV>>
    decreases items.len(),
{
    if items.len() == 0 {
        Some(Seq::empty())
    } else {
        match interface_from_json(items.last()) {
            Some(x) => match interfaces_from_json(items.drop_last()) {
                Some(xs) => Some(xs.push(x)),
                None => None,
            },
            None => None,
        }
    }
}

/// An undecodable element anywhere spoils the array.
proof fn lemma_interfaces_from_json_bad(views: Seq<JsonV>, i: int)
    requires
        0 <= i < views.len(),
        interface_from_json(views[i]) is None,
    ensures
        interfaces_from_json(views) is None,
    decreases views.len(),
{
    if views.len() > 0 {
        if i < views.len() - 1 {
            lemma_interfaces_from_json_bad(views.drop_last(), i);
        }
    }
}

/// Encodes the list as a JSON array.
pub fn interfaces_to_json(v: &Vec<AgentInterface>) -> (r: JsonValue)
    ensures
        r@ matches JsonV::Arr(items) && interfaces_from_json(items) == Some(
            v@.map_values(|x: AgentInterface| x@),
        ),
{
    let mut items: Vec<JsonValue> = Vec::new();
    let n = v.len();
    let mut i: usize = 0;
    proof {
        broadcast use lemma_jv_seq_view;

        assert(jv_seq_view(items@) =~= Seq::<JsonV>::empty());
        assert(v@.map_values(|x: AgentInterface| x@).subrange(0, 0) =~= Seq::<AgentInterfaceV>::empty());
    }
    while i < n
        invariant
            n == v@.len(),
            i <= n,
            items@.len() == i,
            interfaces_from_json(jv_seq_view(items@)) == Some(
                v@.map_values(|x: AgentInterface| x@).subrange(0, i as int),
            ),
        decreases n - i,
    {
        let ghost pre = jv_seq_view(items@);
        items.push(interface_to_json(&v[i]));
        proof {
            broadcast use lemma_jv_seq_view;

            let cur = jv_seq_view(items@);
            assert(cur.drop_last() =~= pre);
            let full = v@.map_values(|x: AgentInterface| x@);
            assert(full.subrange(0, i + 1 as int).drop_last() =~= full.subrange(0, i as int));
            assert(full.subrange(0, i + 1 as int).last() == full[i as int]);
        }
        i += 1;
    }
    proof {
        let full = v@.map_values(|x: AgentInterface| x@);
        assert(full.subrange(0, n as int) =~= full);
    }
    JsonValue::Array(items)
}

/// Decodes the array.
pub fn interfaces_of_json(items: &Vec<JsonValue>) -> (r: Option<Vec<AgentInterface>>)
    ensures
        match r {
            Some(xs) => interfaces_from_json(jv_seq_view(items@)) == Some(
                xs@.map_values(|x: AgentInterface| x@),
            ),
            None => interfaces_from_json(jv_seq_view(items@)) is None,
        },
{
    proof {
        broadcast use lemma_jv_seq_view;

    }
    let ghost views = jv_seq_view(items@);
    let mut out: Vec<AgentInterface> = Vec::new();
    let n = items.len();
    let mut i: usize = 0;
    proof {
        assert(views.subrange(0, 0) =~= Seq::<JsonV>::empty());
        assert(out@.map_values(|x: AgentInterface| x@) =~= Seq::<AgentInterfaceV>::empty());
    }
    while i < n
        invariant
            n == items@.len(),
            i <= n,
            views == jv_seq_view(items@),
            views.len() == n,
            forall|k: int| 0 <= k < n ==> views[k] == crate::object::jv_view(items@[k]),
            interfaces_from_json(views.subrange(0, i as int)) == Some(
                out@.map_values(|x: AgentInterface| x@),
            ),
        decreases n - i,
    {
        let ghost pre = out@.map_values(|x: AgentInterface| x@);
        match interface_of_json(&items[i]) {
            Some(x) => {
                out.push(x);
            },
            None => {
                proof {
                    lemma_interfaces_from_json_bad(views, i as int);
                }
                return None;
            },
        }
        proof {
            let cur = views.subrange(0, i + 1 as int);
            assert(cur.drop_last() =~= views.subrange(0, i as int));
            assert(cur.last() == views[i as int]);
            assert(out@.map_values(|x: AgentInterface| x@) =~= pre.push(out@.last()@));
        }
        i += 1;
    }
    proof {
        assert(views.subrange(0, n as int) =~= views);
    }
    Some(out)
}


/// The extension list an array of JSON values denotes.
pub open spec fn extensions_from_json(items: Seq<JsonV>) -> Option<Seq<AgentExtensionV>>
    decreases items.len(),
{
    if items.len() == 0 {
        Some(Seq::empty())
    } else {
        match extension_from_json(items.last()) {
            Some(x) => match extensions_from_json(items.drop_last()) {
                Some(xs) => Some(xs.push(x)),
                None => None,
            },
            None => None,
        }
    }
}

/// An undecodable element anywhere spoils the array.
proof fn lemma_extensions_from_json_bad(views: Seq<JsonV>, i: int)
    requires
        0 <= i < views.len(),
        extension_from_json(views[i]) is None,
    ensures
        extensions_from_json(views) is None,
    decreases views.len(),
{
    if views.len() > 0 {
        if i < views.len() - 1 {
            lemma_extensions_from_json_bad(views.drop_last(), i);
        }
    }
}

/// Encodes the list as a JSON array.
pub fn extensions_to_json(v: &Vec<AgentExtension>) -> (r: JsonValue)
    ensures
        r@ matches JsonV::Arr(items) && extensions_from_json(items) == Some(
            v@.map_values(|x: AgentExtension| x@),
        ),
{
    let mut items: Vec<JsonValue> = Vec::new();
    let n = v.len();
    let mut i: usize = 0;
    proof {
        broadcast use lemma_jv_seq_view;

        assert(jv_seq_view(items@) =~= Seq::<JsonV>::empty());
        assert(v@.map_values(|x: AgentExtension| x@).subrange(0, 0) =~= Seq::<AgentExtensionV>::empty());
    }
    while i < n
        invariant
            n == v@.len(),
            i <= n,
            items@.len() == i,
            extensions_from_json(jv_seq_view(items@)) == Some(
                v@.map_values(|x: AgentExtension| x@).subrange(0, i as int),
            ),
        decreases n - i,
    {
        let ghost pre = jv_seq_view(items@);
        items.push(extension_to_json(&v[i]));
        proof {
            broadcast use lemma_jv_seq_view;

            let cur = jv_seq_view(items@);
            assert(cur.drop_last() =~= pre);
            let full = v@.map_values(|x: AgentExtension| x@);
            assert(full.subrange(0, i + 1 as int).drop_last() =~= full.subrange(0, i as int));
            assert(full.subrange(0, i + 1 as int).last() == full[i as int]);
        }
        i += 1;
    }
    proof {
        let full = v@.map_values(|x: AgentExtension| x@);
        assert(full.subrange(0, n as int) =~= full);
    }
    JsonValue::Array(items)
}

/// Decodes the array.
pub fn extensions_of_json(items: &Vec<JsonValue>) -> (r: Option<Vec<AgentExtension>>)
    ensures
        match r {
            Some(xs) => extensions_from_json(jv_seq_view(items@)) == Some(
                xs@.map_values(|x: AgentExtension| x@),
            ),
            None => extensions_from_json(jv_seq_view(items@)) is None,
        },
{
    proof {
        broadcast use lemma_jv_seq_view;

    }
    let ghost views = jv_seq_view(items@);
    let mut out: Vec<AgentExtension> = Vec::new();
    let n = items.len();
    let mut i: usize = 0;
    proof {
        assert(views.subrange(0, 0) =~= Seq::<JsonV>::empty());
        assert(out@.map_values(|x: AgentExtension| x@) =~= Seq::<AgentExtensionV>::empty());
    }
    while i < n
        invariant
            n == items@.len(),
            i <= n,
            views == jv_seq_view(items@),
            views.len() == n,
            forall|k: int| 0 <= k < n ==> views[k] == crate::object::jv_view(items@[k]),
            extensions_from_json(views.subrange(0, i as int)) == Some(
                out@.map_values(|x: AgentExtension| x@),
            ),
        decreases n - i,
    {
        let ghost pre = out@.map_values(|x: AgentExtension| x@);
        match extension_of_json(&items[i]) {
            Some(x) => {
                out.push(x);
            },
            None => {
                proof {
                    lemma_extensions_from_json_bad(views, i as int);
                }
                return None;
            },
        }
        proof {
            let cur = views.subrange(0, i + 1 as int);
            assert(cur.drop_last() =~= views.subrange(0, i as int));
            assert(cur.last() == views[i as int]);
            assert(out@.map_values(|x: AgentExtension| x@) =~= pre.push(out@.last()@));
        }
        i += 1;
    }
    proof {
        assert(views.subrange(0, n as int) =~= views);
    }
    Some(out)
}


/// The security_item list an array of JSON values denotes.
pub open spec fn security_items_from_json(items: Seq<JsonV>) -> Option<Seq<SecurityV>>
    decreases items.len(),
{
    if items.len() == 0 {
        Some(Seq::empty())
    } else {
        match security_item_from_json(items.last()) {
            Some(x) => match security_items_from_json(items.drop_last()) {
                Some(xs) => Some(xs.push(x)),
                None => None,
            },
            None => None,
        }
    }
}

/// An undecodable element anywhere spoils the array.
proof fn lemma_security_items_from_json_bad(views: Seq<JsonV>, i: int)
    requires
        0 <= i < views.len(),
        security_item_from_json(views[i]) is None,
    ensures
        security_items_from_json(views) is None,
    decreases views.len(),
{
    if views.len() > 0 {
        if i < views.len() - 1 {
            lemma_security_items_from_json_bad(views.drop_last(), i);
        }
    }
}

/// Encodes the list as a JSON array.
pub fn security_items_to_json(v: &Vec<Security>) -> (r: JsonValue)
    ensures
        r@ matches JsonV::Arr(items) && security_items_from_json(items) == Some(
            v@.map_values(|x: Security| x@),
        ),
{
    let mut items: Vec<JsonValue> = Vec::new();
    let n = v.len();
    let mut i: usize = 0;
    proof {
        broadcast use lemma_jv_seq_view;

        assert(jv_seq_view(items@) =~= Seq::<JsonV>::empty());
        assert(v@.map_values(|x: Security| x@).subrange(0, 0) =~= Seq::<SecurityV>::empty());
    }
    while i < n
        invariant
            n == v@.len(),
            i <= n,
            items@.len() == i,
            security_items_from_json(jv_seq_view(items@)) == Some(
                v@.map_values(|x: Security| x@).subrange(0, i as int),
            ),
        decreases n - i,
    {
        let ghost pre = jv_seq_view(items@);
        items.push(security_item_to_json(&v[i]));
        proof {
            broadcast use lemma_jv_seq_view;

            let cur = jv_seq_view(items@);
            assert(cur.drop_last() =~= pre);
            let full = v@.map_values(|x: Security| x@);
            assert(full.subrange(0, i + 1 as int).drop_last() =~= full.subrange(0, i as int));
            assert(full.subrange(0, i + 1 as int).last() == full[i as int]);
        }
        i += 1;
    }
    proof {
        let full = v@.map_values(|x: Security| x@);
        assert(full.subrange(0, n as int) =~= full);
    }
    JsonValue::Array(items)
}

/// Decodes the array.
pub fn security_items_of_json(items: &Vec<JsonValue>) -> (r: Option<Vec<Security>>)
    ensures
        match r {
            Some(xs) => security_items_from_json(jv_seq_view(items@)) == Some(
                xs@.map_values(|x: Security| x@),
            ),
            None => security_items_from_json(jv_seq_view(items@)) is None,
        },
{
    proof {
        broadcast use lemma_jv_seq_view;

    }
    let ghost views = jv_seq_view(items@);
    let mut out: Vec<Security> = Vec::new();
    let n = items.len();
    let mut i: usize = 0;
    proof {
        assert(views.subrange(0, 0) =~= Seq::<JsonV>::empty());
        assert(out@.map_values(|x: Security| x@) =~= Seq::<SecurityV>::empty());
    }
    while i < n
        invariant
            n == items@.len(),
            i <= n,
            views == jv_seq_view(items@),
            views.len() == n,
            forall|k: int| 0 <= k < n ==> views[k] == crate::object::jv_view(items@[k]),
            security_items_from_json(views.subrange(0, i as int)) == Some(
                out@.map_values(|x: Security| x@),
            ),
        decreases n - i,
    {
        let ghost pre = out@.map_values(|x: Security| x@);
        match security_item_of_json(&items[i]) {
            Some(x) => {
                out.push(x);
            },
            None => {
                proof {
                    lemma_security_items_from_json_bad(views, i as int);
                }
                return None;
            },
        }
        proof {
            let cur = views.subrange(0, i + 1 as int);
            assert(cur.drop_last() =~= views.subrange(0, i as int));
            assert(cur.last() == views[i as int]);
            assert(out@.map_values(|x: Security| x@) =~= pre.push(out@.last()@));
        }
        i += 1;
    }
    proof {
        assert(views.subrange(0, n as int) =~= views);
    }
    Some(out)
}


/// The skill list an array of JSON values denotes.
pub open spec fn skills_from_json(items: Seq<JsonV>) -> Option<Seq<AgentSkillV>>
    decreases items.len(),
{
    if items.len() == 0 {
        Some(Seq::empty())
    } else {
        match skill_from_json(items.last()) {
            Some(x) => match skills_from_json(items.drop_last()) {
                Some(xs) => Some(xs.push(x)),
                None => None,
            },
            None => None,
        }
    }
}

/// An undecodable element anywhere spoils the array.
proof fn lemma_skills_from_json_bad(views: Seq<JsonV>, i: int)
    requires
        0 <= i < views.len(),
        skill_from_json(views[i]) is None,
    ensures
        skills_from_json(views) is None,
    decreases views.len(),
{
    if views.len() > 0 {
        if i < views.len() - 1 {
            lemma_skills_from_json_bad(views.drop_last(), i);
        }
    }
}

/// Encodes the list as a JSON array.
pub fn skills_to_json(v: &Vec<AgentSkill>) -> (r: JsonValue)
    ensures
        r@ matches JsonV::Arr(items) && skills_from_json(items) == Some(
            v@.map_values(|x: AgentSkill| x@),
        ),
{
    let mut items: Vec<JsonValue> = Vec::new();
    let n = v.len();
    let mut i: usize = 0;
    proof {
        broadcast use lemma_jv_seq_view;

        assert(jv_seq_view(items@) =~= Seq::<JsonV>::empty());
        assert(v@.map_values(|x: AgentSkill| x@).subrange(0, 0) =~= Seq::<AgentSkillV>::empty());
    }
    while i < n
        invariant
            n == v@.len(),
            i <= n,
            items@.len() == i,
            skills_from_json(jv_seq_view(items@)) == Some(
                v@.map_values(|x: AgentSkill| x@).subrange(0, i as int),
            ),
        decreases n - i,
    {
        let ghost pre = jv_seq_view(items@);
        items.push(skill_to_json(&v[i]));
        proof {
            broadcast use lemma_jv_seq_view;

            let cur = jv_seq_view(items@);
            assert(cur.drop_last() =~= pre);
            let full = v@.map_values(|x: AgentSkill| x@);
            assert(full.subrange(0, i + 1 as int).drop_last() =~= full.subrange(0, i as int));
            assert(full.subrange(0, i + 1 as int).last() == full[i as int]);
        }
        i += 1;
    }
    proof {
        let full = v@.map_values(|x: AgentSkill| x@);
        assert(full.subrange(0, n as int) =~= full);
    }
    JsonValue::Array(items)
}

/// Decodes the array.
pub fn skills_of_json(items: &Vec<JsonValue>) -> (r: Option<Vec<AgentSkill>>)
    ensures
        match r {
            Some(xs) => skills_from_json(jv_seq_view(items@)) == Some(
                xs@.map_values(|x: AgentSkill| x@),
            ),
            None => skills_from_json(jv_seq_view(items@)) is None,
        },
{
    proof {
        broadcast use lemma_jv_seq_view;

    }
    let ghost views = jv_seq_view(items@);
    let mut out: Vec<AgentSkill> = Vec::new();
    let n = items.len();
    let mut i: usize = 0;
    proof {
        assert(views.subrange(0, 0) =~= Seq::<JsonV>::empty());
        assert(out@.map_values(|x: AgentSkill| x@) =~= Seq::<AgentSkillV>::empty());
    }
    while i < n
        invariant
            n == items@.len(),
            i <= n,
            views == jv_seq_view(items@),
            views.len() == n,
            forall|k: int| 0 <= k < n ==> views[k] == crate::object::jv_view(items@[k]),
            skills_from_json(views.subrange(0, i as int)) == Some(
                out@.map_values(|x: AgentSkill| x@),
            ),
        decreases n - i,
    {
        let ghost pre = out@.map_values(|x: AgentSkill| x@);
        match skill_of_json(&items[i]) {
            Some(x) => {
                out.push(x);
            },
            None => {
                proof {
                    lemma_skills_from_json_bad(views, i as int);
                }
                return None;
            },
        }
        proof {
            let cur = views.subrange(0, i + 1 as int);
            assert(cur.drop_last() =~= views.subrange(0, i as int));
            assert(cur.last() == views[i as int]);
            assert(out@.map_values(|x: AgentSkill| x@) =~= pre.push(out@.last()@));
        }
        i += 1;
    }
    proof {
        assert(views.subrange(0, n as int) =~= views);
    }
    Some(out)
}


/// The signature_item list an array of JSON values denotes.
pub open spec fn signature_items_from_json(items: Seq<JsonV>) -> Option<Seq<AgentCardSignatureV>>
    decreases items.len(),
{
    if items.len() == 0 {
        Some(Seq::empty())
    } else {
        match signature_item_from_json(items.last()) {
            Some(x) => match signature_items_from_json(items.drop_last()) {
                Some(xs) => Some(xs.push(x)),
                None => None,
            },
            None => None,
        }
    }
}

/// An undecodable element anywhere spoils the array.
proof fn lemma_signature_items_from_json_bad(views: Seq<JsonV>, i: int)
    requires
        0 <= i < views.len(),
        signature_item_from_json(views[i]) is None,
    ensures
        signature_items_from_json(views) is None,
    decreases views.len(),
{
    if views.len() > 0 {
        if i < views.len() - 1 {
            lemma_signature_items_from_json_bad(views.drop_last(), i);
        }
    }
}

/// Encodes the list as a JSON array.
pub fn signature_items_to_json(v: &Vec<AgentCardSignature>) -> (r: JsonValue)
    ensures
        r@ matches JsonV::Arr(items) && signature_items_from_json(items) == Some(
            v@.map_values(|x: AgentCardSignature| x@),
        ),
{
    let mut items: Vec<JsonValue> = Vec::new();
    let n = v.len();
    let mut i: usize = 0;
    proof {
        broadcast use lemma_jv_seq_view;

        assert(jv_seq_view(items@) =~= Seq::<JsonV>::empty());
        assert(v@.map_values(|x: AgentCardSignature| x@).subrange(0, 0) =~= Seq::<AgentCardSignatureV>::empty());
    }
    while i < n
        invariant
            n == v@.len(),
            i <= n,
            items@.len() == i,
            signature_items_from_json(jv_seq_view(items@)) == Some(
                v@.map_values(|x: AgentCardSignature| x@).subrange(0, i as int),
            ),
        decreases n - i,
    {
        let ghost pre = jv_seq_view(items@);
        items.push(signature_item_to_json(&v[i]));
        proof {
            broadcast use lemma_jv_seq_view;

            let cur = jv_seq_view(items@);
            assert(cur.drop_last() =~= pre);
            let full = v@.map_values(|x: AgentCardSignature| x@);
            assert(full.subrange(0, i + 1 as int).drop_last() =~= full.subrange(0, i as int));
            assert(full.subrange(0, i + 1 as int).last() == full[i as int]);
        }
        i += 1;
    }
    proof {
        let full = v@.map_values(|x: AgentCardSignature| x@);
        assert(full.subrange(0, n as int) =~= full);
    }
    JsonValue::Array(items)
}

/// Decodes the array.
pub fn signature_items_of_json(items: &Vec<JsonValue>) -> (r: Option<Vec<AgentCardSignature>>)
    ensures
        match r {
            Some(xs) => signature_items_from_json(jv_seq_view(items@)) == Some(
                xs@.map_values(|x: AgentCardSignature| x@),
            ),
            None => signature_items_from_json(jv_seq_view(items@)) is None,
        },
{
    proof {
        broadcast use lemma_jv_seq_view;

    }
    let ghost views = jv_seq_view(items@);
    let mut out: Vec<AgentCardSignature> = Vec::new();
    let n = items.len();
    let mut i: usize = 0;
    proof {
        assert(views.subrange(0, 0) =~= Seq::<JsonV>::empty());
        assert(out@.map_values(|x: AgentCardSignature| x@) =~= Seq::<AgentCardSignatureV>::empty());
    }
    while i < n
        invariant
            n == items@.len(),
            i <= n,
            views == jv_seq_view(items@),
            views.len() == n,
            forall|k: int| 0 <= k < n ==> views[k] == crate::object::jv_view(items@[k]),
            signature_items_from_json(views.subrange(0, i as int)) == Some(
                out@.map_values(|x: AgentCardSignature| x@),
            ),
        decreases n - i,
    {
        let ghost pre = out@.map_values(|x: AgentCardSignature| x@);
        match signature_item_of_json(&items[i]) {
            Some(x) => {
                out.push(x);
            },
            None => {
                proof {
                    lemma_signature_items_from_json_bad(views, i as int);
                }
                return None;
            },
        }
        proof {
            let cur = views.subrange(0, i + 1 as int);
            assert(cur.drop_last() =~= views.subrange(0, i as int));
            assert(cur.last() == views[i as int]);
            assert(out@.map_values(|x: AgentCardSignature| x@) =~= pre.push(out@.last()@));
        }
        i += 1;
    }
    proof {
        assert(views.subrange(0, n as int) =~= views);
    }
    Some(out)
}

/// The card signature a JSON value denotes.
pub open spec fn signature_item_from_json(v: JsonV) -> Option<AgentCardSignatureV> {
    match v {
        JsonV::Obj(fs) => match req_str_field(fs, "protected"@) {
            Some(prot) => match req_str_field(fs, "signature"@) {
                Some(sig) => match opt_object_field(fs, "header"@) {
                    Some(header) => Some(
                        AgentCardSignatureV { protected: prot, signature: sig, header: header },
                    ),
                    None => None,
                },
                None => None,
            },
            None => None,
        },
        _ => None,
    }
}

/// Encodes a card signature. Decoding the result yields it back.
pub fn signature_item_to_json(a: &AgentCardSignature) -> (r: JsonValue)
    ensures
        signature_item_from_json(r@) == Some(a@),
{
    let mut fields: Vec<(String, JsonValue)> = Vec::new();
    fields.push(("protected".to_owned(), JsonValue::Str(a.protected.clone())));
    fields.push(("signature".to_owned(), JsonValue::Str(a.signature.clone())));
    match &a.header {
        Some(o) => {
            fields.push(("header".to_owned(), JsonValue::Object(o.dup())));
        },
        None => {
            fields.push(("header".to_owned(), JsonValue::Null));
        },
    }
    let r = JsonValue::Object(Object { fields });
    proof {
        let fs = r->Object_0@.fields;
        lemma_jv_fields_view(r->Object_0.fields@);
        reveal_strlit("protected");
        reveal_strlit("signature");
        reveal_strlit("header");
        reveal_with_fuel(field_of, 5);
        assert(fs.len() == 3);
        assert(("protected"@).len() == 9);
        assert(("signature"@).len() == 9);
        assert(("protected"@)[0] != ("signature"@)[0]);
        assert("protected"@ != "signature"@);
        let d1 = fs.drop_first();
        let d2 = d1.drop_first();
        assert(fs[0].0 == "protected"@);
        assert(d1[0].0 == "signature"@);
        assert(d2[0].0 == "header"@);
        assert(field_of(fs, "protected"@) == Some(fs[0].1));
        assert(field_of(fs, "signature"@) == Some(d1[0].1));
        assert(field_of(fs, "header"@) == Some(d2[0].1));
        if a@.header is Some {
            assert(!(d2[0].1 is Null));
        }
        assert(signature_item_from_json(r@) == Some(a@));
    }
    r
}

/// Decodes a card signature.
pub fn signature_item_of_json(v: &JsonValue) -> (r: Option<AgentCardSignature>)
    ensures
        match r {
            Some(a) => signature_item_from_json(v@) == Some(a@),
            None => signature_item_from_json(v@) is None,
        },
{
    let obj = match v {
        JsonValue::Object(o) => o,
        _ => {
            return None;
        },
    };
    let protected = match get_field(obj, "protected") {
        Some(JsonValue::Str(s)) => s.clone(),
        _ => {
            return None;
        },
    };
    let signature = match get_field(obj, "signature") {
        Some(JsonValue::Str(s)) => s.clone(),
        _ => {
            return None;
        },
    };
    let header = match get_field(obj, "header") {
        None => None,
        Some(JsonValue::Null) => None,
        Some(JsonValue::Object(o)) => Some(o.dup()),
        Some(_) => {
            return None;
        },
    };
    Some(AgentCardSignature { protected, signature, header })
}

/// The identity half of a card: version, names, URLs, transports and
/// provider.
pub open spec fn card_head_from_json(fs: Seq<(Seq<char>, JsonV)>) -> Option<
    (
        Seq<char>,
        Seq<char>,
        Seq<char>,
        Seq<char>,
        Option<TransportProtocol>,
        Seq<AgentInterfaceV>,
        Option<AgentProviderV>,
        Seq<char>,
        Seq<char>,
    ),
> {
    match str_or_empty_field(fs, "protocolVersion"@) {
        Some(pv) => match str_or_empty_field(fs, "name"@) {
            Some(name) => match str_or_empty_field(fs, "description"@) {
                Some(desc) => match str_or_empty_field(fs, "url"@) {
                    Some(url) => match (match field_of(fs, "preferredTransport"@) {
                        None => Some(None),
                        Some(JsonV::Null) => Some(None),
                        Some(JsonV::Str(tn)) => match spec_transport_of_name(tn) {
                            Some(t) => Some(Some(t)),
                            None => None,
                        },
                        Some(_) => None,
                    }) {
                        Some(pt) => match (match field_of(fs, "additionalInterfaces"@) {
                            None => Some(Seq::<AgentInterfaceV>::empty()),
                            Some(JsonV::Arr(items)) => interfaces_from_json(items),
                            Some(_) => None,
                        }) {
                            Some(ifaces) => match (match field_of(fs, "provider"@) {
                                None => Some(None),
                                Some(JsonV::Null) => Some(None),
                                Some(pvv) => match provider_from_json(pvv) {
                                    Some(p) => Some(Some(p)),
                                    None => None,
                                },
                            }) {
                                Some(prov) => match str_or_empty_field(fs, "version"@) {
                                    Some(ver) => match str_or_empty_field(
                                        fs,
                                        "documentationUrl"@,
                                    ) {
                                        Some(du) => Some(
                                            (pv, name, desc, url, pt, ifaces, prov, ver, du),
                                        ),
                                        None => None,
                                    },
                                    None => None,
                                },
                                None => None,
                            },
                            None => None,
                        },
                        None => None,
                    },
                    None => None,
                },
                None => None,
            },
            None => None,
        },
        None => None,
    }
}

/// The capability half of a card: capabilities, security, modes, skills
/// and signatures.
pub open spec fn card_tail_from_json(fs: Seq<(Seq<char>, JsonV)>) -> Option<
    (
        Option<AgentCapabilitiesV>,
        Seq<(Seq<char>, SecuritySchemeV)>,
        Seq<SecurityV>,
        Seq<Seq<char>>,
        Seq<Seq<char>>,
        Seq<AgentSkillV>,
        bool,
        Seq<AgentCardSignatureV>,
        Seq<char>,
    ),
> {
    match (match field_of(fs, "capabilities"@) {
        None => Some(None),
        Some(JsonV::Null) => Some(None),
        Some(cv) => match capabilities_from_json(cv) {
            Some(c) => Some(Some(c)),
            None => None,
        },
    }) {
        Some(caps) => match (match field_of(fs, "securitySchemes"@) {
            None => Some(Seq::<(Seq<char>, SecuritySchemeV)>::empty()),
            Some(JsonV::Obj(sfs)) => schemes_map_from_fields(sfs),
            Some(_) => None,
        }) {
            Some(schemes) => match (match field_of(fs, "security"@) {
                None => Some(Seq::<SecurityV>::empty()),
                Some(JsonV::Arr(items)) => security_items_from_json(items),
                Some(_) => None,
            }) {
                Some(sec) => match strings_field(fs, "defaultInputModes"@) {
                    Some(dim) => match strings_field(fs, "defaultOutputModes"@) {
                        Some(dom) => match (match field_of(fs, "skills"@) {
                            None => Some(Seq::<AgentSkillV>::empty()),
                            Some(JsonV::Arr(items)) => skills_from_json(items),
                            Some(_) => None,
                        }) {
                            Some(skills) => match bool_field(
                                fs,
                                "supportsAuthenticatedExtendedCard"@,
                            ) {
                                Some(saec) => match (match field_of(fs, "signatures"@) {
                                    None => Some(Seq::<AgentCardSignatureV>::empty()),
                                    Some(JsonV::Arr(items)) => signature_items_from_json(items),
                                    Some(_) => None,
                                }) {
                                    Some(sigs) => match str_or_empty_field(fs, "iconUrl"@) {
                                        Some(iu) => Some(
                                            (
                                                caps,
                                                schemes,
                                                sec,
                                                dim,
                                                dom,
                                                skills,
                                                saec,
                                                sigs,
                                                iu,
                                            ),
                                        ),
                                        None => None,
                                    },
                                    None => None,
                                },
                                None => None,
                            },
                            None => None,
                        },
                        None => None,
                    },
                    None => None,
                },
                None => None,
            },
            None => None,
        },
        None => None,
    }
}

/// The agent card a JSON value denotes.
pub open spec fn card_from_json(v: JsonV) -> Option<AgentCardV> {
    match v {
        JsonV::Obj(fs) => match card_head_from_json(fs) {
            Some((pv, name, desc, url, pt, ifaces, prov, ver, du)) => match card_tail_from_json(
                fs,
            ) {
                Some((caps, schemes, sec, dim, dom, skills, saec, sigs, iu)) => Some(
                    AgentCardV {
                        protocol_version: pv,
                        name: name,
                        description: desc,
                        url: url,
                        preferred_transport: pt,
                        additional_interfaces: ifaces,
                        provider: prov,
                        version: ver,
                        documentation_url: du,
                        capabilities: caps,
                        security_schemes: schemes,
                        security: sec,
                        default_input_modes: dim,
                        default_output_modes: dom,
                        skills: skills,
                        supports_authenticated_extended_card: saec,
                        signatures: sigs,
                        icon_url: iu,
                    },
                ),
                None => None,
            },
            None => None,
        },
        _ => None,
    }
}

/// Encodes an agent card. Decoding the result yields the card back.
#[verifier::rlimit(100)]
pub fn card_to_json(c: &AgentCard) -> (r: JsonValue)
    ensures
        card_from_json(r@) == Some(c@),
{
    let mut fields: Vec<(String, JsonValue)> = Vec::new();
    fields.push(("protocolVersion".to_owned(), JsonValue::Str(c.protocol_version.clone())));
    fields.push(("name".to_owned(), JsonValue::Str(c.name.clone())));
    fields.push(("description".to_owned(), JsonValue::Str(c.description.clone())));
    fields.push(("url".to_owned(), JsonValue::Str(c.url.clone())));
    match &c.preferred_transport {
        Some(t) => {
            fields.push(("preferredTransport".to_owned(), JsonValue::Str(t.as_str().to_owned())));
        },
        None => {
            fields.push(("preferredTransport".to_owned(), JsonValue::Null));
        },
    }
    fields.push(("additionalInterfaces".to_owned(), interfaces_to_json(&c.additional_interfaces)));
    match &c.provider {
        Some(p) => {
            fields.push(("provider".to_owned(), provider_to_json(p)));
        },
        None => {
            fields.push(("provider".to_owned(), JsonValue::Null));
        },
    }
    fields.push(("version".to_owned(), JsonValue::Str(c.version.clone())));
    fields.push(("documentationUrl".to_owned(), JsonValue::Str(c.documentation_url.clone())));
    match &c.capabilities {
        Some(cc) => {
            fields.push(("capabilities".to_owned(), capabilities_to_json(cc)));
        },
        None => {
            fields.push(("capabilities".to_owned(), JsonValue::Null));
        },
    }
    fields.push(("securitySchemes".to_owned(), schemes_map_to_json(&c.security_schemes)));
    fields.push(("security".to_owned(), security_items_to_json(&c.security)));
    fields.push(("defaultInputModes".to_owned(), strings_to_json(&c.default_input_modes)));
    fields.push(("defaultOutputModes".to_owned(), strings_to_json(&c.default_output_modes)));
    fields.push(("skills".to_owned(), skills_to_json(&c.skills)));
    fields.push(
        (
            "supportsAuthenticatedExtendedCard".to_owned(),
            JsonValue::Bool(c.supports_authenticated_extended_card),
        ),
    );
    fields.push(("signatures".to_owned(), signature_items_to_json(&c.signatures)));
    fields.push(("iconUrl".to_owned(), JsonValue::Str(c.icon_url.clone())));
    let r = JsonValue::Object(Object { fields });
    proof {
        let fs = r->Object_0@.fields;
        lemma_jv_fields_view(r->Object_0.fields@);
        reveal_strlit("protocolVersion");
        reveal_strlit("name");
        reveal_strlit("description");
        reveal_strlit("url");
        reveal_strlit("preferredTransport");
        reveal_strlit("additionalInterfaces");
        reveal_strlit("provider");
        reveal_strlit("version");
        reveal_strlit("documentationUrl");
        reveal_strlit("capabilities");
        reveal_strlit("securitySchemes");
        reveal_strlit("security");
        reveal_strlit("defaultInputModes");
        reveal_strlit("defaultOutputModes");
        reveal_strlit("skills");
        reveal_strlit("supportsAuthenticatedExtendedCard");
        reveal_strlit("signatures");
        reveal_strlit("iconUrl");
        reveal_with_fuel(field_of, 20);
        assert(fs.len() == 18);
        assert(("protocolVersion"@).len() == 15);
        assert(("name"@).len() == 4);
        assert(("description"@).len() == 11);
        assert(("url"@).len() == 3);
        assert(("preferredTransport"@).len() == 18);
        assert(("additionalInterfaces"@).len() == 20);
        assert(("provider"@).len() == 8);
        assert(("version"@).len() == 7);
        assert(("documentationUrl"@).len() == 16);
        assert(("capabilities"@).len() == 12);
        assert(("securitySchemes"@).len() == 15);
        assert(("security"@).len() == 8);
        assert(("defaultInputModes"@).len() == 17);
        assert(("defaultOutputModes"@).len() == 18);
        assert(("skills"@).len() == 6);
        assert(("supportsAuthenticatedExtendedCard"@).len() == 33);
        assert(("signatures"@).len() == 10);
        assert(("iconUrl"@).len() == 7);
        assert(("protocolVersion"@)[0] != ("securitySchemes"@)[0]);
        assert("protocolVersion"@ != "securitySchemes"@);
        assert(("preferredTransport"@)[0] != ("defaultOutputModes"@)[0]);
        assert("preferredTransport"@ != "defaultOutputModes"@);
        assert(("provider"@)[0] != ("security"@)[0]);
        assert("provider"@ != "security"@);
        assert(("version"@)[0] != ("iconUrl"@)[0]);
        assert("version"@ != "iconUrl"@);
        let d1 = fs.drop_first();
        let d2 = d1.drop_first();
        let d3 = d2.drop_first();
        let d4 = d3.drop_first();
        let d5 = d4.drop_first();
        let d6 = d5.drop_first();
        let d7 = d6.drop_first();
        let d8 = d7.drop_first();
        let d9 = d8.drop_first();
        let d10 = d9.drop_first();
        let d11 = d10.drop_first();
        let d12 = d11.drop_first();
        let d13 = d12.drop_first();
        let d14 = d13.drop_first();
        let d15 = d14.drop_first();
        let d16 = d15.drop_first();
        let d17 = d16.drop_first();
        assert(fs[0].0 == "protocolVersion"@);
        assert(d1[0].0 == "name"@);
        assert(d2[0].0 == "description"@);
        assert(d3[0].0 == "url"@);
        assert(d4[0].0 == "preferredTransport"@);
        assert(d5[0].0 == "additionalInterfaces"@);
        assert(d6[0].0 == "provider"@);
        assert(d7[0].0 == "version"@);
        assert(d8[0].0 == "documentationUrl"@);
        assert(d9[0].0 == "capabilities"@);
        assert(d10[0].0 == "securitySchemes"@);
        assert(d11[0].0 == "security"@);
        assert(d12[0].0 == "defaultInputModes"@);
        assert(d13[0].0 == "defaultOutputModes"@);
        assert(d14[0].0 == "skills"@);
        assert(d15[0].0 == "supportsAuthenticatedExtendedCard"@);
        assert(d16[0].0 == "signatures"@);
        assert(d17[0].0 == "iconUrl"@);
        assert(field_of(fs, "protocolVersion"@) == Some(fs[0].1));
        assert(field_of(fs, "name"@) == Some(d1[0].1));
        assert(field_of(fs, "description"@) == Some(d2[0].1));
        assert(field_of(fs, "url"@) == Some(d3[0].1));
        assert(field_of(fs, "preferredTransport"@) == Some(d4[0].1));
        assert(field_of(fs, "additionalInterfaces"@) == Some(d5[0].1));
        assert(field_of(fs, "provider"@) == Some(d6[0].1));
        assert(field_of(fs, "version"@) == Some(d7[0].1));
        assert(field_of(fs, "documentationUrl"@) == Some(d8[0].1));
        assert(field_of(fs, "capabilities"@) == Some(d9[0].1));
        assert(field_of(fs, "securitySchemes"@) == Some(d10[0].1));
        assert(field_of(fs, "security"@) == Some(d11[0].1));
        assert(field_of(fs, "defaultInputModes"@) == Some(d12[0].1));
        assert(field_of(fs, "defaultOutputModes"@) == Some(d13[0].1));
        assert(field_of(fs, "skills"@) == Some(d14[0].1));
        assert(field_of(fs, "supportsAuthenticatedExtendedCard"@) == Some(d15[0].1));
        assert(field_of(fs, "signatures"@) == Some(d16[0].1));
        assert(field_of(fs, "iconUrl"@) == Some(d17[0].1));
        match c.preferred_transport {
            Some(t) => {
                lemma_transport_name_round_trip(t);
            },
            None => {
            },
        }
        if c@.preferred_transport is Some {
            assert(!(d4[0].1 is Null));
        }
        if c@.provider is Some {
            assert(!(d6[0].1 is Null));
        }
        if c@.capabilities is Some {
            assert(!(d9[0].1 is Null));
        }
        assert(card_from_json(r@) == Some(c@));
    }
    r
}

/// Decodes the identity half of a card.
#[verifier::rlimit(100)]
fn card_head_of_json(obj: &Object) -> (r: Option<
    (
        String,
        String,
        String,
        String,
        Option<TransportProtocol>,
        Vec<AgentInterface>,
        Option<AgentProvider>,
        String,
        String,
    ),
>)
    ensures
        match r {
            Some(h) => card_head_from_json(obj@.fields) == Some(
                (
                    h.0@,
                    h.1@,
                    h.2@,
                    h.3@,
                    h.4,
                    h.5@.map_values(|x: AgentInterface| x@),
                    match h.6 {
                        Some(p) => Some(p@),
                        None => None,
                    },
                    h.7@,
                    h.8@,
                ),
            ),
            None => card_head_from_json(obj@.fields) is None,
        },
{
    let protocol_version = match get_field(obj, "protocolVersion") {
        None => String::new(),
        Some(JsonValue::Str(s)) => s.clone(),
        Some(_) => {
            return None;
        },
    };
    let name = match get_field(obj, "name") {
        None => String::new(),
        Some(JsonValue::Str(s)) => s.clone(),
        Some(_) => {
            return None;
        },
    };
    let description = match get_field(obj, "description") {
        None => String::new(),
        Some(JsonValue::Str(s)) => s.clone(),
        Some(_) => {
            return None;
        },
    };
    let url = match get_field(obj, "url") {
        None => String::new(),
        Some(JsonValue::Str(s)) => s.clone(),
        Some(_) => {
            return None;
        },
    };
    let preferred_transport = match get_field(obj, "preferredTransport") {
        None => None,
        Some(JsonValue::Null) => None,
        Some(JsonValue::Str(tn)) => match TransportProtocol::from_name(tn) {
            Some(t) => Some(t),
            None => {
                return None;
            },
        },
        Some(_) => {
            return None;
        },
    };
    let additional_interfaces: Vec<AgentInterface> = match get_field(obj, "additionalInterfaces") {
        None => Vec::new(),
        Some(JsonValue::Array(items)) => match interfaces_of_json(items) {
            Some(xs) => xs,
            None => {
                return None;
            },
        },
        Some(_) => {
            return None;
        },
    };
    let provider = match get_field(obj, "provider") {
        None => None,
        Some(JsonValue::Null) => None,
        Some(pv) => match provider_of_json(pv) {
            Some(p) => Some(p),
            None => {
                return None;
            },
        },
    };
    let version = match get_field(obj, "version") {
        None => String::new(),
        Some(JsonValue::Str(s)) => s.clone(),
        Some(_) => {
            return None;
        },
    };
    let documentation_url = match get_field(obj, "documentationUrl") {
        None => String::new(),
        Some(JsonValue::Str(s)) => s.clone(),
        Some(_) => {
            return None;
        },
    };
    let r = (
        protocol_version,
        name,
        description,
        url,
        preferred_transport,
        additional_interfaces,
        provider,
        version,
        documentation_url,
    );
    proof {
        if r.5@.len() == 0 {
            assert(r.5@.map_values(|x: AgentInterface| x@) =~= Seq::<AgentInterfaceV>::empty());
        }
    }
    Some(r)
}

/// Decodes the capability half of a card.
#[verifier::rlimit(100)]
fn card_tail_of_json(obj: &Object) -> (r: Option<
    (
        Option<AgentCapabilities>,
        Vec<(String, SecurityScheme)>,
        Vec<Security>,
        Vec<String>,
        Vec<String>,
        Vec<AgentSkill>,
        bool,
        Vec<AgentCardSignature>,
        String,
    ),
>)
    ensures
        match r {
            Some(h) => card_tail_from_json(obj@.fields) == Some(
                (
                    match h.0 {
                        Some(c) => Some(c@),
                        None => None,
                    },
                    h.1@.map_values(|p: (String, SecurityScheme)| (p.0@, p.1@)),
                    h.2@.map_values(|x: Security| x@),
                    h.3@.map_values(|x: String| x@),
                    h.4@.map_values(|x: String| x@),
                    h.5@.map_values(|x: AgentSkill| x@),
                    h.6,
                    h.7@.map_values(|x: AgentCardSignature| x@),
                    h.8@,
                ),
            ),
            None => card_tail_from_json(obj@.fields) is None,
        },
{
    let capabilities = match get_field(obj, "capabilities") {
        None => None,
        Some(JsonValue::Null) => None,
        Some(cv) => match capabilities_of_json(cv) {
            Some(c) => Some(c),
            None => {
                return None;
            },
        },
    };
    let security_schemes: Vec<(String, SecurityScheme)> = match get_field(obj, "securitySchemes") {
        None => Vec::new(),
        Some(JsonValue::Object(o)) => match schemes_map_of_json(o) {
            Some(ps) => ps,
            None => {
                return None;
            },
        },
        Some(_) => {
            return None;
        },
    };
    let security: Vec<Security> = match get_field(obj, "security") {
        None => Vec::new(),
        Some(JsonValue::Array(items)) => match security_items_of_json(items) {
            Some(ss) => ss,
            None => {
                return None;
            },
        },
        Some(_) => {
            return None;
        },
    };
    let default_input_modes: Vec<String> = match get_field(obj, "defaultInputModes") {
        None => Vec::new(),
        Some(JsonValue::Array(items)) => match strings_of_json(items) {
            Some(ss) => ss,
            None => {
                return None;
            },
        },
        Some(_) => {
            return None;
        },
    };
    let default_output_modes: Vec<String> = match get_field(obj, "defaultOutputModes") {
        None => Vec::new(),
        Some(JsonValue::Array(items)) => match strings_of_json(items) {
            Some(ss) => ss,
            None => {
                return None;
            },
        },
        Some(_) => {
            return None;
        },
    };
    let skills: Vec<AgentSkill> = match get_field(obj, "skills") {
        None => Vec::new(),
        Some(JsonValue::Array(items)) => match skills_of_json(items) {
            Some(ss) => ss,
            None => {
                return None;
            },
        },
        Some(_) => {
            return None;
        },
    };
    let supports_authenticated_extended_card = match get_field(
        obj,
        "supportsAuthenticatedExtendedCard",
    ) {
        None => false,
        Some(JsonValue::Bool(b)) => *b,
        Some(_) => {
            return None;
        },
    };
    let signatures: Vec<AgentCardSignature> = match get_field(obj, "signatures") {
        None => Vec::new(),
        Some(JsonValue::Array(items)) => match signature_items_of_json(items) {
            Some(ss) => ss,
            None => {
                return None;
            },
        },
        Some(_) => {
            return None;
        },
    };
    let icon_url = match get_field(obj, "iconUrl") {
        None => String::new(),
        Some(JsonValue::Str(s)) => s.clone(),
        Some(_) => {
            return None;
        },
    };
    let r = (
        capabilities,
        security_schemes,
        security,
        default_input_modes,
        default_output_modes,
        skills,
        supports_authenticated_extended_card,
        signatures,
        icon_url,
    );
    proof {
        if r.1@.len() == 0 {
            assert(r.1@.map_values(|p: (String, SecurityScheme)| (p.0@, p.1@)) =~= Seq::<
                (Seq<char>, SecuritySchemeV),
            >::empty());
        }
        if r.2@.len() == 0 {
            assert(r.2@.map_values(|x: Security| x@) =~= Seq::<SecurityV>::empty());
        }
        if r.3@.len() == 0 {
            assert(r.3@.map_values(|x: String| x@) =~= Seq::<Seq<char>>::empty());
        }
        if r.4@.len() == 0 {
            assert(r.4@.map_values(|x: String| x@) =~= Seq::<Seq<char>>::empty());
        }
        if r.5@.len() == 0 {
            assert(r.5@.map_values(|x: AgentSkill| x@) =~= Seq::<AgentSkillV>::empty());
        }
        if r.7@.len() == 0 {
            assert(r.7@.map_values(|x: AgentCardSignature| x@) =~= Seq::<
                AgentCardSignatureV,
            >::empty());
        }
    }
    Some(r)
}

/// Decodes an agent card.
pub fn card_of_json(v: &JsonValue) -> (r: Option<AgentCard>)
    ensures
        match r {
            Some(c) => card_from_json(v@) == Some(c@),
            None => card_from_json(v@) is None,
        },
{
    let obj = match v {
        JsonValue::Object(o) => o,
        _ => {
            return None;
        },
    };
    let head = match card_head_of_json(obj) {
        Some(h) => h,
        None => {
            return None;
        },
    };
    let tail = match card_tail_of_json(obj) {
        Some(t) => t,
        None => {
            return None;
        },
    };
    let (
        protocol_version,
        name,
        description,
        url,
        preferred_transport,
        additional_interfaces,
        provider,
        version,
        documentation_url,
    ) = head;
    let (
        capabilities,
        security_schemes,
        security,
        default_input_modes,
        default_output_modes,
        skills,
        supports_authenticated_extended_card,
        signatures,
        icon_url,
    ) = tail;
    let c = AgentCard {
        protocol_version,
        name,
        description,
        url,
        preferred_transport,
        additional_interfaces,
        provider,
        version,
        documentation_url,
        capabilities,
        security_schemes,
        security,
        default_input_modes,
        default_output_modes,
        skills,
        supports_authenticated_extended_card,
        signatures,
        icon_url,
    };
    proof {
        assert(card_from_json(v@) == Some(c@));
    }
    Some(c)
}

} // verus!
