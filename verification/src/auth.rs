//! Identity extraction from trusted gateway headers: decodes the
//! base64-encoded JSON principal bundle and the plain-text identity headers
//! into a validated, request-scoped `AuthContext`. The whole step is pinned
//! by `auth_outcome`: every failure rejects the request before any business
//! logic runs, and a context is owed — and its contents fixed — exactly when
//! every header is present and the bundle decodes into the principal shape.
//!
//! The extractor performs no cryptographic verification: it trusts that only
//! a controlled upstream gateway sets these headers. That trust boundary is a
//! deployment precondition, not something this component can enforce.

use vstd::prelude::*;

use vstd::utf8::decode_utf8;
use vstd::utf8::valid_utf8;

use crate::model::UserId;

verus! {

/// serde_json's JSON document type, carried opaquely through the extractor.
#[verifier::external_type_specification]
#[verifier::external_body]
pub struct ExJsonValue(serde_json::Value);

/// Mathematical image of a JSON document. Numeric content is not modeled
/// beyond its presence: the extractor never reads a number.
pub enum JsonModel {
    Null,
    Bool(bool),
    Num,
    Str(Seq<char>),
    Arr(Seq<JsonModel>),
    Obj(Map<Seq<char>, JsonModel>),
}

/// What a `serde_json::Value` holds, as a `JsonModel`. The trusted boundary
/// below ties each accessor of the opaque value to this name.
pub uninterp spec fn value_model(v: serde_json::Value) -> JsonModel;

/// What serde_json's parse returns for a string: the document's model, or
/// nothing when the string is not one well-formed JSON document.
pub uninterp spec fn json_model_of(s: Seq<char>) -> Option<JsonModel>;

/// The models of a sequence of JSON values, element by element.
pub open spec fn models_of(vs: Seq<serde_json::Value>) -> Seq<JsonModel> {
    vs.map_values(|x: serde_json::Value| value_model(x))
}

/// The string content of a JSON string value.
pub open spec fn model_str(m: JsonModel) -> Option<Seq<char>> {
    match m {
        JsonModel::Str(s) => Some(s),
        _ => None,
    }
}

/// The elements of a JSON array value.
pub open spec fn arr_items(m: JsonModel) -> Option<Seq<JsonModel>> {
    match m {
        JsonModel::Arr(items) => Some(items),
        _ => None,
    }
}

/// The named field of a JSON object value.
pub open spec fn obj_field(m: JsonModel, key: Seq<char>) -> Option<JsonModel> {
    match m {
        JsonModel::Obj(fields) => if fields.dom().contains(key) {
            Some(fields[key])
        } else {
            None
        },
        _ => None,
    }
}

/// The named field of a JSON object value, when that field is a string.
pub open spec fn str_field(m: JsonModel, key: Seq<char>) -> Option<Seq<char>> {
    match obj_field(m, key) {
        Some(f) => model_str(f),
        None => None,
    }
}

/// What base64's standard-alphabet decode returns for a string: the decoded
/// bytes, or nothing when the string is not valid base64.
pub uninterp spec fn base64_decode_of(s: Seq<char>) -> Option<Seq<u8>>;

/// Relies on base64's `BASE64_STANDARD` engine `decode`: decodes a
/// standard-alphabet, padded base64 string to its bytes, a function of the
/// string alone, failing exactly on ill-formed input.
#[verifier::external_body]
fn base64_decode(s: &str) -> (r: Option<Vec<u8>>)
    ensures
        r is Some <==> base64_decode_of(s@) is Some,
        r matches Some(b) ==> b@ == base64_decode_of(s@).unwrap(),
{
    base64::Engine::decode(&base64::prelude::BASE64_STANDARD, s).ok()
}

/// Relies on std's `String::from_utf8`: succeeds exactly on valid UTF-8 and
/// returns the string holding the decoded characters.
#[verifier::external_body]
fn utf8_decode(bytes: Vec<u8>) -> (r: Option<String>)
    ensures
        r is Some <==> valid_utf8(bytes@),
        r matches Some(s) ==> s@ == decode_utf8(bytes@),
{
    String::from_utf8(bytes).ok()
}

/// Relies on serde_json's `from_str::<Value>`: parses the string as one JSON
/// document, succeeding exactly on well-formed JSON and returning the
/// document the string denotes.
#[verifier::external_body]
fn json_parse(s: &str) -> (r: Option<serde_json::Value>)
    ensures
        r is Some <==> json_model_of(s@) is Some,
        r matches Some(v) ==> value_model(v) == json_model_of(s@).unwrap(),
{
    serde_json::from_str::<serde_json::Value>(s).ok()
}

/// Relies on serde_json's `Value::get` with a string key: the named field
/// when the value is a JSON object that has it, nothing otherwise.
#[verifier::external_body]
fn json_get<'a>(v: &'a serde_json::Value, key: &str) -> (r: Option<&'a serde_json::Value>)
    ensures
        r is Some <==> obj_field(value_model(*v), key@) is Some,
        r matches Some(f) ==> value_model(*f) == obj_field(value_model(*v), key@).unwrap(),
{
    v.get(key)
}

/// Relies on serde_json's `Value::as_str`: the content of a JSON string
/// value, nothing for any other kind of value.
pub assume_specification<'a>[ serde_json::Value::as_str ](v: &'a serde_json::Value) -> (r: Option<
    &'a str,
>)
    ensures
        r is Some <==> model_str(value_model(*v)) is Some,
        r matches Some(s) ==> s@ == model_str(value_model(*v)).unwrap(),
;

/// Relies on serde_json's `Value::as_array`: the elements of a JSON array
/// value, nothing for any other kind of value.
pub assume_specification<'a>[ serde_json::Value::as_array ](v: &'a serde_json::Value) -> (r:
    Option<&'a Vec<serde_json::Value>>)
    ensures
        r is Some <==> arr_items(value_model(*v)) is Some,
        r matches Some(a) ==> models_of(a@) == arr_items(value_model(*v)).unwrap(),
;

/// The four trusted headers the extractor consumes.
#[derive(Debug, PartialEq, Eq, Structural, Clone, Copy)]
pub enum AuthHeader {
    /// `client-principal`: the base64-encoded JSON principal bundle.
    Principal,
    /// `client-principal-id`: the plain-text user identifier.
    PrincipalId,
    /// `client-principal-name`: the plain-text display name.
    PrincipalName,
    /// `client-principal-idp`: the plain-text identity-provider name.
    PrincipalIdp,
}

impl AuthHeader {
    /// The header's name on the wire.
    pub fn name(&self) -> (r: &'static str)
        ensures
            r@ == spec_header_name(*self),
    {
        match self {
            AuthHeader::Principal => "client-principal",
            AuthHeader::PrincipalId => "client-principal-id",
            AuthHeader::PrincipalName => "client-principal-name",
            AuthHeader::PrincipalIdp => "client-principal-idp",
        }
    }
}

/// Why identity extraction rejected a request. Every variant is surfaced to
/// the caller as the same access rejection; none is retried.
#[derive(Debug, PartialEq, Eq, Structural, Clone, Copy)]
pub enum AuthError {
    /// A required header was absent.
    MissingHeader(AuthHeader),
    /// The principal bundle was not valid base64, or not valid UTF-8.
    InvalidEncoding,
    /// The principal bundle was not well-formed JSON of the expected shape.
    InvalidClaims,
}

impl AuthError {
    /// A human-readable reason for the rejection.
    pub fn message(&self) -> (r: String)
        ensures
            *self matches AuthError::MissingHeader(h) ==> r@ == "Missing header: "@
                + spec_header_name(h),
            *self == AuthError::InvalidEncoding ==> r@ == "Invalid client principal encoding"@,
            *self == AuthError::InvalidClaims ==> r@ == "Invalid client principal claims"@,
    {
        match self {
            AuthError::MissingHeader(h) => String::from_str("Missing header: ").concat(h.name()),
            AuthError::InvalidEncoding => String::from_str("Invalid client principal encoding"),
            AuthError::InvalidClaims => String::from_str("Invalid client principal claims"),
        }
    }
}

/// The wire name of each trusted header.
pub open spec fn spec_header_name(h: AuthHeader) -> Seq<char> {
    match h {
        AuthHeader::Principal => "client-principal"@,
        AuthHeader::PrincipalId => "client-principal-id"@,
        AuthHeader::PrincipalName => "client-principal-name"@,
        AuthHeader::PrincipalIdp => "client-principal-idp"@,
    }
}

/// One externally-asserted claim, passed through unchanged.
#[derive(Debug, Clone)]
pub struct Claim {
    pub typ: String,
    pub val: String,
}

/// Mathematical image of a `Claim`.
pub struct ClaimView {
    pub typ: Seq<char>,
    pub val: Seq<char>,
}

impl View for Claim {
    type V = ClaimView;

    open spec fn view(&self) -> ClaimView {
        ClaimView { typ: self.typ@, val: self.val@ }
    }
}

/// The deserialized shape of the externally-issued identity assertion.
/// Opaque pass-through data: not validated beyond successful decoding.
#[derive(Debug, Clone)]
pub struct ClientPrincipal {
    pub auth_typ: String,
    pub name_typ: String,
    pub role_typ: String,
    pub claims: Vec<Claim>,
}

/// Mathematical image of a `ClientPrincipal`.
pub struct ClientPrincipalView {
    pub auth_typ: Seq<char>,
    pub name_typ: Seq<char>,
    pub role_typ: Seq<char>,
    pub claims: Seq<ClaimView>,
}

/// The views of a sequence of claims, element by element.
pub open spec fn claim_views(cs: Seq<Claim>) -> Seq<ClaimView> {
    cs.map_values(|c: Claim| c@)
}

impl View for ClientPrincipal {
    type V = ClientPrincipalView;

    open spec fn view(&self) -> ClientPrincipalView {
        ClientPrincipalView {
            auth_typ: self.auth_typ@,
            name_typ: self.name_typ@,
            role_typ: self.role_typ@,
            claims: claim_views(self.claims@),
        }
    }
}

/// The validated, request-scoped authentication context: created fresh per
/// request and never persisted.
#[derive(Debug, Clone)]
pub struct AuthContext {
    pub principal_id: UserId,
    pub principal_name: String,
    pub idp: String,
    pub claims: ClientPrincipal,
}

/// Mathematical image of an `AuthContext`.
pub struct AuthContextView {
    pub principal_id: Seq<char>,
    pub principal_name: Seq<char>,
    pub idp: Seq<char>,
    pub claims: ClientPrincipalView,
}

impl View for AuthContext {
    type V = AuthContextView;

    open spec fn view(&self) -> AuthContextView {
        AuthContextView {
            principal_id: self.principal_id@,
            principal_name: self.principal_name@,
            idp: self.idp@,
            claims: self.claims@,
        }
    }
}

/// Whether a JSON document has the shape of one claim: an object whose
/// fields `typ` and `val` are strings.
pub open spec fn claim_shape_ok(m: JsonModel) -> bool {
    str_field(m, "typ"@) is Some && str_field(m, "val"@) is Some
}

/// The claim a JSON document of claim shape denotes.
pub open spec fn claim_of(m: JsonModel) -> ClaimView {
    ClaimView { typ: str_field(m, "typ"@).unwrap(), val: str_field(m, "val"@).unwrap() }
}

/// The claims of a sequence of claim-shaped JSON documents.
pub open spec fn claims_of(items: Seq<JsonModel>) -> Seq<ClaimView> {
    items.map_values(|it: JsonModel| claim_of(it))
}

/// Whether a JSON document has the `ClientPrincipal` shape: an object whose
/// fields `auth_typ`, `name_typ` and `role_typ` are strings and whose field
/// `claims` is an array of claim-shaped documents. Other fields are ignored.
pub open spec fn principal_shape_ok(m: JsonModel) -> bool {
    &&& str_field(m, "auth_typ"@) is Some
    &&& str_field(m, "name_typ"@) is Some
    &&& str_field(m, "role_typ"@) is Some
    &&& match obj_field(m, "claims"@) {
        Some(c) => match arr_items(c) {
            Some(items) => forall|k: int|
                0 <= k < items.len() ==> claim_shape_ok(#[trigger] items[k]),
            None => false,
        },
        None => false,
    }
}

/// The claim documents of a principal-shaped JSON document.
pub open spec fn principal_claim_items(m: JsonModel) -> Seq<JsonModel> {
    arr_items(obj_field(m, "claims"@).unwrap()).unwrap()
}

/// The principal a principal-shaped JSON document denotes.
pub open spec fn principal_of(m: JsonModel) -> ClientPrincipalView {
    ClientPrincipalView {
        auth_typ: str_field(m, "auth_typ"@).unwrap(),
        name_typ: str_field(m, "name_typ"@).unwrap(),
        role_typ: str_field(m, "role_typ"@).unwrap(),
        claims: claims_of(principal_claim_items(m)),
    }
}

/// The view of an optional header value.
pub open spec fn header_view(h: Option<&str>) -> Option<Seq<char>> {
    match h {
        Some(s) => Some(s@),
        None => None,
    }
}

/// What decoding the principal bundle header yields, step by step: require
/// the header, decode base64, read UTF-8, parse JSON, read the
/// `ClientPrincipal` shape. Each failing step gives its error; success is
/// owed exactly when every step succeeds, and returns the parsed principal.
pub open spec fn decode_principal(header: Option<Seq<char>>) -> Result<
    ClientPrincipalView,
    AuthError,
> {
    match header {
        None => Err(AuthError::MissingHeader(AuthHeader::Principal)),
        Some(h) => match base64_decode_of(h) {
            None => Err(AuthError::InvalidEncoding),
            Some(bytes) => if !valid_utf8(bytes) {
                Err(AuthError::InvalidEncoding)
            } else {
                match json_model_of(decode_utf8(bytes)) {
                    None => Err(AuthError::InvalidClaims),
                    Some(m) => if principal_shape_ok(m) {
                        Ok(principal_of(m))
                    } else {
                        Err(AuthError::InvalidClaims)
                    },
                }
            },
        },
    }
}

/// What the whole identity-extraction step yields: the principal bundle is
/// decoded first; then the id, name and identity-provider headers are
/// required, in that order, each absence named in its error; success carries
/// the three header values verbatim and the parsed claims bundle.
pub open spec fn auth_outcome(
    principal_header: Option<Seq<char>>,
    principal_id: Option<Seq<char>>,
    principal_name: Option<Seq<char>>,
    idp: Option<Seq<char>>,
) -> Result<AuthContextView, AuthError> {
    match decode_principal(principal_header) {
        Err(e) => Err(e),
        Ok(claims) => match principal_id {
            None => Err(AuthError::MissingHeader(AuthHeader::PrincipalId)),
            Some(id) => match principal_name {
                None => Err(AuthError::MissingHeader(AuthHeader::PrincipalName)),
                Some(name) => match idp {
                    None => Err(AuthError::MissingHeader(AuthHeader::PrincipalIdp)),
                    Some(provider) => Ok(
                        AuthContextView {
                            principal_id: id,
                            principal_name: name,
                            idp: provider,
                            claims,
                        },
                    ),
                },
            },
        },
    }
}

/// The named field of a JSON object when it is a string, as an owned value.
fn json_field_str(v: &serde_json::Value, key: &str) -> (r: Option<String>)
    ensures
        r is Some <==> str_field(value_model(*v), key@) is Some,
        r matches Some(s) ==> s@ == str_field(value_model(*v), key@).unwrap(),
{
    match json_get(v, key) {
        Some(field) => match field.as_str() {
            Some(s) => Some(s.to_owned()),
            None => None,
        },
        None => None,
    }
}

/// Reads the `ClientPrincipal` shape out of a parsed JSON document: the three
/// string fields and the array of claims, each claim an object with string
/// fields `typ` and `val`. Succeeds exactly on documents of that shape, and
/// returns exactly the principal the document denotes.
fn principal_from_json(v: &serde_json::Value) -> (r: Option<ClientPrincipal>)
    ensures
        r is Some <==> principal_shape_ok(value_model(*v)),
        r matches Some(p) ==> p@ == principal_of(value_model(*v)),
{
    let ghost m = value_model(*v);
    let auth_typ = match json_field_str(v, "auth_typ") {
        Some(s) => s,
        None => return None,
    };
    let name_typ = match json_field_str(v, "name_typ") {
        Some(s) => s,
        None => return None,
    };
    let role_typ = match json_field_str(v, "role_typ") {
        Some(s) => s,
        None => return None,
    };
    let claims_value = match json_get(v, "claims") {
        Some(c) => c,
        None => return None,
    };
    let claims_array = match claims_value.as_array() {
        Some(a) => a,
        None => return None,
    };
    let ghost items = arr_items(value_model(*claims_value)).unwrap();
    proof {
        assert(items == principal_claim_items(m));
        assert(models_of(claims_array@).len() == claims_array@.len());
    }
    let n = claims_array.len();
    let mut claims: Vec<Claim> = Vec::new();
    let mut i: usize = 0;
    while i < n
        invariant
            0 <= i <= n,
            m == value_model(*v),
            n == claims_array@.len(),
            n == items.len(),
            models_of(claims_array@) == items,
            items == principal_claim_items(m),
            obj_field(m, "claims"@) matches Some(c) && arr_items(c) == Some(items),
            forall|k: int| 0 <= k < i ==> claim_shape_ok(#[trigger] items[k]),
            claims@.len() == i,
            forall|k: int| 0 <= k < i ==> (#[trigger] claims@[k])@ == claim_of(items[k]),
        decreases n - i,
    {
        let item = &claims_array[i];
        proof {
            assert(models_of(claims_array@)[i as int] == value_model(claims_array@[i as int]));
            assert(value_model(*item) == items[i as int]);
        }
        let typ_value = json_field_str(item, "typ");
        let val_value = json_field_str(item, "val");
        if typ_value.is_none() || val_value.is_none() {
            proof {
                if principal_shape_ok(m) {
                    assert(claim_shape_ok(items[i as int]));
                }
            }
            return None;
        }
        let typ = typ_value.unwrap();
        let val = val_value.unwrap();
        claims.push(Claim { typ, val });
        i = i + 1;
    }
    proof {
        assert(principal_shape_ok(m));
        assert(claim_views(claims@) =~= claims_of(items)) by {
            assert forall|k: int| 0 <= k < claims@.len() implies claim_views(claims@)[k]
                == claims_of(items)[k] by {
                assert(claim_views(claims@)[k] == claims@[k]@);
                assert(claims_of(items)[k] == claim_of(items[k]));
            }
        }
    }
    Some(ClientPrincipal { auth_typ, name_typ, role_typ, claims })
}

/// Decodes the principal bundle header. The result is exactly
/// `decode_principal` of the header: required, base64-decoded, read as
/// UTF-8, parsed as JSON and read as the `ClientPrincipal` shape, with each
/// failing step naming its error and success returning the parsed bundle.
pub fn extract_client_principal(header: Option<&str>) -> (r: Result<ClientPrincipal, AuthError>)
    ensures
        r is Ok <==> decode_principal(header_view(header)) is Ok,
        r matches Ok(p) ==> decode_principal(header_view(header)) == Ok::<
            ClientPrincipalView,
            AuthError,
        >(p@),
        r matches Err(e) ==> decode_principal(header_view(header)) == Err::<
            ClientPrincipalView,
            AuthError,
        >(e),
{
    let encoded = match header {
        Some(h) => h,
        None => return Err(AuthError::MissingHeader(AuthHeader::Principal)),
    };
    let bytes = match base64_decode(encoded) {
        Some(b) => b,
        None => return Err(AuthError::InvalidEncoding),
    };
    let text = match utf8_decode(bytes) {
        Some(t) => t,
        None => return Err(AuthError::InvalidEncoding),
    };
    let document = match json_parse(text.as_str()) {
        Some(v) => v,
        None => return Err(AuthError::InvalidClaims),
    };
    match principal_from_json(&document) {
        Some(p) => Ok(p),
        None => Err(AuthError::InvalidClaims),
    }
}

/// Runs the whole identity-extraction step over the four trusted headers.
/// The result is exactly `auth_outcome` of the headers: the principal bundle
/// decoded first, then the id, name and identity-provider headers required
/// in order, each absence named; a context is built exactly when every step
/// succeeds, and carries the id, name, provider and parsed claims verbatim.
pub fn extract_auth_context(
    principal_header: Option<&str>,
    principal_id: Option<&str>,
    principal_name: Option<&str>,
    idp: Option<&str>,
) -> (r: Result<AuthContext, AuthError>)
    ensures
        r is Ok <==> auth_outcome(
            header_view(principal_header),
            header_view(principal_id),
            header_view(principal_name),
            header_view(idp),
        ) is Ok,
        r matches Ok(ctx) ==> auth_outcome(
            header_view(principal_header),
            header_view(principal_id),
            header_view(principal_name),
            header_view(idp),
        ) == Ok::<AuthContextView, AuthError>(ctx@),
        r matches Err(e) ==> auth_outcome(
            header_view(principal_header),
            header_view(principal_id),
            header_view(principal_name),
            header_view(idp),
        ) == Err::<AuthContextView, AuthError>(e),
        principal_id is None ==> r is Err,
        principal_name is None ==> r is Err,
        idp is None ==> r is Err,
{
    let claims = match extract_client_principal(principal_header) {
        Ok(c) => c,
        Err(e) => return Err(e),
    };
    let id_value = match principal_id {
        Some(v) => v,
        None => return Err(AuthError::MissingHeader(AuthHeader::PrincipalId)),
    };
    let name_value = match principal_name {
        Some(v) => v,
        None => return Err(AuthError::MissingHeader(AuthHeader::PrincipalName)),
    };
    let idp_value = match idp {
        Some(v) => v,
        None => return Err(AuthError::MissingHeader(AuthHeader::PrincipalIdp)),
    };
    Ok(
        AuthContext {
            principal_id: UserId::from(id_value.to_owned()),
            principal_name: name_value.to_owned(),
            idp: idp_value.to_owned(),
            claims,
        },
    )
}

} // verus!
