use base64::Engine;

use todo_app::auth::extract_auth_context;
use todo_app::auth::extract_client_principal;
use todo_app::auth::AuthError;
use todo_app::auth::AuthHeader;

const PRINCIPAL_JSON: &str = "{\"auth_typ\":\"aad\",\"name_typ\":\"name\",\"role_typ\":\"role\",\"claims\":[{\"typ\":\"groups\",\"val\":\"admins\"},{\"typ\":\"sub\",\"val\":\"s1\"}]}";

fn encoded_principal() -> String {
    base64::prelude::BASE64_STANDARD.encode(PRINCIPAL_JSON)
}

#[test]
fn full_header_set_yields_a_context() {
    let encoded = encoded_principal();
    let ctx = extract_auth_context(
        Some(encoded.as_str()),
        Some("user-1"),
        Some("Alice"),
        Some("github"),
    )
    .unwrap();
    assert_eq!(ctx.principal_id.as_str(), "user-1");
    assert_eq!(ctx.principal_name, "Alice");
    assert_eq!(ctx.idp, "github");
    assert_eq!(ctx.claims.auth_typ, "aad");
    assert_eq!(ctx.claims.name_typ, "name");
    assert_eq!(ctx.claims.role_typ, "role");
    assert_eq!(ctx.claims.claims.len(), 2);
    assert_eq!(ctx.claims.claims[0].typ, "groups");
    assert_eq!(ctx.claims.claims[0].val, "admins");
    assert_eq!(ctx.claims.claims[1].typ, "sub");
    assert_eq!(ctx.claims.claims[1].val, "s1");
}

#[test]
fn missing_principal_header_is_rejected() {
    let e = extract_auth_context(None, Some("u"), Some("n"), Some("i")).unwrap_err();
    assert_eq!(e, AuthError::MissingHeader(AuthHeader::Principal));
}

#[test]
fn missing_principal_id_is_rejected() {
    let encoded = encoded_principal();
    let e = extract_auth_context(Some(encoded.as_str()), None, Some("n"), Some("i")).unwrap_err();
    assert_eq!(e, AuthError::MissingHeader(AuthHeader::PrincipalId));
}

#[test]
fn missing_principal_name_is_rejected() {
    let encoded = encoded_principal();
    let e = extract_auth_context(Some(encoded.as_str()), Some("u"), None, Some("i")).unwrap_err();
    assert_eq!(e, AuthError::MissingHeader(AuthHeader::PrincipalName));
}

#[test]
fn missing_idp_is_rejected() {
    let encoded = encoded_principal();
    let e = extract_auth_context(Some(encoded.as_str()), Some("u"), Some("n"), None).unwrap_err();
    assert_eq!(e, AuthError::MissingHeader(AuthHeader::PrincipalIdp));
}

#[test]
fn corrupt_base64_is_rejected_as_invalid_encoding() {
    let e = extract_auth_context(Some("!!!not base64!!!"), Some("u"), Some("n"), Some("i"))
        .unwrap_err();
    assert_eq!(e, AuthError::InvalidEncoding);
}

#[test]
fn invalid_utf8_is_rejected_as_invalid_encoding() {
    let encoded = base64::prelude::BASE64_STANDARD.encode([0xff, 0xfe, 0xfd]);
    let e = extract_client_principal(Some(encoded.as_str())).unwrap_err();
    assert_eq!(e, AuthError::InvalidEncoding);
}

#[test]
fn malformed_json_is_rejected_as_invalid_claims() {
    let encoded = base64::prelude::BASE64_STANDARD.encode("this is not json");
    let e = extract_client_principal(Some(encoded.as_str())).unwrap_err();
    assert_eq!(e, AuthError::InvalidClaims);
}

#[test]
fn json_of_the_wrong_shape_is_rejected_as_invalid_claims() {
    let encoded =
        base64::prelude::BASE64_STANDARD.encode("{\"auth_typ\":\"aad\",\"name_typ\":\"n\"}");
    let e = extract_client_principal(Some(encoded.as_str())).unwrap_err();
    assert_eq!(e, AuthError::InvalidClaims);
}

#[test]
fn claims_field_that_is_not_an_array_is_rejected() {
    let json = "{\"auth_typ\":\"a\",\"name_typ\":\"n\",\"role_typ\":\"r\",\"claims\":\"oops\"}";
    let encoded = base64::prelude::BASE64_STANDARD.encode(json);
    let e = extract_client_principal(Some(encoded.as_str())).unwrap_err();
    assert_eq!(e, AuthError::InvalidClaims);
}

#[test]
fn claim_without_string_fields_is_rejected() {
    let json =
        "{\"auth_typ\":\"a\",\"name_typ\":\"n\",\"role_typ\":\"r\",\"claims\":[{\"typ\":7}]}";
    let encoded = base64::prelude::BASE64_STANDARD.encode(json);
    let e = extract_client_principal(Some(encoded.as_str())).unwrap_err();
    assert_eq!(e, AuthError::InvalidClaims);
}

#[test]
fn empty_claims_list_is_accepted() {
    let json = "{\"auth_typ\":\"a\",\"name_typ\":\"n\",\"role_typ\":\"r\",\"claims\":[]}";
    let encoded = base64::prelude::BASE64_STANDARD.encode(json);
    let p = extract_client_principal(Some(encoded.as_str())).unwrap();
    assert_eq!(p.claims.len(), 0);
}

#[test]
fn error_messages_and_header_names() {
    assert_eq!(
        AuthError::MissingHeader(AuthHeader::PrincipalId).message(),
        "Missing header: client-principal-id"
    );
    assert_eq!(AuthError::InvalidEncoding.message(), "Invalid client principal encoding");
    assert_eq!(AuthError::InvalidClaims.message(), "Invalid client principal claims");
    assert_eq!(AuthHeader::Principal.name(), "client-principal");
    assert_eq!(AuthHeader::PrincipalName.name(), "client-principal-name");
    assert_eq!(AuthHeader::PrincipalIdp.name(), "client-principal-idp");
}

#[test]
fn unknown_json_fields_are_ignored() {
    let json = "{\"auth_typ\":\"a\",\"name_typ\":\"n\",\"role_typ\":\"r\",\"claims\":[],\"extra\":{\"x\":1}}";
    let encoded = base64::prelude::BASE64_STANDARD.encode(json);
    let p = extract_client_principal(Some(encoded.as_str())).unwrap();
    assert_eq!(p.auth_typ, "a");
    assert_eq!(p.claims.len(), 0);
}
