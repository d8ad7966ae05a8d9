use actix_web_auth::request::{
    AuthIdentity, AuthToken, Claim, ClaimValueError, Identity, IdentityError, Request, TokenError,
};
use base64::engine::general_purpose::URL_SAFE_NO_PAD;
use base64::Engine;

fn b64(bytes: &[u8]) -> String {
    URL_SAFE_NO_PAD.encode(bytes)
}

fn jwt(payload: &str) -> String {
    format!("{}.{}.c2ln", b64(br#"{"alg":"HS256","typ":"JWT"}"#), b64(payload.as_bytes()))
}

fn with_header(value: &str) -> Request {
    Request::new(Some(value.as_bytes().to_vec()))
}

fn claim(name: &str, value: &str) -> Claim {
    Claim { name: name.to_string(), value: value.to_string() }
}

#[test]
fn auth_token_missing_header() {
    assert_eq!(Request::new(None).auth_token(), Err(TokenError::MissingHeader));
}

#[test]
fn auth_token_rejects_control_and_non_ascii_bytes() {
    assert_eq!(with_header("Bearer a\nb").auth_token(), Err(TokenError::InvalidHeader));
    assert_eq!(Request::new(Some(vec![66, 101, 97, 114, 101, 114, 32, 0xc3, 0xa9])).auth_token(), Err(TokenError::InvalidHeader));
    assert_eq!(with_header("Bearer a\u{7f}").auth_token(), Err(TokenError::InvalidHeader));
}

#[test]
fn auth_token_accepts_tab() {
    assert_eq!(with_header("Bearer a\tb").auth_token(), Ok("a\tb".to_string()));
}

#[test]
fn auth_token_requires_bearer_prefix() {
    assert_eq!(with_header("Basic dXNlcjpwYXNz").auth_token(), Err(TokenError::NotBearer));
    assert_eq!(with_header("bearer abc").auth_token(), Err(TokenError::NotBearer));
    assert_eq!(with_header("Bearer").auth_token(), Err(TokenError::NotBearer));
    assert_eq!(with_header("").auth_token(), Err(TokenError::NotBearer));
}

#[test]
fn auth_token_returns_text_after_prefix() {
    assert_eq!(with_header("Bearer abc.def.ghi").auth_token(), Ok("abc.def.ghi".to_string()));
    assert_eq!(with_header("Bearer ").auth_token(), Ok(String::new()));
    assert_eq!(with_header("Bearer  two").auth_token(), Ok(" two".to_string()));
}

#[test]
fn identity_reads_payload_members_in_order() {
    let req = with_header(&format!("Bearer {}", jwt(r#"{"a":"x","b":5,"c":["r","w"]}"#)));
    let id = req.identity().unwrap();
    let claims = id.claims();
    assert_eq!(claims.len(), 3);
    assert_eq!(claims[0].name, "a");
    assert_eq!(claims[0].value, "\"x\"");
    assert_eq!(claims[1].name, "b");
    assert_eq!(claims[1].value, "5");
    assert_eq!(claims[2].name, "c");
    assert_eq!(claims[2].value, "[\"r\",\"w\"]");
}

#[test]
fn identity_of_non_object_payload_has_no_claims() {
    let req = with_header(&format!("Bearer {}", jwt("[1,2]")));
    assert_eq!(req.identity().unwrap().claims().len(), 0);
}

#[test]
fn identity_needs_a_bearer_token() {
    assert_eq!(Request::new(None).identity().unwrap_err(), IdentityError::Token(TokenError::MissingHeader));
    assert_eq!(with_header("Token x").identity().unwrap_err(), IdentityError::Token(TokenError::NotBearer));
}

#[test]
fn identity_needs_three_parts() {
    assert_eq!(with_header("Bearer a.b").identity().unwrap_err(), IdentityError::Format);
    assert_eq!(with_header("Bearer a.b.c.d").identity().unwrap_err(), IdentityError::Format);
    assert_eq!(with_header("Bearer abc").identity().unwrap_err(), IdentityError::Format);
}

#[test]
fn identity_needs_base64url_payload() {
    assert_eq!(with_header("Bearer a.!!!.c").identity().unwrap_err(), IdentityError::Base64);
    let padded = format!("Bearer a.{}=.c", b64(b"{}1"));
    assert_eq!(with_header(&padded).identity().unwrap_err(), IdentityError::Base64);
}

#[test]
fn identity_needs_utf8_payload() {
    let token = format!("Bearer a.{}.c", b64(&[0x7b, 0xff, 0x7d]));
    assert_eq!(with_header(&token).identity().unwrap_err(), IdentityError::Utf8);
}

#[test]
fn identity_needs_json_payload() {
    let token = format!("Bearer a.{}.c", b64(b"not json"));
    assert_eq!(with_header(&token).identity().unwrap_err(), IdentityError::Json);
}

#[test]
fn get_claim_finds_first_by_name() {
    let id = Identity::new(vec![claim("a", "1"), claim("b", "2"), claim("a", "3")]);
    assert_eq!(id.get_claim("a").unwrap().value, "1");
    assert_eq!(id.get_claim("b").unwrap().value, "2");
    assert!(id.get_claim("c").is_none());
    assert!(id.get_claim("A").is_none());
}

#[test]
fn claims_lists_all_in_order() {
    let id = Identity::new(vec![claim("x", "1"), claim("y", "")]);
    let names: Vec<&str> = id.claims().iter().map(|c| c.name.as_str()).collect();
    assert_eq!(names, vec!["x", "y"]);
}

#[test]
fn claim_text_reports_missing_and_empty() {
    let id = Identity::new(vec![claim("n", "42"), claim("e", ""), claim("n", "7")]);
    assert_eq!(id.claim_text("n"), Ok(&"42".to_string()));
    assert_eq!(id.claim_text("e"), Err(ClaimValueError::Empty));
    assert_eq!(id.claim_text("zzz"), Err(ClaimValueError::NotFound));
}

#[test]
fn identity_claim_value_of_number_claim() {
    let req = with_header(&format!("Bearer {}", jwt(r#"{"age":42,"sub":"u"}"#)));
    let id = req.identity().unwrap();
    assert_eq!(id.claim_text("age"), Ok(&"42".to_string()));
    assert_eq!(id.claim_text("sub"), Ok(&"\"u\"".to_string()));
}

#[test]
fn identity_reads_only_the_payload_part() {
    let payload = b64(br#"{"sub":"u1","roles":["a"]}"#);
    let a = with_header(&format!("Bearer {}.{}.{}", b64(br#"{"alg":"HS256"}"#), payload, "c2ln"));
    let b = with_header(&format!("Bearer {}.{}.{}", "not-a-header", payload, ""));
    let ia = a.identity().unwrap();
    let ib = b.identity().unwrap();
    let pairs = |id: &Identity| -> Vec<(String, String)> {
        id.claims().iter().map(|c| (c.name.clone(), c.value.clone())).collect()
    };
    assert_eq!(pairs(&ia), pairs(&ib));
    assert_eq!(ia.claims().len(), 2);
}

#[test]
fn identity_member_names_are_distinct() {
    let req = with_header(&format!("Bearer {}", jwt(r#"{"a":1,"a":2,"b":3}"#)));
    let id = req.identity().unwrap();
    assert_eq!(id.claims().len(), 2);
    assert_eq!(id.get_claim("a").unwrap().value, "2");
}
