use actix_web_auth::json::JsonObject;
use actix_web_auth::jwt::KeyMaterial;
use actix_web_auth::request::{Request, TokenError};
use actix_web_auth::validator::{AuthValidator, DecodingKeyError, Jwks, KeyLookupError, LoadError, LoadStep, ValidateError};
use base64::engine::general_purpose::URL_SAFE_NO_PAD;
use base64::Engine;
use jsonwebtoken::{encode, Algorithm, EncodingKey, Header};

const ISSUER: &str = "https://auth.example.com/realms/main";
const SECRET: &[u8] = b"a-shared-secret-of-some-length";

fn obj(text: &str) -> JsonObject {
    JsonObject::parse(text).unwrap()
}

fn strings(v: &[&str]) -> Vec<String> {
    v.iter().map(|s| s.to_string()).collect()
}

fn oct_key(kid: &str, alg: &str, secret: &[u8]) -> JsonObject {
    obj(&format!(
        r#"{{"kty":"oct","kid":"{}","alg":"{}","k":"{}"}}"#,
        kid,
        alg,
        URL_SAFE_NO_PAD.encode(secret)
    ))
}

fn signed(kid: Option<&str>, claims: &str, secret: &[u8]) -> String {
    let mut header = Header::new(Algorithm::HS256);
    header.kid = kid.map(|k| k.to_string());
    let value: serde_json::Value = serde_json::from_str(claims).unwrap();
    encode(&header, &value, &EncodingKey::from_secret(secret)).unwrap()
}

fn bearer(token: &str) -> Request {
    Request::new(Some(format!("Bearer {}", token).into_bytes()))
}

fn loaded_validator() -> AuthValidator {
    let mut v = AuthValidator::new(ISSUER.to_string());
    v.store_jwks(
        Jwks::Keys(vec![obj(r#"{"kty":"RSA","kid":"rsa1","alg":"RS256"}"#), oct_key("k1", "HS256", SECRET)]),
        1,
    );
    v
}

fn good_claims() -> String {
    format!(r#"{{"iss":"{}","exp":4000000000,"aud":"api","scope":"read write"}}"#, ISSUER)
}

#[test]
fn new_validator_is_stale() {
    let v = AuthValidator::new("x".to_string());
    assert!(v.openid_config_is_stale(0));
    assert!(v.jwks_is_stale(12345));
    assert!(v.policies().get("any").is_none());
}

#[test]
fn stored_document_fresh_for_three_minutes() {
    let mut v = AuthValidator::new("x".to_string());
    let t: u128 = 1_700_000_000_000_000_000;
    v.store_openid_config(obj("{}"), t);
    assert!(!v.openid_config_is_stale(t));
    assert!(!v.openid_config_is_stale(t + 180_000_000_000));
    assert!(v.openid_config_is_stale(t + 180_000_000_001));
    assert!(v.openid_config_is_stale(t - 1));
    v.store_jwks(Jwks::NoKeys, t);
    assert!(!v.jwks_is_stale(t + 1));
    assert!(v.jwks_is_stale(t + 200_000_000_000));
}

#[test]
fn openid_config_url_trims_trailing_slashes() {
    let a = AuthValidator::new("https://auth.example.com/realms/x/".to_string());
    assert_eq!(
        a.openid_config_url(),
        Ok("https://auth.example.com/realms/x/.well-known/openid-configuration".to_string())
    );
    let b = AuthValidator::new("https://a.example//".to_string());
    assert_eq!(b.openid_config_url(), Ok("https://a.example/.well-known/openid-configuration".to_string()));
    let c = AuthValidator::new("https://a.example".to_string());
    assert_eq!(c.openid_config_url(), b.openid_config_url());
    let d = AuthValidator::new("///".to_string());
    assert_eq!(d.openid_config_url(), Ok("/.well-known/openid-configuration".to_string()));
}

#[test]
fn openid_config_url_needs_issuer() {
    assert_eq!(AuthValidator::new(String::new()).openid_config_url(), Err(LoadError::IssuerEmpty));
}

#[test]
fn jwks_uri_from_config() {
    let mut v = AuthValidator::new("x".to_string());
    assert_eq!(v.jwks_uri(), Err(LoadError::OpenIdConfigNotLoaded));
    v.store_openid_config(obj(r#"{"issuer":"x"}"#), 5);
    assert_eq!(v.jwks_uri(), Err(LoadError::MissingJwksUri));
    v.store_openid_config(obj(r#"{"jwks_uri":42}"#), 6);
    assert_eq!(v.jwks_uri(), Err(LoadError::MissingJwksUri));
    v.store_openid_config(obj(r#"{"jwks_uri":"https://x/certs"}"#), 7);
    assert_eq!(v.jwks_uri(), Ok("https://x/certs".to_string()));
}

#[test]
fn key_lookup_errors() {
    let mut v = AuthValidator::new("x".to_string());
    assert_eq!(v.get_jwk_key_json_by_kid("k").unwrap_err(), KeyLookupError::JwksNotLoaded);
    v.store_jwks(Jwks::NoKeys, 1);
    assert_eq!(v.get_jwk_key_json_by_kid("k").unwrap_err(), KeyLookupError::MissingKeys);
    v.store_jwks(Jwks::KeysNotArray, 1);
    assert_eq!(v.get_jwk_key_json_by_alg("RS256").unwrap_err(), KeyLookupError::KeysNotArray);
    v.store_jwks(Jwks::Keys(vec![obj(r#"{"kid":1}"#)]), 1);
    assert_eq!(v.get_jwk_key_json_by_kid("1").unwrap_err(), KeyLookupError::NoMatchingKey);
}

#[test]
fn key_lookup_finds_first_match() {
    let mut v = AuthValidator::new("x".to_string());
    v.store_jwks(
        Jwks::Keys(vec![
            obj(r#"{"kid":"a","alg":"RS256","n":"1"}"#),
            obj(r#"{"kid":"b","alg":"RS256","n":"2"}"#),
            obj(r#"{"kid":"b","alg":"ES256","n":"3"}"#),
        ]),
        1,
    );
    assert_eq!(v.get_jwk_key_json_by_kid("b").unwrap().get_str("n"), Some(&"2".to_string()));
    assert_eq!(v.get_jwk_key_json_by_alg("RS256").unwrap().get_str("n"), Some(&"1".to_string()));
    assert_eq!(v.get_jwk_key_json_by_alg("ES256").unwrap().get_str("n"), Some(&"3".to_string()));
    assert!(v.get_jwk_key_json_by_kid("c").is_err());
}

#[test]
fn extract_decoding_key_errors() {
    let v = AuthValidator::new("x".to_string());
    let err = |text: &str| v.extract_decoding_key(&obj(text)).err();
    assert_eq!(err(r#"{"n":"AQAB"}"#), Some(DecodingKeyError::MissingKeyType));
    assert_eq!(err(r#"{"kty":"RSA","e":"AQAB"}"#), Some(DecodingKeyError::MissingModulus));
    assert_eq!(err(r#"{"kty":"RSA","n":"AQAB"}"#), Some(DecodingKeyError::MissingExponent));
    assert_eq!(err(r#"{"kty":"RSA","n":"***","e":"AQAB"}"#), Some(DecodingKeyError::InvalidRsaComponents));
    assert_eq!(err(r#"{"kty":"EC","y":"AQAB"}"#), Some(DecodingKeyError::MissingX));
    assert_eq!(err(r#"{"kty":"EC","x":"AQAB"}"#), Some(DecodingKeyError::MissingY));
    assert_eq!(err(r#"{"kty":"EC","x":"AQAB","y":"%%"}"#), Some(DecodingKeyError::InvalidEcComponents));
    assert_eq!(err(r#"{"kty":"oct"}"#), Some(DecodingKeyError::MissingSecret));
    assert_eq!(err(r#"{"kty":"oct","k":"a+b/"}"#), Some(DecodingKeyError::InvalidSecret));
    assert_eq!(err(r#"{"kty":"OKP","x":"AQAB"}"#), Some(DecodingKeyError::UnsupportedKeyType));
    assert_eq!(err(r#"{"kty":"rsa","n":"AQAB","e":"AQAB"}"#), Some(DecodingKeyError::UnsupportedKeyType));
}

#[test]
fn extract_decoding_key_builds_valid_keys() {
    let v = AuthValidator::new("x".to_string());
    assert!(v.extract_decoding_key(&obj(r#"{"kty":"RSA","n":"AQAB","e":"AQAB"}"#)).is_ok());
    assert!(v.extract_decoding_key(&obj(r#"{"kty":"EC","x":"AQAB","y":"AQAB"}"#)).is_ok());
    assert!(v.extract_decoding_key(&obj(r#"{"kty":"oct","k":"c2VjcmV0"}"#)).is_ok());
}

#[test]
fn validate_accepts_signed_token() {
    let v = loaded_validator();
    assert!(v.validate(&bearer(&signed(Some("k1"), &good_claims(), SECRET))));
}

#[test]
fn validate_finds_key_by_alg_without_kid() {
    let v = loaded_validator();
    assert!(v.validate(&bearer(&signed(None, &good_claims(), SECRET))));
}

#[test]
fn validate_rejects_wrong_signature() {
    let v = loaded_validator();
    assert!(!v.validate(&bearer(&signed(Some("k1"), &good_claims(), b"another secret"))));
}

#[test]
fn validate_rejects_expired_token() {
    let v = loaded_validator();
    let claims = format!(r#"{{"iss":"{}","exp":1000}}"#, ISSUER);
    assert!(!v.validate(&bearer(&signed(Some("k1"), &claims, SECRET))));
}

#[test]
fn validate_rejects_other_issuer() {
    let v = loaded_validator();
    let claims = r#"{"iss":"https://evil.example","exp":4000000000}"#;
    assert!(!v.validate(&bearer(&signed(Some("k1"), claims, SECRET))));
}

#[test]
fn validate_checks_audience_when_configured() {
    let mut v = loaded_validator();
    v.set_audience(strings(&["api", "web"]));
    assert!(v.validate(&bearer(&signed(Some("k1"), &good_claims(), SECRET))));
    v.set_audience(strings(&["other"]));
    assert!(!v.validate(&bearer(&signed(Some("k1"), &good_claims(), SECRET))));
}

#[test]
fn validate_checks_scopes_when_configured() {
    let mut v = loaded_validator();
    v.set_scopes(strings(&["admin", "write"]));
    assert!(v.validate(&bearer(&signed(Some("k1"), &good_claims(), SECRET))));
    v.set_scopes(strings(&["admin"]));
    assert!(!v.validate(&bearer(&signed(Some("k1"), &good_claims(), SECRET))));
    let scp = format!(r#"{{"iss":"{}","exp":4000000000,"scp":["admin"]}}"#, ISSUER);
    assert!(v.validate(&bearer(&signed(Some("k1"), &scp, SECRET))));
}

#[test]
fn validate_needs_loaded_matching_key() {
    let v = AuthValidator::new(ISSUER.to_string());
    assert!(!v.validate(&bearer(&signed(Some("k1"), &good_claims(), SECRET))));
    let w = loaded_validator();
    assert!(!w.validate(&bearer(&signed(Some("unknown"), &good_claims(), SECRET))));
    assert!(!w.validate(&bearer(&signed(Some("rsa1"), &good_claims(), SECRET))));
}

#[test]
fn validate_needs_bearer_token() {
    let v = loaded_validator();
    assert!(!v.validate(&Request::new(None)));
    assert!(!v.validate(&bearer("a.b.c")));
}

#[test]
fn setters_keep_other_settings() {
    let mut v = loaded_validator();
    v.set_client_id("client".to_string());
    v.set_client_secret("secret".to_string());
    assert!(v.validate(&bearer(&signed(Some("k1"), &good_claims(), SECRET))));
    assert!(!v.jwks_is_stale(2));
}

#[test]
fn accepts_checked_claims_decides_on_scopes() {
    let mut v = AuthValidator::new(ISSUER.to_string());
    assert!(!v.accepts_checked_claims(None));
    assert!(v.accepts_checked_claims(Some("{}".to_string())));
    v.set_scopes(strings(&["read"]));
    assert!(!v.accepts_checked_claims(None));
    assert!(v.accepts_checked_claims(Some(r#"{"scope":"openid read"}"#.to_string())));
    assert!(v.accepts_checked_claims(Some(r#"{"scp":["x","read"]}"#.to_string())));
    assert!(!v.accepts_checked_claims(Some(r#"{"scp":"write"}"#.to_string())));
    assert!(!v.accepts_checked_claims(Some(r#"{"scope":5,"scp":"read"}"#.to_string())));
    assert!(!v.accepts_checked_claims(Some("not json".to_string())));
}

#[test]
fn load_steps_for_a_new_validator() {
    let v = AuthValidator::new("https://issuer.example/".to_string());
    match v.openid_config_step(10) {
        LoadStep::FetchOpenIdConfig(u) => assert_eq!(u, "https://issuer.example/.well-known/openid-configuration"),
        other => panic!("unexpected step {:?}", other),
    }
    match v.jwks_step(10) {
        LoadStep::FetchOpenIdConfig(u) => assert_eq!(u, "https://issuer.example/.well-known/openid-configuration"),
        other => panic!("unexpected step {:?}", other),
    }
    let empty = AuthValidator::new(String::new());
    assert!(matches!(empty.jwks_step(10), LoadStep::Failed(LoadError::IssuerEmpty)));
    assert!(matches!(empty.openid_config_step(10), LoadStep::Failed(LoadError::IssuerEmpty)));
}

#[test]
fn load_steps_after_config_is_stored() {
    let mut v = AuthValidator::new("https://issuer.example".to_string());
    v.store_openid_config(obj(r#"{"jwks_uri":"https://issuer.example/certs"}"#), 100);
    assert!(matches!(v.openid_config_step(100), LoadStep::Fresh));
    match v.jwks_step(100) {
        LoadStep::FetchJwks(u) => assert_eq!(u, "https://issuer.example/certs"),
        other => panic!("unexpected step {:?}", other),
    }
    v.store_jwks(Jwks::Keys(Vec::new()), 100);
    assert!(matches!(v.jwks_step(100), LoadStep::Fresh));
    assert!(matches!(v.jwks_step(100 + 180_000_000_001), LoadStep::FetchOpenIdConfig(_)));
    v.store_openid_config(obj("{}"), 200);
    assert!(matches!(v.jwks_step(200 + 180_000_000_000), LoadStep::Failed(LoadError::MissingJwksUri)));
}

#[test]
fn extract_decoding_key_gives_exact_material() {
    let v = AuthValidator::new("x".to_string());
    assert_eq!(
        v.extract_decoding_key(&obj(r#"{"kty":"oct","k":"c2VjcmV0"}"#)),
        Ok(KeyMaterial::Secret(b"secret".to_vec()))
    );
    assert_eq!(
        v.extract_decoding_key(&obj(r#"{"kty":"RSA","n":"AQID","e":"AQAB"}"#)),
        Ok(KeyMaterial::Rsa { n: "AQID".to_string(), e: "AQAB".to_string() })
    );
    assert_eq!(
        v.extract_decoding_key(&obj(r#"{"kty":"EC","x":"AQID","y":"BAUG","crv":"P-256"}"#)),
        Ok(KeyMaterial::Ec { x: "AQID".to_string(), y: "BAUG".to_string() })
    );
}

#[test]
fn validate_checks_signature_with_the_selected_key() {
    let mut v = AuthValidator::new(ISSUER.to_string());
    v.store_jwks(
        Jwks::Keys(vec![oct_key("k1", "HS256", b"first secret"), oct_key("k2", "HS256", SECRET)]),
        1,
    );
    assert!(v.validate(&bearer(&signed(Some("k2"), &good_claims(), SECRET))));
    assert!(!v.validate(&bearer(&signed(Some("k1"), &good_claims(), SECRET))));
    assert!(!v.validate(&bearer(&signed(None, &good_claims(), SECRET))));
    assert!(v.validate(&bearer(&signed(None, &good_claims(), b"first secret"))));
}

#[test]
fn jwks_parse_reads_keys_member() {
    match Jwks::parse(r#"{"keys":[{"kid":"a","kty":"oct"},5,{"kid":"b"}]}"#) {
        Some(Jwks::Keys(keys)) => {
            assert_eq!(keys.len(), 3);
            assert_eq!(keys[0].get_str("kid"), Some(&"a".to_string()));
            assert_eq!(keys[1].fields.len(), 0);
            assert_eq!(keys[2].get_str("kid"), Some(&"b".to_string()));
        }
        other => panic!("unexpected {:?}", other),
    }
    assert!(matches!(Jwks::parse(r#"{"other":[]}"#), Some(Jwks::NoKeys)));
    assert!(matches!(Jwks::parse(r#"{"keys":{"kid":"a"}}"#), Some(Jwks::KeysNotArray)));
    assert!(matches!(Jwks::parse("[1]"), Some(Jwks::NoKeys)));
    assert!(Jwks::parse("{\"keys\":").is_none());
}

#[test]
fn jwks_parse_then_lookup() {
    let mut v = AuthValidator::new("x".to_string());
    let jwks = Jwks::parse(r#"{"keys":[{"kid":"k","kty":"oct","k":"c2VjcmV0"}]}"#).unwrap();
    v.store_jwks(jwks, 1);
    let key = v.get_jwk_key_json_by_kid("k").unwrap();
    assert_eq!(v.extract_decoding_key(key), Ok(KeyMaterial::Secret(b"secret".to_vec())));
}

#[test]
fn signature_check_picks_key_and_audiences() {
    let mut v = loaded_validator();
    let with_kid = signed(Some("k1"), &good_claims(), SECRET);
    let check = v.signature_check(&bearer(&with_kid)).unwrap();
    assert_eq!(check.token, with_kid);
    assert_eq!(check.key, KeyMaterial::Secret(SECRET.to_vec()));
    assert_eq!(check.alg, "HS256");
    assert_eq!(check.audiences, None);
    let no_kid = signed(None, &good_claims(), SECRET);
    assert_eq!(v.signature_check(&bearer(&no_kid)).unwrap().key, KeyMaterial::Secret(SECRET.to_vec()));
    v.set_audience(strings(&["api"]));
    assert_eq!(v.signature_check(&bearer(&with_kid)).unwrap().audiences, Some(strings(&["api"])));
}

#[test]
fn signature_check_refusals() {
    let v = loaded_validator();
    assert_eq!(
        v.signature_check(&Request::new(None)).unwrap_err(),
        ValidateError::Token(TokenError::MissingHeader)
    );
    assert_eq!(v.signature_check(&bearer("no-dots")).unwrap_err(), ValidateError::Header);
    assert_eq!(
        v.signature_check(&bearer(&signed(Some("zz"), &good_claims(), SECRET))).unwrap_err(),
        ValidateError::Key(KeyLookupError::NoMatchingKey)
    );
    assert_eq!(
        v.signature_check(&bearer(&signed(Some("rsa1"), &good_claims(), SECRET))).unwrap_err(),
        ValidateError::Material(DecodingKeyError::MissingModulus)
    );
    let empty = AuthValidator::new(ISSUER.to_string());
    assert_eq!(
        empty.signature_check(&bearer(&signed(Some("k1"), &good_claims(), SECRET))).unwrap_err(),
        ValidateError::Key(KeyLookupError::JwksNotLoaded)
    );
}

#[test]
fn validate_ignores_client_credentials() {
    let mut v = loaded_validator();
    let token = signed(Some("k1"), &good_claims(), SECRET);
    assert!(v.validate(&bearer(&token)));
    v.set_client_id("someone".to_string());
    v.set_client_secret("hunter2".to_string());
    assert!(v.validate(&bearer(&token)));
}
