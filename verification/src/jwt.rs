//! The calls into `jsonwebtoken`: reading a token's header, building the
//! key that checks a signature, and decoding a token's claims.

use vstd::prelude::*;
use jsonwebtoken::DecodingKey;
use crate::json::{member, parsed_json_object, JsonFieldView};
use crate::text::string_views;

verus! {

#[verifier::external_type_specification]
#[verifier::external_body]
pub struct ExJwtError(jsonwebtoken::errors::Error);

/// The parts of a JWT header the authorization logic reads.
#[derive(Debug, Clone)]
pub struct JwtHeader {
    /// The algorithm, by its name (`RS256`, `HS256`, `EdDSA`, ...).
    pub alg: String,
    /// The key id, when the header names one.
    pub kid: Option<String>,
}

impl View for JwtHeader {
    type V = (Seq<char>, Option<Seq<char>>);

    open spec fn view(&self) -> (Seq<char>, Option<Seq<char>>) {
        (self.alg@, self.kid.deep_view())
    }
}

/// The part of `token` before its last `.`, which carries the header and
/// the payload and is what the signature signs; `None` when `token` has no
/// `.`. `jsonwebtoken` reads it by `token.rsplitn(2, '.')`.
pub open spec fn signed_part(token: Seq<char>) -> Option<Seq<char>>
    decreases token.len(),
{
    if token.len() == 0 {
        None
    } else if token.last() == '.' {
        Some(token.drop_last())
    } else {
        signed_part(token.drop_last())
    }
}

/// The algorithm name and key id that `jsonwebtoken::decode_header` reads
/// from the signed part `signed` of a token, or `None` when it rejects it.
pub uninterp spec fn decoded_jwt_header(signed: Seq<char>) -> Option<(Seq<char>, Option<Seq<char>>)>;

/// The header `jsonwebtoken::decode_header` reads from `token`.
pub open spec fn token_header(token: Seq<char>) -> Option<(Seq<char>, Option<Seq<char>>)> {
    match signed_part(token) {
        None => None,
        Some(signed) => decoded_jwt_header(signed),
    }
}

/// `jsonwebtoken::decode_header`, with the algorithm given by the name its
/// `Debug` form prints. As its source shows, it splits off the text after
/// the last `.` and reads only what comes before; the contract claims that
/// the outcome is a function of that part alone, named `decoded_jwt_header`.
#[verifier::external_body]
pub(crate) fn jwt_header(token: &str) -> (r: Result<JwtHeader, jsonwebtoken::errors::Error>)
    ensures
        r is Ok <==> (signed_part(token@) matches Some(signed) && decoded_jwt_header(signed) is Some),
        r matches Ok(h) ==> (signed_part(token@) matches Some(signed) && decoded_jwt_header(signed) == Some(h@)),
{
    let header = jsonwebtoken::decode_header(token)?;
    Ok(JwtHeader { alg: format!("{:?}", header.alg), kid: header.kid })
}

/// The key material of a key-set entry, as the signature check receives it.
#[derive(Debug, Clone, PartialEq)]
pub enum KeyMaterial {
    /// An RSA public key: modulus and exponent, base64url without padding.
    Rsa { n: String, e: String },
    /// An elliptic-curve public key: its coordinates, base64url without padding.
    Ec { x: String, y: String },
    /// The bytes of a shared HMAC secret.
    Secret(Vec<u8>),
}

/// The mathematical value of a [`KeyMaterial`].
pub enum KeyMaterialView {
    Rsa(Seq<char>, Seq<char>),
    Ec(Seq<char>, Seq<char>),
    Secret(Seq<u8>),
}

impl View for KeyMaterial {
    type V = KeyMaterialView;

    open spec fn view(&self) -> KeyMaterialView {
        match self {
            KeyMaterial::Rsa { n, e } => KeyMaterialView::Rsa(n@, e@),
            KeyMaterial::Ec { x, y } => KeyMaterialView::Ec(x@, y@),
            KeyMaterial::Secret(k) => KeyMaterialView::Secret(k@),
        }
    }
}

/// Whether `jsonwebtoken`'s signature check under `Validation::new(alg)`
/// passes for `token` with the key that `DecodingKey::from_rsa_components`,
/// `from_ec_components` or `from_secret` builds from `key`: the key's family
/// fits `alg`, the token's header names `alg`, and the signature verifies.
pub uninterp spec fn signature_accepted(token: Seq<char>, key: KeyMaterialView, alg: Seq<char>) -> bool;

/// Every item of `items` is a string.
pub open spec fn all_strings(items: Seq<Option<Seq<char>>>) -> bool {
    forall|i: int| 0 <= i < items.len() ==> (#[trigger] items[i]) is Some
}

/// The `iss` check of `jsonwebtoken` once `set_issuer(&[issuer])` is called:
/// a string `iss` must be `issuer`, an array of strings must contain it, and
/// an absent `iss` or one of another type is not checked.
pub open spec fn issuer_accepted(claims: Seq<JsonFieldView>, issuer: Seq<char>) -> bool {
    match member(claims, "iss"@) {
        None => true,
        Some(f) => match f.string {
            Some(s) => s == issuer,
            None => match f.items {
                Some(items) => all_strings(items) ==> items.contains(Some(issuer)),
                None => true,
            },
        },
    }
}

/// The `aud` check of `jsonwebtoken` once `set_audience(audiences)` is
/// called: a string `aud` must be one of `audiences`, an array of strings
/// must share one with them, and an absent `aud` or one of another type is
/// not checked.
pub open spec fn audience_accepted(claims: Seq<JsonFieldView>, audiences: Seq<Seq<char>>) -> bool {
    match member(claims, "aud"@) {
        None => true,
        Some(f) => match f.string {
            Some(s) => audiences.contains(s),
            None => match f.items {
                Some(items) => all_strings(items) ==> exists|i: int|
                    0 <= i < items.len() && audiences.contains(#[trigger] items[i]->Some_0),
                None => true,
            },
        },
    }
}

/// What a token's signature and claims are checked with: the token, the
/// key material, the algorithm by name, and the accepted audiences (`None`
/// when the audience is not checked).
#[derive(Debug, Clone)]
pub struct SignatureCheck {
    pub token: String,
    pub key: KeyMaterial,
    pub alg: String,
    pub audiences: Option<Vec<String>>,
}

/// The mathematical value of a [`SignatureCheck`].
pub struct SignatureCheckView {
    pub token: Seq<char>,
    pub key: KeyMaterialView,
    pub alg: Seq<char>,
    pub audiences: Option<Seq<Seq<char>>>,
}

impl View for SignatureCheck {
    type V = SignatureCheckView;

    open spec fn view(&self) -> SignatureCheckView {
        SignatureCheckView {
            token: self.token@,
            key: self.key@,
            alg: self.alg@,
            audiences: match self.audiences {
                Some(a) => Some(string_views(a@)),
                None => None,
            },
        }
    }
}

/// `jsonwebtoken::decode::<serde_json::Value>` of `check.token` with the key
/// built from `check.key` (`DecodingKey::from_rsa_components`,
/// `from_ec_components` or `from_secret`), under `Validation::new(alg)` with
/// `set_issuer(&[issuer])`, and `set_audience(audiences)` when
/// `check.audiences` is `Some`, `validate_aud = false` when it is `None`; on
/// success the claims, serialised by `Value::to_string`. Whether it succeeds
/// also depends on the current time (expiry is checked), so success is not
/// promised; the source panics when the system clock reads before the Unix
/// epoch, which no argument can rule out. The contract claims what the
/// source shows of a success: the signature check passed for that key, the
/// claims are those the unchecked decoding reads from the token, and they
/// pass the issuer check and, when audiences are given, the audience check.
#[verifier::external_body]
pub(crate) fn verify_token(check: &SignatureCheck, issuer: &str) -> (r: Result<String, jsonwebtoken::errors::Error>)
    ensures
        r is Ok ==> signature_accepted(check.token@, check.key@, check.alg@),
        r matches Ok(c) ==> unverified_claims(check.token@, check.alg@) == Some(c@),
        r matches Ok(c) ==> (parsed_json_object(c@) matches Some(claims) && issuer_accepted(claims, issuer@)
            && (check@.audiences is Some ==> audience_accepted(claims, check@.audiences->Some_0))),
{
    let key = match &check.key {
        KeyMaterial::Rsa { n, e } => DecodingKey::from_rsa_components(n, e)?,
        KeyMaterial::Ec { x, y } => DecodingKey::from_ec_components(x, y)?,
        KeyMaterial::Secret(k) => DecodingKey::from_secret(k),
    };
    let mut validation = jsonwebtoken::Validation::new(check.alg.parse()?);
    validation.set_issuer(&[issuer]);
    match &check.audiences {
        Some(audiences) => validation.set_audience(audiences),
        None => validation.validate_aud = false,
    }
    let data = jsonwebtoken::decode::<serde_json::Value>(&check.token, &key, &validation)?;
    Ok(data.claims.to_string())
}

/// The claims, serialised by `Value::to_string`, that
/// `jsonwebtoken::decode::<serde_json::Value>` reads from the signed part
/// `signed` of a token when the signature, expiry and audience are not
/// checked, with `alg` given by name; `None` when it rejects the token.
pub uninterp spec fn unverified_claims_text(signed: Seq<char>, alg: Seq<char>) -> Option<Seq<char>>;

/// The claims the unchecked decoding reads from `token`.
pub open spec fn unverified_claims(token: Seq<char>, alg: Seq<char>) -> Option<Seq<char>> {
    match signed_part(token) {
        None => None,
        Some(signed) => unverified_claims_text(signed, alg),
    }
}

/// `jsonwebtoken::decode::<serde_json::Value>` under `Validation::new(alg)`
/// with the signature check disabled, `validate_exp = false`,
/// `validate_aud = false`, and the key `DecodingKey::from_secret(&[])`; on
/// success the claims, serialised by `Value::to_string`. With these settings
/// the source reads no clock and, after splitting off the text after the
/// last `.`, does not look at it; the contract claims that the outcome is a
/// function of the part before it and `alg` alone, named
/// `unverified_claims_text`.
#[verifier::external_body]
pub(crate) fn decode_unverified(token: &str, alg: &str) -> (r: Result<String, jsonwebtoken::errors::Error>)
    ensures
        r is Ok <==> (signed_part(token@) matches Some(signed) && unverified_claims_text(signed, alg@) is Some),
        r matches Ok(c) ==> (signed_part(token@) matches Some(signed) && unverified_claims_text(signed, alg@)
            == Some(c@)),
{
    let mut validation = jsonwebtoken::Validation::new(alg.parse()?);
    validation.insecure_disable_signature_validation();
    validation.validate_exp = false;
    validation.validate_aud = false;
    let key = jsonwebtoken::DecodingKey::from_secret(&[]);
    let data = jsonwebtoken::decode::<serde_json::Value>(token, &key, &validation)?;
    Ok(data.claims.to_string())
}

} // verus!
