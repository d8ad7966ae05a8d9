//! The validator: its configuration, its cache of the authorization
//! server's documents and of the policies, and the two checks it makes on a
//! request, token validation and policy enforcement.

use vstd::prelude::*;
use crate::codec::{base64_url_decode, base64_url_decoded};
use crate::json::{items_reparse, member, member_string, parsed_json_object, JsonFieldView, JsonObject};
use crate::jwt::{
    audience_accepted, decode_unverified, issuer_accepted, jwt_header, signature_accepted, token_header,
    unverified_claims, verify_token, KeyMaterial, KeyMaterialView, SignatureCheck, SignatureCheckView,
};
use crate::policies::PolicySet;
use crate::policy::{
    collected_permissions, policy_grants, policy_satisfied, present_strings, push_present_strings, user_permissions,
};
use crate::request::{token_of, AuthToken, Request, TokenError};
use crate::text::{split_words, str_equal, strictly_sorted, string_views, words};

verus! {

/// The key set published at the authorization server's `jwks_uri`, as the
/// validator reads it: its `keys` member.
#[derive(Debug, Clone)]
pub enum Jwks {
    /// The document has no `keys` member.
    NoKeys,
    /// Its `keys` member is not an array.
    KeysNotArray,
    /// The items of its `keys` array, each read as an object.
    Keys(Vec<JsonObject>),
}

pub enum JwksView {
    NoKeys,
    KeysNotArray,
    Keys(Seq<Seq<JsonFieldView>>),
}

impl View for Jwks {
    type V = JwksView;

    open spec fn view(&self) -> JwksView {
        match self {
            Jwks::NoKeys => JwksView::NoKeys,
            Jwks::KeysNotArray => JwksView::KeysNotArray,
            Jwks::Keys(keys) => JwksView::Keys(keys@.map_values(|k: JsonObject| k@)),
        }
    }
}

/// The key set of a JWKS document with members `document`: its `keys`
/// member, each item read as an object.
pub open spec fn jwks_of_document(document: Seq<JsonFieldView>) -> JwksView {
    match member(document, "keys"@) {
        None => JwksView::NoKeys,
        Some(f) => match f.item_texts {
            None => JwksView::KeysNotArray,
            Some(texts) => JwksView::Keys(texts.map_values(|t: Seq<char>| parsed_json_object(t).unwrap())),
        },
    }
}

impl Jwks {
    /// Reads a JWKS document: `None` when `text` is not JSON, else the items
    /// of its `keys` member, each read as an object.
    pub fn parse(text: &str) -> (r: Option<Jwks>)
        ensures
            match r {
                None => parsed_json_object(text@) is None,
                Some(j) => parsed_json_object(text@) matches Some(doc) && j@ == jwks_of_document(doc),
            },
    {
        let document = match JsonObject::parse(text) {
            Some(d) => d,
            None => return None,
        };
        let keys = match document.get("keys") {
            Some(f) => f,
            None => return Some(Jwks::NoKeys),
        };
        proof {
            crate::json::lemma_member_is_a_member(document@, "keys"@);
        }
        let texts = match &keys.item_texts {
            Some(t) => t,
            None => return Some(Jwks::KeysNotArray),
        };
        let ghost want = texts@.map_values(|t: String| t@).map_values(|t: Seq<char>| parsed_json_object(t).unwrap());
        let n = texts.len();
        let mut out: Vec<JsonObject> = Vec::new();
        let mut i: usize = 0;
        while i < n
            invariant
                n == texts@.len(),
                i <= n,
                keys@.item_texts == Some(texts.deep_view()),
                items_reparse(document@),
                document@.contains(keys@),
                want == texts@.map_values(|t: String| t@).map_values(|t: Seq<char>| parsed_json_object(t).unwrap()),
                out@.map_values(|k: JsonObject| k@) == want.take(i as int),
            decreases n - i,
        {
            proof {
                let k = choose|k: int| 0 <= k < document@.len() && document@[k] == keys@;
                assert(texts.deep_view()[i as int] == texts@[i as int]@);
                assert(document@[k].item_texts->Some_0[i as int] == texts@[i as int]@);
                assert(parsed_json_object(document@[k].item_texts->Some_0[i as int]) is Some);
            }
            let item = match JsonObject::parse(texts[i].as_str()) {
                Some(o) => o,
                None => return None,
            };
            let ghost before = out@.map_values(|k: JsonObject| k@);
            out.push(item);
            assert(out@.map_values(|k: JsonObject| k@) =~= before.push(item@));
            assert(want.take(i + 1) =~= want.take(i as int).push(want[i as int]));
            i = i + 1;
        }
        assert(want.take(n as int) =~= want);
        assert(texts.deep_view() =~= texts@.map_values(|t: String| t@));
        assert(jwks_of_document(document@) == JwksView::Keys(want));
        Some(Jwks::Keys(out))
    }
}

/// Why a document cannot be fetched.
#[derive(Debug, Clone, Copy, PartialEq, Eq, Structural)]
pub enum LoadError {
    /// The issuer is the empty string.
    IssuerEmpty,
    /// The openid-configuration has not been loaded.
    OpenIdConfigNotLoaded,
    /// The openid-configuration has no string `jwks_uri`.
    MissingJwksUri,
}

/// Why no key of the key set fits a token.
#[derive(Debug, Clone, Copy, PartialEq, Eq, Structural)]
pub enum KeyLookupError {
    /// The key set has not been loaded.
    JwksNotLoaded,
    /// The key set has no `keys` member.
    MissingKeys,
    /// Its `keys` member is not an array.
    KeysNotArray,
    /// No key has the requested value.
    NoMatchingKey,
}

/// Why a key of the key set cannot check signatures.
#[derive(Debug, Clone, Copy, PartialEq, Eq, Structural)]
pub enum DecodingKeyError {
    MissingKeyType,
    MissingModulus,
    MissingExponent,
    InvalidRsaComponents,
    MissingX,
    MissingY,
    InvalidEcComponents,
    MissingSecret,
    InvalidSecret,
    UnsupportedKeyType,
}

/// What keeping a document fresh asks for next.
#[derive(Debug, Clone)]
pub enum LoadStep {
    /// The document is fresh; nothing to fetch.
    Fresh,
    /// Fetch the openid-configuration from this address and store it.
    FetchOpenIdConfig(String),
    /// Fetch the key set from this address and store it.
    FetchJwks(String),
    /// The document cannot be fetched.
    Failed(LoadError),
}

struct AuthValidatorCache {
    openid_config: Option<JsonObject>,
    openid_config_loaded_at: Option<u128>,
    jwks: Option<Jwks>,
    jwks_loaded_at: Option<u128>,
    policies: PolicySet,
}

/// Validates bearer tokens against an OpenID Connect authorization server
/// and enforces named access policies.
pub struct AuthValidator {
    issuer: String,
    audiences: Vec<String>,
    client_id: Option<String>,
    client_secret: Option<String>,
    scopes: Vec<String>,
    cache: AuthValidatorCache,
}

/// The state of an [`AuthValidator`]; times are nanoseconds since the Unix epoch.
pub struct AuthValidatorView {
    pub issuer: Seq<char>,
    pub audiences: Seq<Seq<char>>,
    pub client_id: Option<Seq<char>>,
    pub client_secret: Option<Seq<char>>,
    pub scopes: Seq<Seq<char>>,
    pub openid_config: Option<Seq<JsonFieldView>>,
    pub openid_config_loaded_at: Option<u128>,
    pub jwks: Option<JwksView>,
    pub jwks_loaded_at: Option<u128>,
    pub policies: Map<Seq<char>, Seq<Seq<Seq<char>>>>,
}

impl View for AuthValidator {
    type V = AuthValidatorView;

    closed spec fn view(&self) -> AuthValidatorView {
        AuthValidatorView {
            issuer: self.issuer@,
            audiences: string_views(self.audiences@),
            client_id: self.client_id.deep_view(),
            client_secret: self.client_secret.deep_view(),
            scopes: string_views(self.scopes@),
            openid_config: match self.cache.openid_config {
                Some(c) => Some(c@),
                None => None,
            },
            openid_config_loaded_at: self.cache.openid_config_loaded_at,
            jwks: match self.cache.jwks {
                Some(j) => Some(j@),
                None => None,
            },
            jwks_loaded_at: self.cache.jwks_loaded_at,
            policies: self.cache.policies.view(),
        }
    }
}

/// How long a fetched document stays fresh: 180 seconds, in nanoseconds.
pub open spec fn max_age() -> int {
    180_000_000_000
}

/// A document is fetched again when it was never loaded, when its load time
/// is unknown or later than `now`, or when it is older than [`max_age`].
pub open spec fn is_stale(loaded: bool, loaded_at: Option<u128>, now: u128) -> bool {
    !loaded || match loaded_at {
        None => true,
        Some(t) => now < t || now - t > max_age(),
    }
}

fn stale(loaded: bool, loaded_at: Option<u128>, now: u128) -> (r: bool)
    ensures
        r == is_stale(loaded, loaded_at, now),
{
    if !loaded {
        return true;
    }
    match loaded_at {
        None => true,
        Some(t) => now < t || now - t > 180_000_000_000,
    }
}

/// `s` without its trailing `/` characters.
pub open spec fn trim_trailing_slashes(s: Seq<char>) -> Seq<char>
    decreases s.len(),
{
    if s.len() > 0 && s.last() == '/' {
        trim_trailing_slashes(s.drop_last())
    } else {
        s
    }
}

/// The address of the issuer's openid-configuration.
pub open spec fn openid_config_url_of(issuer: Seq<char>) -> Result<Seq<char>, LoadError> {
    if issuer.len() == 0 {
        Err(LoadError::IssuerEmpty)
    } else {
        Ok(trim_trailing_slashes(issuer) + "/.well-known/openid-configuration"@)
    }
}

/// The address of the key set named by the cached openid-configuration.
pub open spec fn jwks_uri_of(config: Option<Seq<JsonFieldView>>) -> Result<Seq<char>, LoadError> {
    match config {
        None => Err(LoadError::OpenIdConfigNotLoaded),
        Some(c) => match member_string(c, "jwks_uri"@) {
            None => Err(LoadError::MissingJwksUri),
            Some(u) => Ok(u),
        },
    }
}

/// The first key whose member `field` is the string `value`.
pub open spec fn first_key_with(keys: Seq<Seq<JsonFieldView>>, field: Seq<char>, value: Seq<char>) -> Option<Seq<JsonFieldView>>
    decreases keys.len(),
{
    if keys.len() == 0 {
        None
    } else if member_string(keys[0], field) == Some(value) {
        Some(keys[0])
    } else {
        first_key_with(keys.drop_first(), field, value)
    }
}

/// The key of the cached key set whose member `field` is `value`.
pub open spec fn jwk_lookup(jwks: Option<JwksView>, field: Seq<char>, value: Seq<char>) -> Result<Seq<JsonFieldView>, KeyLookupError> {
    match jwks {
        None => Err(KeyLookupError::JwksNotLoaded),
        Some(JwksView::NoKeys) => Err(KeyLookupError::MissingKeys),
        Some(JwksView::KeysNotArray) => Err(KeyLookupError::KeysNotArray),
        Some(JwksView::Keys(keys)) => match first_key_with(keys, field, value) {
            None => Err(KeyLookupError::NoMatchingKey),
            Some(k) => Ok(k),
        },
    }
}

/// The key material that the key-set entry `key` describes, or why it
/// describes none: RSA from `n` and `e`, EC from `x` and `y` (each must be
/// base64url without padding, as `DecodingKey::from_rsa_components` and
/// `from_ec_components` require), and a shared secret from the base64url `k`.
pub open spec fn key_material_of(key: Seq<JsonFieldView>) -> Result<KeyMaterialView, DecodingKeyError> {
    match member_string(key, "kty"@) {
        None => Err(DecodingKeyError::MissingKeyType),
        Some(kty) => if kty == "RSA"@ {
            match member_string(key, "n"@) {
                None => Err(DecodingKeyError::MissingModulus),
                Some(n) => match member_string(key, "e"@) {
                    None => Err(DecodingKeyError::MissingExponent),
                    Some(e) => if base64_url_decoded(n) is Some && base64_url_decoded(e) is Some {
                        Ok(KeyMaterialView::Rsa(n, e))
                    } else {
                        Err(DecodingKeyError::InvalidRsaComponents)
                    },
                },
            }
        } else if kty == "EC"@ {
            match member_string(key, "x"@) {
                None => Err(DecodingKeyError::MissingX),
                Some(x) => match member_string(key, "y"@) {
                    None => Err(DecodingKeyError::MissingY),
                    Some(y) => if base64_url_decoded(x) is Some && base64_url_decoded(y) is Some {
                        Ok(KeyMaterialView::Ec(x, y))
                    } else {
                        Err(DecodingKeyError::InvalidEcComponents)
                    },
                },
            }
        } else if kty == "oct"@ {
            match member_string(key, "k"@) {
                None => Err(DecodingKeyError::MissingSecret),
                Some(k) => match base64_url_decoded(k) {
                    Some(bytes) => Ok(KeyMaterialView::Secret(bytes)),
                    None => Err(DecodingKeyError::InvalidSecret),
                },
            }
        } else {
            Err(DecodingKeyError::UnsupportedKeyType)
        },
    }
}

/// The scopes a token grants: its `scope` member, else its `scp` member,
/// split at white space when a string, its strings when an array.
pub open spec fn token_scopes_of(claims: Seq<JsonFieldView>) -> Seq<Seq<char>> {
    let f = match crate::json::member(claims, "scope"@) {
        Some(f) => Some(f),
        None => crate::json::member(claims, "scp"@),
    };
    match f {
        None => seq![],
        Some(f) => match f.string {
            Some(s) => words(s),
            None => match f.items {
                Some(items) => present_strings(items),
                None => seq![],
            },
        },
    }
}

/// Some scope of `required` is among the scopes the claims grant.
pub open spec fn scope_granted(required: Seq<Seq<char>>, claims: Seq<JsonFieldView>) -> bool {
    exists|i: int| 0 <= i < required.len() && token_scopes_of(claims).contains(#[trigger] required[i])
}

/// The scopes the claims grant.
pub fn token_scopes(claims: &JsonObject) -> (r: Vec<String>)
    ensures
        string_views(r@) == token_scopes_of(claims@),
{
    let f = match claims.get("scope") {
        Some(f) => Some(f),
        None => claims.get("scp"),
    };
    match f {
        None => {
            let r: Vec<String> = Vec::new();
            assert(string_views(r@) =~= Seq::<Seq<char>>::empty());
            r
        },
        Some(f) => match &f.string {
            Some(s) => split_words(s.as_str()),
            None => match &f.items {
                Some(items) => {
                    let mut out: Vec<String> = Vec::new();
                    assert(string_views(out@) =~= Seq::<Seq<char>>::empty());
                    push_present_strings(&mut out, items);
                    assert(Seq::<Seq<char>>::empty() + present_strings(items.deep_view()) =~= present_strings(
                        items.deep_view(),
                    ));
                    out
                },
                None => {
                    let r: Vec<String> = Vec::new();
                    assert(string_views(r@) =~= Seq::<Seq<char>>::empty());
                    r
                },
            },
        },
    }
}

/// Whether the claims grant one of the scopes in `required`.
pub fn has_required_scope(required: &Vec<String>, claims: &JsonObject) -> (r: bool)
    ensures
        r == scope_granted(string_views(required@), claims@),
{
    let granted = token_scopes(claims);
    let n = required.len();
    let mut i: usize = 0;
    while i < n
        invariant
            n == required@.len(),
            i <= n,
            string_views(granted@) == token_scopes_of(claims@),
            forall|j: int| 0 <= j < i ==> !token_scopes_of(claims@).contains(#[trigger] string_views(required@)[j]),
        decreases n - i,
    {
        if crate::policy::holds(&granted, &required[i]) {
            assert(string_views(required@)[i as int] == required@[i as int]@);
            return true;
        }
        i = i + 1;
    }
    false
}

/// What a policy check on `name` decides for a request whose
/// `Authorization` header is `header`.
pub open spec fn policy_decision(v: AuthValidatorView, name: Seq<char>, header: Option<Seq<u8>>) -> bool {
    if !v.policies.contains_key(name) {
        false
    } else if v.policies[name].len() == 0 {
        true
    } else {
        match token_of(header) {
            Err(_) => false,
            Ok(token) => match token_header(token) {
                None => false,
                Some(h) => if h.1 is None {
                    false
                } else {
                    match unverified_claims(token, h.0) {
                        None => false,
                        Some(c) => match parsed_json_object(c) {
                            None => false,
                            Some(claims) => policy_satisfied(
                                v.policies[name],
                                collected_permissions(claims).to_set(),
                            ),
                        },
                    }
                },
            },
        }
    }
}

/// The key of the cached key set a token with header `h` is checked with:
/// the key with the header's key id, else the key for the header's algorithm.
pub open spec fn key_for_header(v: AuthValidatorView, h: (Seq<char>, Option<Seq<char>>)) -> Result<Seq<JsonFieldView>, KeyLookupError> {
    match h.1 {
        Some(kid) => jwk_lookup(v.jwks, "kid"@, kid),
        None => jwk_lookup(v.jwks, "alg"@, h.0),
    }
}

/// The checks a token passes, read from its claims, once `jsonwebtoken` has
/// accepted it: the issuer, the audience when audiences are configured, and
/// a required scope when scopes are configured.
pub open spec fn claims_accepted(v: AuthValidatorView, claims: Seq<JsonFieldView>) -> bool {
    &&& issuer_accepted(claims, v.issuer)
    &&& v.audiences.len() > 0 ==> audience_accepted(claims, v.audiences)
    &&& v.scopes.len() > 0 ==> scope_granted(v.scopes, claims)
}

/// Why a request's token is refused before its signature is checked.
#[derive(Debug, Clone, Copy, PartialEq, Eq, Structural)]
pub enum ValidateError {
    /// The request carries no bearer token.
    Token(TokenError),
    /// The token's header does not read.
    Header,
    /// The cached key set has no key for the token.
    Key(KeyLookupError),
    /// The key-set entry describes no usable key.
    Material(DecodingKeyError),
}

/// What the token of a request whose `Authorization` header is `header` is
/// checked with: the token, the material of the cached key with the header's
/// key id (else of the first key for the header's algorithm), the header's
/// algorithm, and the configured audiences when there are any; or the
/// first reason the token is refused before that.
pub open spec fn signature_check_of(v: AuthValidatorView, header: Option<Seq<u8>>) -> Result<SignatureCheckView, ValidateError> {
    match token_of(header) {
        Err(e) => Err(ValidateError::Token(e)),
        Ok(token) => match token_header(token) {
            None => Err(ValidateError::Header),
            Some(h) => match key_for_header(v, h) {
                Err(e) => Err(ValidateError::Key(e)),
                Ok(key) => match key_material_of(key) {
                    Err(e) => Err(ValidateError::Material(e)),
                    Ok(m) => Ok(SignatureCheckView {
                        token,
                        key: m,
                        alg: h.0,
                        audiences: if v.audiences.len() > 0 { Some(v.audiences) } else { None },
                    }),
                },
            },
        },
    }
}

/// What holds of every request that [`AuthValidator::validate`] accepts: its
/// token reaches the signature check, the signature checks out under exactly
/// the key material chosen, and the token's claims decode and pass
/// [`claims_accepted`].
pub open spec fn validation_checks_pass(v: AuthValidatorView, header: Option<Seq<u8>>) -> bool {
    match signature_check_of(v, header) {
        Err(_) => false,
        Ok(check) => {
            &&& signature_accepted(check.token, check.key, check.alg)
            &&& unverified_claims(check.token, check.alg) matches Some(c)
                && parsed_json_object(c) matches Some(claims)
                && claims_accepted(v, claims)
        },
    }
}

impl AuthValidator {
    /// A validator for tokens issued by `issuer`, with nothing configured
    /// and nothing cached.
    pub fn new(issuer: String) -> (r: AuthValidator)
        ensures
            r@.issuer == issuer@,
            r@.audiences == Seq::<Seq<char>>::empty(),
            r@.client_id is None,
            r@.client_secret is None,
            r@.scopes == Seq::<Seq<char>>::empty(),
            r@.openid_config is None,
            r@.openid_config_loaded_at is None,
            r@.jwks is None,
            r@.jwks_loaded_at is None,
            r@.policies == Map::<Seq<char>, Seq<Seq<Seq<char>>>>::empty(),
    {
        let r = AuthValidator {
            issuer,
            audiences: Vec::new(),
            client_id: None,
            client_secret: None,
            scopes: Vec::new(),
            cache: AuthValidatorCache {
                openid_config: None,
                openid_config_loaded_at: None,
                jwks: None,
                jwks_loaded_at: None,
                policies: PolicySet::new(),
            },
        };
        assert(r@.audiences =~= Seq::<Seq<char>>::empty());
        assert(r@.scopes =~= Seq::<Seq<char>>::empty());
        r
    }

    /// Accepts only tokens whose audience is one of `audiences`; any
    /// audience when it is empty.
    pub fn set_audience(&mut self, audiences: Vec<String>)
        ensures
            final(self)@ == (AuthValidatorView { audiences: string_views(audiences@), ..old(self)@ }),
    {
        self.audiences = audiences;
    }

    pub fn set_client_id(&mut self, client_id: String)
        ensures
            final(self)@ == (AuthValidatorView { client_id: Some(client_id@), ..old(self)@ }),
    {
        self.client_id = Some(client_id);
    }

    pub fn set_client_secret(&mut self, client_secret: String)
        ensures
            final(self)@ == (AuthValidatorView { client_secret: Some(client_secret@), ..old(self)@ }),
    {
        self.client_secret = Some(client_secret);
    }

    /// Accepts only tokens granting one of `scopes`; any token when it is empty.
    pub fn set_scopes(&mut self, scopes: Vec<String>)
        ensures
            final(self)@ == (AuthValidatorView { scopes: string_views(scopes@), ..old(self)@ }),
    {
        self.scopes = scopes;
    }

    /// Replaces the policies enforced by [`AuthValidator::check_policy`].
    pub fn set_policies(&mut self, policies: PolicySet)
        ensures
            final(self)@ == (AuthValidatorView { policies: policies.view(), ..old(self)@ }),
    {
        self.cache.policies = policies;
    }

    /// The policies enforced.
    pub fn policies(&self) -> (r: &PolicySet)
        ensures
            r.view() == self@.policies,
    {
        &self.cache.policies
    }

    /// Whether the openid-configuration must be fetched at time `now`.
    pub fn openid_config_is_stale(&self, now: u128) -> (r: bool)
        ensures
            r == is_stale(self@.openid_config is Some, self@.openid_config_loaded_at, now),
    {
        stale(self.cache.openid_config.is_some(), self.cache.openid_config_loaded_at, now)
    }

    /// Whether the key set must be fetched at time `now`.
    pub fn jwks_is_stale(&self, now: u128) -> (r: bool)
        ensures
            r == is_stale(self@.jwks is Some, self@.jwks_loaded_at, now),
    {
        stale(self.cache.jwks.is_some(), self.cache.jwks_loaded_at, now)
    }

    /// The address of the issuer's openid-configuration:
    /// `<issuer without trailing slashes>/.well-known/openid-configuration`.
    pub fn openid_config_url(&self) -> (r: Result<String, LoadError>)
        ensures
            match r {
                Ok(u) => openid_config_url_of(self@.issuer) == Ok::<Seq<char>, LoadError>(u@),
                Err(e) => openid_config_url_of(self@.issuer) == Err::<Seq<char>, LoadError>(e),
            },
    {
        let issuer = self.issuer.as_str();
        let n = issuer.unicode_len();
        if n == 0 {
            return Err(LoadError::IssuerEmpty);
        }
        let mut k: usize = n;
        assert(issuer@.take(n as int) =~= issuer@);
        while k > 0 && issuer.get_char(k - 1) == '/'
            invariant
                n == issuer@.len(),
                k <= n,
                trim_trailing_slashes(issuer@) == trim_trailing_slashes(issuer@.take(k as int)),
            decreases k,
        {
            assert(issuer@.take(k as int).drop_last() =~= issuer@.take(k - 1));
            k = k - 1;
        }
        let base = issuer.substring_char(0, k);
        assert(base@ =~= issuer@.take(k as int));
        let mut url = String::from_str(base);
        url.append("/.well-known/openid-configuration");
        Ok(url)
    }

    /// Caches `config` as the openid-configuration fetched at time `now`.
    pub fn store_openid_config(&mut self, config: JsonObject, now: u128)
        ensures
            final(self)@ == (AuthValidatorView {
                openid_config: Some(config@),
                openid_config_loaded_at: Some(now),
                ..old(self)@
            }),
    {
        self.cache.openid_config = Some(config);
        self.cache.openid_config_loaded_at = Some(now);
    }

    /// What keeping the openid-configuration fresh asks for at time `now`:
    /// nothing while it is fresh, else fetching it from the issuer.
    pub fn openid_config_step(&self, now: u128) -> (r: LoadStep)
        ensures
            match r {
                LoadStep::Fresh => !is_stale(self@.openid_config is Some, self@.openid_config_loaded_at, now),
                LoadStep::FetchOpenIdConfig(u) => is_stale(self@.openid_config is Some, self@.openid_config_loaded_at, now)
                    && openid_config_url_of(self@.issuer) == Ok::<Seq<char>, LoadError>(u@),
                LoadStep::Failed(e) => is_stale(self@.openid_config is Some, self@.openid_config_loaded_at, now)
                    && openid_config_url_of(self@.issuer) == Err::<Seq<char>, LoadError>(e),
                LoadStep::FetchJwks(_) => false,
            },
    {
        if !self.openid_config_is_stale(now) {
            return LoadStep::Fresh;
        }
        match self.openid_config_url() {
            Ok(u) => LoadStep::FetchOpenIdConfig(u),
            Err(e) => LoadStep::Failed(e),
        }
    }

    /// What keeping the key set fresh asks for at time `now`: nothing while
    /// it is fresh; else the openid-configuration first while that is stale;
    /// else fetching the key set from the configuration's `jwks_uri`.
    pub fn jwks_step(&self, now: u128) -> (r: LoadStep)
        ensures
            match r {
                LoadStep::Fresh => !is_stale(self@.jwks is Some, self@.jwks_loaded_at, now),
                LoadStep::FetchOpenIdConfig(u) => is_stale(self@.jwks is Some, self@.jwks_loaded_at, now)
                    && is_stale(self@.openid_config is Some, self@.openid_config_loaded_at, now)
                    && openid_config_url_of(self@.issuer) == Ok::<Seq<char>, LoadError>(u@),
                LoadStep::FetchJwks(u) => is_stale(self@.jwks is Some, self@.jwks_loaded_at, now)
                    && !is_stale(self@.openid_config is Some, self@.openid_config_loaded_at, now)
                    && jwks_uri_of(self@.openid_config) == Ok::<Seq<char>, LoadError>(u@),
                LoadStep::Failed(e) => is_stale(self@.jwks is Some, self@.jwks_loaded_at, now)
                    && if is_stale(self@.openid_config is Some, self@.openid_config_loaded_at, now) {
                        openid_config_url_of(self@.issuer) == Err::<Seq<char>, LoadError>(e)
                    } else {
                        jwks_uri_of(self@.openid_config) == Err::<Seq<char>, LoadError>(e)
                    },
            },
    {
        if !self.jwks_is_stale(now) {
            return LoadStep::Fresh;
        }
        match self.openid_config_step(now) {
            LoadStep::Fresh => match self.jwks_uri() {
                Ok(u) => LoadStep::FetchJwks(u),
                Err(e) => LoadStep::Failed(e),
            },
            step => step,
        }
    }

    /// The address of the key set, read from the cached openid-configuration.
    pub fn jwks_uri(&self) -> (r: Result<String, LoadError>)
        ensures
            match r {
                Ok(u) => jwks_uri_of(self@.openid_config) == Ok::<Seq<char>, LoadError>(u@),
                Err(e) => jwks_uri_of(self@.openid_config) == Err::<Seq<char>, LoadError>(e),
            },
    {
        match &self.cache.openid_config {
            None => Err(LoadError::OpenIdConfigNotLoaded),
            Some(config) => match config.get_str("jwks_uri") {
                None => Err(LoadError::MissingJwksUri),
                Some(u) => Ok(u.clone()),
            },
        }
    }

    /// Caches `jwks` as the key set fetched at time `now`.
    pub fn store_jwks(&mut self, jwks: Jwks, now: u128)
        ensures
            final(self)@ == (AuthValidatorView { jwks: Some(jwks@), jwks_loaded_at: Some(now), ..old(self)@ }),
    {
        self.cache.jwks = Some(jwks);
        self.cache.jwks_loaded_at = Some(now);
    }

    /// The first key of the cached key set whose member `field` is `value`.
    fn find_key(&self, field: &str, value: &str) -> (r: Result<&JsonObject, KeyLookupError>)
        ensures
            match r {
                Ok(k) => jwk_lookup(self@.jwks, field@, value@) == Ok::<Seq<JsonFieldView>, KeyLookupError>(k@),
                Err(e) => jwk_lookup(self@.jwks, field@, value@) == Err::<Seq<JsonFieldView>, KeyLookupError>(e),
            },
    {
        match &self.cache.jwks {
            None => Err(KeyLookupError::JwksNotLoaded),
            Some(Jwks::NoKeys) => Err(KeyLookupError::MissingKeys),
            Some(Jwks::KeysNotArray) => Err(KeyLookupError::KeysNotArray),
            Some(Jwks::Keys(keys)) => {
                let ghost views = keys@.map_values(|k: JsonObject| k@);
                let n = keys.len();
                let mut i: usize = 0;
                assert(views.skip(0) =~= views);
                while i < n
                    invariant
                        n == keys@.len(),
                        views == keys@.map_values(|k: JsonObject| k@),
                        self@.jwks == Some(JwksView::Keys(views)),
                        i <= n,
                        first_key_with(views, field@, value@) == first_key_with(views.skip(i as int), field@, value@),
                    decreases n - i,
                {
                    let key = &keys[i];
                    assert(views.skip(i as int)[0] == key@);
                    assert(views.skip(i as int).drop_first() =~= views.skip(i + 1));
                    match key.get_str(field) {
                        Some(v) => {
                            if str_equal(v.as_str(), value) {
                                assert(member_string(views.skip(i as int)[0], field@) == Some(value@));
                                return Ok(key);
                            }
                        },
                        None => {},
                    }
                    i = i + 1;
                }
                assert(views.skip(n as int).len() == 0);
                Err(KeyLookupError::NoMatchingKey)
            },
        }
    }

    /// The cached key with key id `key_id`.
    pub fn get_jwk_key_json_by_kid(&self, key_id: &str) -> (r: Result<&JsonObject, KeyLookupError>)
        ensures
            match r {
                Ok(k) => jwk_lookup(self@.jwks, "kid"@, key_id@) == Ok::<Seq<JsonFieldView>, KeyLookupError>(k@),
                Err(e) => jwk_lookup(self@.jwks, "kid"@, key_id@) == Err::<Seq<JsonFieldView>, KeyLookupError>(e),
            },
    {
        self.find_key("kid", key_id)
    }

    /// The first cached key for the algorithm named `alg`.
    pub fn get_jwk_key_json_by_alg(&self, alg: &str) -> (r: Result<&JsonObject, KeyLookupError>)
        ensures
            match r {
                Ok(k) => jwk_lookup(self@.jwks, "alg"@, alg@) == Ok::<Seq<JsonFieldView>, KeyLookupError>(k@),
                Err(e) => jwk_lookup(self@.jwks, "alg"@, alg@) == Err::<Seq<JsonFieldView>, KeyLookupError>(e),
            },
    {
        self.find_key("alg", alg)
    }

    /// The key material described by the key-set entry `key_json`: RSA from
    /// `n` and `e`, EC from `x` and `y`, a shared secret from the base64url `k`.
    pub fn extract_decoding_key(&self, key_json: &JsonObject) -> (r: Result<KeyMaterial, DecodingKeyError>)
        ensures
            match r {
                Ok(m) => key_material_of(key_json@) == Ok::<KeyMaterialView, DecodingKeyError>(m@),
                Err(e) => key_material_of(key_json@) == Err::<KeyMaterialView, DecodingKeyError>(e),
            },
    {
        let kty = match key_json.get_str("kty") {
            Some(k) => k,
            None => return Err(DecodingKeyError::MissingKeyType),
        };
        if str_equal(kty.as_str(), "RSA") {
            let n = match key_json.get_str("n") {
                Some(n) => n,
                None => return Err(DecodingKeyError::MissingModulus),
            };
            let e = match key_json.get_str("e") {
                Some(e) => e,
                None => return Err(DecodingKeyError::MissingExponent),
            };
            if base64_url_decode(n.as_str()).is_err() || base64_url_decode(e.as_str()).is_err() {
                return Err(DecodingKeyError::InvalidRsaComponents);
            }
            Ok(KeyMaterial::Rsa { n: n.clone(), e: e.clone() })
        } else if str_equal(kty.as_str(), "EC") {
            let x = match key_json.get_str("x") {
                Some(x) => x,
                None => return Err(DecodingKeyError::MissingX),
            };
            let y = match key_json.get_str("y") {
                Some(y) => y,
                None => return Err(DecodingKeyError::MissingY),
            };
            if base64_url_decode(x.as_str()).is_err() || base64_url_decode(y.as_str()).is_err() {
                return Err(DecodingKeyError::InvalidEcComponents);
            }
            Ok(KeyMaterial::Ec { x: x.clone(), y: y.clone() })
        } else if str_equal(kty.as_str(), "oct") {
            let k = match key_json.get_str("k") {
                Some(k) => k,
                None => return Err(DecodingKeyError::MissingSecret),
            };
            match base64_url_decode(k.as_str()) {
                Ok(bytes) => Ok(KeyMaterial::Secret(bytes)),
                Err(_) => Err(DecodingKeyError::InvalidSecret),
            }
        } else {
            Err(DecodingKeyError::UnsupportedKeyType)
        }
    }

    /// All permissions the claims hold, without duplicates, in ascending order.
    pub fn extract_user_permissions(&self, claims: &JsonObject) -> (r: Vec<String>)
        ensures
            strictly_sorted(string_views(r@)),
            string_views(r@).to_set() == collected_permissions(claims@).to_set(),
    {
        user_permissions(claims)
    }

    /// What the request's bearer token is checked with: reads the token and
    /// its header, picks the cached key by key id (else by algorithm) and
    /// reads its material; or why the token is refused before that.
    pub fn signature_check(&self, req: &Request) -> (r: Result<SignatureCheck, ValidateError>)
        ensures
            match r {
                Ok(c) => signature_check_of(self@, req.header()) == Ok::<SignatureCheckView, ValidateError>(c@),
                Err(e) => signature_check_of(self@, req.header()) == Err::<SignatureCheckView, ValidateError>(e),
            },
            r matches Ok(c) ==> (self@.audiences.len() > 0 ==> c@.audiences == Some(self@.audiences)),
            r matches Ok(c) ==> (self@.audiences.len() == 0 ==> c.audiences is None),
    {
        let token = match req.auth_token() {
            Ok(t) => t,
            Err(e) => return Err(ValidateError::Token(e)),
        };
        let header = match jwt_header(token.as_str()) {
            Ok(h) => h,
            Err(_) => return Err(ValidateError::Header),
        };
        let key_json = match &header.kid {
            Some(kid) => match self.get_jwk_key_json_by_kid(kid.as_str()) {
                Ok(k) => k,
                Err(e) => return Err(ValidateError::Key(e)),
            },
            None => match self.get_jwk_key_json_by_alg(header.alg.as_str()) {
                Ok(k) => k,
                Err(e) => return Err(ValidateError::Key(e)),
            },
        };
        let key = match self.extract_decoding_key(key_json) {
            Ok(k) => k,
            Err(e) => return Err(ValidateError::Material(e)),
        };
        let audiences = if self.audiences.len() > 0 {
            Some(self.audiences.clone())
        } else {
            None
        };
        Ok(SignatureCheck { token, key, alg: header.alg, audiences })
    }

    /// Validates the request's bearer token: [`AuthValidator::signature_check`]
    /// gives what it is checked with, `jsonwebtoken` checks its signature,
    /// expiry, issuer and (when configured) audience, and
    /// [`AuthValidator::accepts_checked_claims`] decides on the scopes. A
    /// token refused before the signature check is refused.
    pub fn validate(&self, req: &Request) -> (r: bool)
        ensures
            r ==> validation_checks_pass(self@, req.header()),
            signature_check_of(self@, req.header()) is Err ==> !r,
    {
        let check = match self.signature_check(req) {
            Ok(c) => c,
            Err(_) => return false,
        };
        match verify_token(&check, self.issuer.as_str()) {
            Ok(c) => self.accepts_checked_claims(Some(c)),
            Err(_) => self.accepts_checked_claims(None),
        }
    }

    /// The last step of [`AuthValidator::validate`], on the claims of a token
    /// that `jsonwebtoken` accepted (`None` when it rejected the token): they
    /// are accepted unless scopes are configured and they grant none of them.
    pub fn accepts_checked_claims(&self, claims_text: Option<String>) -> (r: bool)
        ensures
            r == match claims_text {
                None => false,
                Some(c) => self@.scopes.len() == 0 || (parsed_json_object(c@) matches Some(claims)
                    && scope_granted(self@.scopes, claims)),
            },
    {
        let text = match claims_text {
            Some(c) => c,
            None => return false,
        };
        if self.scopes.len() == 0 {
            return true;
        }
        match JsonObject::parse(text.as_str()) {
            Some(claims) => has_required_scope(&self.scopes, &claims),
            None => false,
        }
    }

    /// Enforces the policy named `policy_name`: unknown policies deny, a
    /// policy without groups admits, and otherwise the token's claims
    /// (read without checking the signature, which `validate` checks) must
    /// hold a permission of every group. The token's header must name a key id.
    pub fn check_policy(&self, policy_name: &str, req: &Request) -> (r: bool)
        ensures
            r == policy_decision(self@, policy_name@, req.header()),
    {
        let policy = match self.cache.policies.get(policy_name) {
            Some(p) => p,
            None => return false,
        };
        if policy.permissions.len() == 0 {
            return true;
        }
        let token = match req.auth_token() {
            Ok(t) => t,
            Err(_) => return false,
        };
        let header = match jwt_header(token.as_str()) {
            Ok(h) => h,
            Err(_) => return false,
        };
        if header.kid.is_none() {
            return false;
        }
        let claims_text = match decode_unverified(token.as_str(), header.alg.as_str()) {
            Ok(c) => c,
            Err(_) => return false,
        };
        let claims = match JsonObject::parse(claims_text.as_str()) {
            Some(c) => c,
            None => return false,
        };
        policy_grants(policy, &claims)
    }
}

} // verus!
