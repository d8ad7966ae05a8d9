//! The request side: the bearer token carried by the `Authorization`
//! header, and the identity (the claims) that the token's payload carries.

use vstd::prelude::*;
use vstd::utf8::*;
use crate::codec::{
    all_ascii, ascii_chars, base64_url_decode, base64_url_decoded, lemma_ascii_utf8, string_from_utf8,
};
use crate::json::{names_distinct, parsed_json_object, JsonFieldView, JsonObject};
use crate::text::{pieces, split_at_char, str_equal, string_views};

verus! {

/// What the authorization logic reads of an HTTP request: the bytes of its
/// first `Authorization` header, when it has one.
#[derive(Debug, Clone)]
pub struct Request {
    pub authorization: Option<Vec<u8>>,
}

impl Request {
    /// A request whose `Authorization` header holds `authorization`.
    pub fn new(authorization: Option<Vec<u8>>) -> (r: Request)
        ensures
            r.authorization == authorization,
    {
        Request { authorization }
    }

    /// The header's bytes.
    pub open spec fn header(&self) -> Option<Seq<u8>> {
        match self.authorization {
            Some(v) => Some(v@),
            None => None,
        }
    }
}

/// Why a request carries no bearer token.
#[derive(Debug, Clone, Copy, PartialEq, Eq, Structural)]
pub enum TokenError {
    /// There is no `Authorization` header.
    MissingHeader,
    /// The header holds a byte that is neither visible ASCII nor a tab.
    InvalidHeader,
    /// The header does not start with `Bearer `.
    NotBearer,
}

/// The bytes an HTTP header value may hold to be read as text: visible
/// ASCII and the tab.
pub open spec fn is_visible_ascii(b: u8) -> bool {
    (32 <= b && b < 127) || b == 9
}

pub open spec fn all_visible_ascii(bytes: Seq<u8>) -> bool {
    forall|i: int| 0 <= i < bytes.len() ==> is_visible_ascii(#[trigger] bytes[i])
}

pub open spec fn bearer_prefix() -> Seq<char> {
    seq!['B', 'e', 'a', 'r', 'e', 'r', ' ']
}

/// The bearer token of a request whose `Authorization` header is `header`:
/// the header's text after `Bearer `.
pub open spec fn token_of(header: Option<Seq<u8>>) -> Result<Seq<char>, TokenError> {
    match header {
        None => Err(TokenError::MissingHeader),
        Some(h) => if !all_visible_ascii(h) {
            Err(TokenError::InvalidHeader)
        } else {
            let s = ascii_chars(h);
            if s.len() >= 7 && s.take(7) == bearer_prefix() {
                Ok(s.skip(7))
            } else {
                Err(TokenError::NotBearer)
            }
        },
    }
}

/// A source of bearer tokens.
pub trait AuthToken {
    /// The bearer token, or why there is none.
    fn auth_token(&self) -> Result<String, TokenError>;
}

/// Whether every byte of `bytes` is visible ASCII or a tab.
pub fn is_visible_header(bytes: &Vec<u8>) -> (r: bool)
    ensures
        r == all_visible_ascii(bytes@),
{
    let n = bytes.len();
    let mut i: usize = 0;
    while i < n
        invariant
            n == bytes@.len(),
            i <= n,
            forall|k: int| 0 <= k < i ==> is_visible_ascii(#[trigger] bytes@[k]),
        decreases n - i,
    {
        let b = bytes[i];
        if !((32 <= b && b < 127) || b == 9) {
            assert(!is_visible_ascii(bytes@[i as int]));
            return false;
        }
        i = i + 1;
    }
    true
}

impl AuthToken for Request {
    fn auth_token(&self) -> (r: Result<String, TokenError>)
        ensures
            match r {
                Ok(t) => token_of(self.header()) == Ok::<Seq<char>, TokenError>(t@),
                Err(e) => token_of(self.header()) == Err::<Seq<char>, TokenError>(e),
            },
    {
        match &self.authorization {
            None => Err(TokenError::MissingHeader),
            Some(bytes) => {
                if !is_visible_header(bytes) {
                    return Err(TokenError::InvalidHeader);
                }
                proof {
                    assert(all_ascii(bytes@)) by {
                        assert forall|i: int| 0 <= i < bytes@.len() implies bytes@[i] < 128 by {
                            assert(is_visible_ascii(bytes@[i]));
                        }
                    }
                    lemma_ascii_utf8(bytes@);
                }
                let copy = bytes.clone();
                assert(copy@ == bytes@);
                let text = match string_from_utf8(copy) {
                    Ok(t) => t,
                    Err(_) => return Err(TokenError::InvalidHeader),
                };
                let s = text.as_str();
                let ghost chars = ascii_chars(bytes@);
                assert(s@ == chars);
                let n = s.unicode_len();
                let prefix = "Bearer ";
                proof {
                    reveal_strlit("Bearer ");
                    assert(prefix@ =~= bearer_prefix());
                }
                if n >= 7 && str_equal(s.substring_char(0, 7), prefix) {
                    assert(chars.take(7) =~= chars.subrange(0, 7));
                    let token = s.substring_char(7, n);
                    assert(token@ =~= chars.skip(7));
                    Ok(token.to_owned())
                } else {
                    assert(n >= 7 ==> chars.take(7) =~= chars.subrange(0, 7));
                    Err(TokenError::NotBearer)
                }
            },
        }
    }
}

/// Why the claims of a token cannot be read.
#[derive(Debug, Clone, Copy, PartialEq, Eq, Structural)]
pub enum IdentityError {
    /// The request carries no bearer token.
    Token(TokenError),
    /// The token does not have exactly three parts separated by `.`.
    Format,
    /// The payload is not base64url without padding.
    Base64,
    /// The decoded payload is not UTF-8.
    Utf8,
    /// The decoded payload is not JSON.
    Json,
}

/// The members of the JSON object in the payload (second part) of `token`.
pub open spec fn token_claims_of(token: Seq<char>) -> Result<Seq<JsonFieldView>, IdentityError> {
    let parts = pieces(token, '.');
    if parts.len() != 3 {
        Err(IdentityError::Format)
    } else {
        match base64_url_decoded(parts[1]) {
            None => Err(IdentityError::Base64),
            Some(bytes) => if !valid_utf8(bytes) {
                Err(IdentityError::Utf8)
            } else {
                match parsed_json_object(decode_utf8(bytes)) {
                    None => Err(IdentityError::Json),
                    Some(fields) => Ok(fields),
                }
            },
        }
    }
}

/// Reads the claims of `token`: splits it at `.`, decodes the middle part
/// from base64url, reads it as UTF-8 and parses it as JSON.
pub fn token_claims(token: &str) -> (r: Result<JsonObject, IdentityError>)
    ensures
        match r {
            Ok(o) => token_claims_of(token@) == Ok::<Seq<JsonFieldView>, IdentityError>(o@),
            Err(e) => token_claims_of(token@) == Err::<Seq<JsonFieldView>, IdentityError>(e),
        },
        r matches Ok(o) ==> names_distinct(o@),
{
    let parts = split_at_char(token, '.');
    if parts.len() != 3 {
        return Err(IdentityError::Format);
    }
    assert(string_views(parts@)[1] == parts@[1]@);
    let bytes = match base64_url_decode(parts[1].as_str()) {
        Ok(b) => b,
        Err(_) => return Err(IdentityError::Base64),
    };
    let ghost decoded = bytes@;
    let text = match string_from_utf8(bytes) {
        Ok(t) => t,
        Err(_) => return Err(IdentityError::Utf8),
    };
    match JsonObject::parse(text.as_str()) {
        Some(o) => Ok(o),
        None => Err(IdentityError::Json),
    }
}

/// One claim of an identity: a member of the token's payload, with its
/// value written as JSON.
#[derive(Debug, Clone)]
pub struct Claim {
    pub name: String,
    pub value: String,
}

impl View for Claim {
    type V = (Seq<char>, Seq<char>);

    open spec fn view(&self) -> (Seq<char>, Seq<char>) {
        (self.name@, self.value@)
    }
}

pub open spec fn claim_views(v: Seq<Claim>) -> Seq<(Seq<char>, Seq<char>)> {
    v.map_values(|c: Claim| c@)
}

/// The claims carried by a token, in the order of its payload's members.
#[derive(Debug, Clone)]
pub struct Identity {
    claims: Vec<Claim>,
}

impl View for Identity {
    type V = Seq<(Seq<char>, Seq<char>)>;

    closed spec fn view(&self) -> Seq<(Seq<char>, Seq<char>)> {
        claim_views(self.claims@)
    }
}

/// The claims of an identity read from the members `fields` of a payload.
pub open spec fn claims_of_fields(fields: Seq<JsonFieldView>) -> Seq<(Seq<char>, Seq<char>)> {
    fields.map_values(|f: JsonFieldView| (f.name, f.text))
}

/// Why a claim's value cannot be had.
#[derive(Debug, Clone, Copy, PartialEq, Eq, Structural)]
pub enum ClaimValueError {
    /// No claim has the name.
    NotFound,
    /// The claim's value is empty.
    Empty,
}

impl Identity {
    /// An identity holding `claims`.
    pub fn new(claims: Vec<Claim>) -> (r: Identity)
        ensures
            r@ == claim_views(claims@),
    {
        Identity { claims }
    }

    /// All claims, in order.
    pub fn claims(&self) -> (r: &Vec<Claim>)
        ensures
            claim_views(r@) == self@,
    {
        &self.claims
    }

    /// The first claim named `name`.
    pub fn get_claim(&self, name: &str) -> (r: Option<&Claim>)
        ensures
            match r {
                Some(c) => exists|i: int|
                    0 <= i < self@.len() && self@[i] == c@ && c@.0 == name@ && forall|j: int|
                        0 <= j < i ==> (#[trigger] self@[j]).0 != name@,
                None => forall|j: int| 0 <= j < self@.len() ==> (#[trigger] self@[j]).0 != name@,
            },
    {
        let n = self.claims.len();
        let mut i: usize = 0;
        while i < n
            invariant
                n == self.claims@.len(),
                self@ == claim_views(self.claims@),
                i <= n,
                forall|j: int| 0 <= j < i ==> (#[trigger] self@[j]).0 != name@,
            decreases n - i,
        {
            let c = &self.claims[i];
            assert(self@[i as int] == c@);
            if str_equal(c.name.as_str(), name) {
                return Some(c);
            }
            i = i + 1;
        }
        None
    }

    /// The value of the first claim named `name`, when it is not empty: the
    /// text that `get_claim_value` parses.
    pub fn claim_text(&self, name: &str) -> (r: Result<&String, ClaimValueError>)
        ensures
            r matches Err(ClaimValueError::NotFound) <==> forall|j: int|
                0 <= j < self@.len() ==> (#[trigger] self@[j]).0 != name@,
            r matches Err(ClaimValueError::Empty) <==> exists|i: int|
                0 <= i < self@.len() && self@[i].0 == name@ && self@[i].1.len() == 0 && forall|j: int|
                    0 <= j < i ==> (#[trigger] self@[j]).0 != name@,
            r matches Ok(v) ==> exists|i: int|
                0 <= i < self@.len() && self@[i].0 == name@ && self@[i].1 == v@ && v@.len() > 0
                    && forall|j: int| 0 <= j < i ==> (#[trigger] self@[j]).0 != name@,
    {
        let claim = match self.get_claim(name) {
            Some(c) => c,
            None => return Err(ClaimValueError::NotFound),
        };
        if claim.value.as_str().is_empty() {
            return Err(ClaimValueError::Empty);
        }
        Ok(&claim.value)
    }
}

/// A source of identities.
pub trait AuthIdentity {
    /// The identity of the bearer, or why it cannot be read.
    fn identity(&self) -> Result<Identity, IdentityError>;
}

/// The identity carried by a request whose `Authorization` header is `header`.
pub open spec fn identity_of(header: Option<Seq<u8>>) -> Result<Seq<(Seq<char>, Seq<char>)>, IdentityError> {
    match token_of(header) {
        Err(e) => Err(IdentityError::Token(e)),
        Ok(token) => match token_claims_of(token) {
            Err(e) => Err(e),
            Ok(fields) => Ok(claims_of_fields(fields)),
        },
    }
}

/// No two claims share a name.
pub open spec fn claim_names_distinct(claims: Seq<(Seq<char>, Seq<char>)>) -> bool {
    forall|i: int, j: int|
        0 <= i < claims.len() && 0 <= j < claims.len() && i != j ==> #[trigger] claims[i].0 != #[trigger] claims[j].0
}

/// The identity whose claims are the members of `claims`.
pub fn identity_from_claims(claims: &JsonObject) -> (r: Identity)
    ensures
        r@ == claims_of_fields(claims@),
{
    let n = claims.fields.len();
    let mut out: Vec<Claim> = Vec::new();
    let mut i: usize = 0;
    while i < n
        invariant
            n == claims.fields@.len(),
            i <= n,
            claim_views(out@) == claims_of_fields(claims@).take(i as int),
        decreases n - i,
    {
        let f = &claims.fields[i];
        let ghost before = claim_views(out@);
        out.push(Claim { name: f.name.clone(), value: f.text.clone() });
        assert(claim_views(out@) =~= before.push(claims_of_fields(claims@)[i as int]));
        assert(claims_of_fields(claims@).take(i + 1) =~= claims_of_fields(claims@).take(
            i as int,
        ).push(claims_of_fields(claims@)[i as int]));
        i = i + 1;
    }
    assert(claims_of_fields(claims@).take(n as int) =~= claims_of_fields(claims@));
    Identity::new(out)
}

impl AuthIdentity for Request {
    fn identity(&self) -> (r: Result<Identity, IdentityError>)
        ensures
            match r {
                Ok(id) => identity_of(self.header()) == Ok::<Seq<(Seq<char>, Seq<char>)>, IdentityError>(id@),
                Err(e) => identity_of(self.header()) == Err::<Seq<(Seq<char>, Seq<char>)>, IdentityError>(e),
            },
            r matches Ok(id) ==> claim_names_distinct(id@),
    {
        let token = match self.auth_token() {
            Ok(t) => t,
            Err(e) => return Err(IdentityError::Token(e)),
        };
        let claims = match token_claims(token.as_str()) {
            Ok(c) => c,
            Err(e) => return Err(e),
        };
        let id = identity_from_claims(&claims);
        assert(claim_names_distinct(id@)) by {
            assert forall|i: int, j: int| 0 <= i < id@.len() && 0 <= j < id@.len() && i != j implies #[trigger] id@[i].0
                != #[trigger] id@[j].0 by {
                assert(id@[i].0 == claims@[i].name);
                assert(id@[j].0 == claims@[j].name);
            }
        }
        Ok(id)
    }
}

} // verus!
