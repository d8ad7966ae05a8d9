//! Properties that hold of the library as a whole, across its functions and
//! over all inputs.

use vstd::prelude::*;
use crate::codec::ascii_chars;
use crate::json::{member, member_string, parsed_json_object, JsonFieldView};
use crate::policy::{collected_permissions, field_permissions, group_met, policy_satisfied, present_strings};
use crate::request::{all_visible_ascii, bearer_prefix, identity_of, token_of, IdentityError, TokenError};
use crate::jwt::{signed_part, token_header, unverified_claims};
use crate::text::{pieces, words};
use crate::validator::{
    first_key_with, is_stale, max_age, openid_config_url_of, policy_decision, signature_check_of,
    token_scopes_of, trim_trailing_slashes, validation_checks_pass, AuthValidatorView,
};

verus! {

/// A policy without permission groups admits every request, whether or not
/// it carries a token.
pub proof fn empty_policy_admits_every_request(v: AuthValidatorView, name: Seq<char>, header: Option<Seq<u8>>)
    requires
        v.policies.contains_key(name),
        v.policies[name].len() == 0,
    ensures
        policy_decision(v, name, header),
{
}

/// A policy name the validator does not know denies every request.
pub proof fn unknown_policy_denies_every_request(v: AuthValidatorView, name: Seq<char>, header: Option<Seq<u8>>)
    requires
        !v.policies.contains_key(name),
    ensures
        !policy_decision(v, name, header),
{
}

/// A policy check reads only the policies and the request: the issuer, the
/// audiences, the scopes and the cached documents do not change its outcome.
pub proof fn policy_decision_reads_only_policies(
    v: AuthValidatorView,
    w: AuthValidatorView,
    name: Seq<char>,
    header: Option<Seq<u8>>,
)
    requires
        v.policies == w.policies,
    ensures
        policy_decision(v, name, header) == policy_decision(w, name, header),
{
}

/// Holding more permissions never loses access: a policy satisfied by the
/// permissions `held` is satisfied by any superset of them.
pub proof fn more_permissions_keep_access(groups: Seq<Seq<Seq<char>>>, held: Set<Seq<char>>, more: Set<Seq<char>>)
    requires
        policy_satisfied(groups, held),
        held.subset_of(more),
    ensures
        policy_satisfied(groups, more),
{
    assert forall|g: int| 0 <= g < groups.len() implies group_met(#[trigger] groups[g], more) by {
        assert(group_met(groups[g], held));
        let k = choose|k: int| 0 <= k < groups[g].len() && held.contains(#[trigger] groups[g][k]);
        assert(more.contains(groups[g][k]));
    }
}

/// The bytes of `Bearer `.
pub open spec fn bearer_bytes() -> Seq<u8> {
    seq![66u8, 101u8, 97u8, 114u8, 101u8, 114u8, 32u8]
}

/// A header `Bearer <token>` of visible ASCII yields exactly `<token>`.
pub proof fn bearer_header_yields_its_token(token: Seq<u8>)
    requires
        all_visible_ascii(token),
    ensures
        token_of(Some(bearer_bytes() + token)) == Ok::<Seq<char>, crate::request::TokenError>(ascii_chars(token)),
{
    let h = bearer_bytes() + token;
    assert(all_visible_ascii(h)) by {
        assert forall|i: int| 0 <= i < h.len() implies crate::request::is_visible_ascii(#[trigger] h[i]) by {
            if i >= 7 {
                assert(h[i] == token[i - 7]);
            }
        }
    }
    let s = ascii_chars(h);
    assert(s.take(7) =~= bearer_prefix());
    assert(s.skip(7) =~= ascii_chars(token));
}

/// A request without a bearer token has no identity, for the same reason.
pub proof fn identity_needs_a_token(header: Option<Seq<u8>>)
    requires
        token_of(header) is Err,
    ensures
        identity_of(header) == Err::<Seq<(Seq<char>, Seq<char>)>, IdentityError>(
            IdentityError::Token(token_of(header)->Err_0),
        ),
{
}

/// The identity reads only the payload (the middle part) of the token: two
/// requests whose bearer tokens have three parts and the same payload have
/// the same identity, whatever their header and signature parts hold.
pub proof fn identity_reads_only_the_payload(h1: Option<Seq<u8>>, h2: Option<Seq<u8>>)
    requires
        token_of(h1) is Ok,
        token_of(h2) is Ok,
        pieces(token_of(h1)->Ok_0, '.').len() == 3,
        pieces(token_of(h2)->Ok_0, '.').len() == 3,
        pieces(token_of(h1)->Ok_0, '.')[1] == pieces(token_of(h2)->Ok_0, '.')[1],
    ensures
        identity_of(h1) == identity_of(h2),
{
}

/// The client id and secret play no part in validation: two validators
/// that differ only in them refuse the same requests before the signature
/// check, hand `jsonwebtoken` the same check, and accept under the same
/// conditions.
pub proof fn validation_reads_no_client_credentials(v: AuthValidatorView, w: AuthValidatorView, header: Option<Seq<u8>>)
    requires
        v.issuer == w.issuer,
        v.audiences == w.audiences,
        v.scopes == w.scopes,
        v.openid_config == w.openid_config,
        v.openid_config_loaded_at == w.openid_config_loaded_at,
        v.jwks == w.jwks,
        v.jwks_loaded_at == w.jwks_loaded_at,
        v.policies == w.policies,
    ensures
        signature_check_of(v, header) == signature_check_of(w, header),
        validation_checks_pass(v, header) == validation_checks_pass(w, header),
{
}

/// The part of `signed + "." + rest` before its last `.` is `signed` when
/// `rest` holds no `.`.
pub proof fn lemma_signed_part(signed: Seq<char>, rest: Seq<char>)
    requires
        !rest.contains('.'),
    ensures
        signed_part(signed + seq!['.'] + rest) == Some(signed),
    decreases rest.len(),
{
    let t = signed + seq!['.'] + rest;
    if rest.len() == 0 {
        assert(t.drop_last() =~= signed);
    } else {
        assert(t.last() == rest.last());
        assert(rest.last() != '.') by {
            if rest.last() == '.' {
                assert(rest[rest.len() - 1] == '.');
            }
        };
        assert(t.drop_last() =~= signed + seq!['.'] + rest.drop_last());
        assert(!rest.drop_last().contains('.')) by {
            if rest.drop_last().contains('.') {
                let i = choose|i: int| 0 <= i < rest.drop_last().len() && rest.drop_last()[i] == '.';
                assert(rest[i] == '.');
            }
        };
        lemma_signed_part(signed, rest.drop_last());
    }
}

/// A policy check does not look at a token's signature: two tokens with the
/// same header and payload and any signatures get the same decision.
pub proof fn policy_check_ignores_the_signature(
    v: AuthValidatorView,
    name: Seq<char>,
    h1: Option<Seq<u8>>,
    h2: Option<Seq<u8>>,
    signed: Seq<char>,
    sig1: Seq<char>,
    sig2: Seq<char>,
)
    requires
        token_of(h1) == Ok::<Seq<char>, TokenError>(signed + seq!['.'] + sig1),
        token_of(h2) == Ok::<Seq<char>, TokenError>(signed + seq!['.'] + sig2),
        !sig1.contains('.'),
        !sig2.contains('.'),
    ensures
        policy_decision(v, name, h1) == policy_decision(v, name, h2),
{
    lemma_signed_part(signed, sig1);
    lemma_signed_part(signed, sig2);
}

/// A policy check reads only the permission fields of the claims: two
/// tokens with the same header whose claims decode and hold the same
/// permissions get the same decision, whatever their expiry, audience or
/// other claims.
pub proof fn policy_check_reads_only_permissions(
    v: AuthValidatorView,
    name: Seq<char>,
    h1: Option<Seq<u8>>,
    h2: Option<Seq<u8>>,
)
    requires
        token_of(h1) is Ok,
        token_of(h2) is Ok,
        token_header(token_of(h1)->Ok_0) == token_header(token_of(h2)->Ok_0),
        token_header(token_of(h1)->Ok_0) is Some,
        unverified_claims(token_of(h1)->Ok_0, token_header(token_of(h1)->Ok_0)->Some_0.0) matches Some(c1)
            && parsed_json_object(c1) is Some,
        unverified_claims(token_of(h2)->Ok_0, token_header(token_of(h2)->Ok_0)->Some_0.0) matches Some(c2)
            && parsed_json_object(c2) is Some,
        collected_permissions(
            parsed_json_object(
                unverified_claims(token_of(h1)->Ok_0, token_header(token_of(h1)->Ok_0)->Some_0.0)->Some_0,
            )->Some_0,
        ) == collected_permissions(
            parsed_json_object(
                unverified_claims(token_of(h2)->Ok_0, token_header(token_of(h2)->Ok_0)->Some_0.0)->Some_0,
            )->Some_0,
        ),
    ensures
        policy_decision(v, name, h1) == policy_decision(v, name, h2),
{
}

/// A document loaded at time `loaded_at` is fresh from then until
/// [`max_age`] has passed, and stale afterwards; one never loaded is stale.
pub proof fn document_fresh_for_max_age(loaded_at: u128, now: u128)
    ensures
        is_stale(false, Some(loaded_at), now),
        loaded_at <= now ==> (!is_stale(true, Some(loaded_at), now) <==> now - loaded_at <= max_age()),
{
}

/// Trailing slashes of the issuer do not change the openid-configuration
/// address.
pub proof fn trailing_slash_keeps_config_url(issuer: Seq<char>)
    requires
        issuer.len() > 0,
    ensures
        openid_config_url_of(issuer.push('/')) == openid_config_url_of(issuer),
{
    assert(issuer.push('/').drop_last() =~= issuer);
    assert(trim_trailing_slashes(issuer.push('/')) == trim_trailing_slashes(issuer));
}

/// The key a lookup finds is one of the keys and carries the requested
/// value; when it finds none, no key carries it.
pub proof fn key_lookup_finds_matching_key(keys: Seq<Seq<JsonFieldView>>, field: Seq<char>, value: Seq<char>)
    ensures
        first_key_with(keys, field, value) matches Some(k) ==> keys.contains(k) && member_string(k, field) == Some(value),
        first_key_with(keys, field, value) is None ==> forall|i: int|
            0 <= i < keys.len() ==> member_string(#[trigger] keys[i], field) != Some(value),
    decreases keys.len(),
{
    if keys.len() > 0 {
        key_lookup_finds_matching_key(keys.drop_first(), field, value);
        if member_string(keys[0], field) != Some(value) {
            if let Some(k) = first_key_with(keys.drop_first(), field, value) {
                let j = choose|j: int| 0 <= j < keys.drop_first().len() && keys.drop_first()[j] == k;
                assert(keys[j + 1] == k);
            }
            assert forall|i: int| 0 <= i < keys.len() && first_key_with(keys, field, value) is None
                implies member_string(#[trigger] keys[i], field) != Some(value) by {
                if i > 0 {
                    assert(keys[i] == keys.drop_first()[i - 1]);
                }
            }
        } else {
            assert(keys.contains(keys[0]));
        }
    }
}

/// `p` is among the strings of `items`.
pub open spec fn has_string_item(items: Seq<Option<Seq<char>>>, p: Seq<char>) -> bool {
    exists|i: int| 0 <= i < items.len() && items[i] == Some(p)
}

/// The strings kept from `items` are exactly its string items.
pub proof fn lemma_present_strings_contains(items: Seq<Option<Seq<char>>>, p: Seq<char>)
    ensures
        present_strings(items).contains(p) <==> has_string_item(items, p),
    decreases items.len(),
{
    if items.len() > 0 {
        let rest = items.drop_last();
        lemma_present_strings_contains(rest, p);
        if has_string_item(rest, p) {
            let i = choose|i: int| 0 <= i < rest.len() && rest[i] == Some(p);
            assert(items[i] == Some(p));
        }
        if has_string_item(items, p) {
            let i = choose|i: int| 0 <= i < items.len() && items[i] == Some(p);
            if i < items.len() - 1 {
                assert(rest[i] == Some(p));
            } else {
                assert(present_strings(items) == present_strings(rest).push(p));
                assert(present_strings(items)[present_strings(rest).len() as int] == p);
            }
        }
        match items.last() {
            Some(s) => {
                let ps = present_strings(rest).push(s);
                if ps.contains(p) {
                    let j = choose|j: int| 0 <= j < ps.len() && ps[j] == p;
                    if j < ps.len() - 1 {
                        assert(present_strings(rest)[j] == p);
                    } else {
                        assert(items[items.len() - 1] == Some(p));
                    }
                }
                if present_strings(rest).contains(p) {
                    let j = choose|j: int| 0 <= j < present_strings(rest).len() && present_strings(rest)[j] == p;
                    assert(ps[j] == p);
                }
            },
            None => {
                if has_string_item(items, p) {
                    let i = choose|i: int| 0 <= i < items.len() && items[i] == Some(p);
                    assert(i < items.len() - 1);
                }
            },
        }
    }
}

/// A concatenation holds exactly what its two parts hold.
proof fn lemma_concat_contains<A>(a: Seq<A>, b: Seq<A>, x: A)
    ensures
        (a + b).contains(x) <==> a.contains(x) || b.contains(x),
{
    if (a + b).contains(x) {
        let i = choose|i: int| 0 <= i < (a + b).len() && (a + b)[i] == x;
        if i >= a.len() {
            assert(b[i - a.len()] == x);
        }
    }
    if a.contains(x) {
        let i = choose|i: int| 0 <= i < a.len() && a[i] == x;
        assert((a + b)[i] == x);
    }
    if b.contains(x) {
        let i = choose|i: int| 0 <= i < b.len() && b[i] == x;
        assert((a + b)[a.len() + i] == x);
    }
}

/// `p` is a permission that member `name` of `claims` carries: a string
/// item when the member is an array, else the member's string itself, or,
/// when `split` is set, one of that string's white-space separated words.
pub open spec fn carries_permission(claims: Seq<JsonFieldView>, name: Seq<char>, split: bool, p: Seq<char>) -> bool {
    match member(claims, name) {
        None => false,
        Some(f) => match f.items {
            Some(items) => has_string_item(items, p),
            None => match f.string {
                Some(s) => if split { words(s).contains(p) } else { s == p },
                None => false,
            },
        },
    }
}

proof fn lemma_field_permissions_contains(claims: Seq<JsonFieldView>, name: Seq<char>, split: bool, p: Seq<char>)
    ensures
        field_permissions(claims, name, split).contains(p) <==> carries_permission(claims, name, split, p),
{
    match member(claims, name) {
        None => {},
        Some(f) => match f.items {
            Some(items) => lemma_present_strings_contains(items, p),
            None => match f.string {
                Some(s) => if !split {
                    if seq![s].contains(p) {
                        let j = choose|j: int| 0 <= j < seq![s].len() && seq![s][j] == p;
                        assert(j == 0);
                    }
                    if s == p {
                        assert(seq![s][0] == p);
                    }
                },
                None => {},
            },
        },
    }
}

/// A user holds exactly the permissions carried by the six permission
/// members of the claims: the string items of `permissions`, `perms`,
/// `authorities` and `roles`, or their string; and the string items of
/// `scope` and `scp`, or every white-space separated word of their string.
pub proof fn permissions_come_from_the_six_fields(claims: Seq<JsonFieldView>, p: Seq<char>)
    ensures
        collected_permissions(claims).to_set().contains(p) <==> (
            carries_permission(claims, "permissions"@, false, p)
            || carries_permission(claims, "perms"@, false, p)
            || carries_permission(claims, "authorities"@, false, p)
            || carries_permission(claims, "roles"@, false, p)
            || carries_permission(claims, "scope"@, true, p)
            || carries_permission(claims, "scp"@, true, p)),
{
    let a = field_permissions(claims, "permissions"@, false);
    let b = field_permissions(claims, "perms"@, false);
    let c = field_permissions(claims, "authorities"@, false);
    let d = field_permissions(claims, "roles"@, false);
    let e = field_permissions(claims, "scope"@, true);
    let f = field_permissions(claims, "scp"@, true);
    lemma_concat_contains(a, b, p);
    lemma_concat_contains(a + b, c, p);
    lemma_concat_contains(a + b + c, d, p);
    lemma_concat_contains(a + b + c + d, e, p);
    lemma_concat_contains(a + b + c + d + e, f, p);
    lemma_field_permissions_contains(claims, "permissions"@, false, p);
    lemma_field_permissions_contains(claims, "perms"@, false, p);
    lemma_field_permissions_contains(claims, "authorities"@, false, p);
    lemma_field_permissions_contains(claims, "roles"@, false, p);
    lemma_field_permissions_contains(claims, "scope"@, true, p);
    lemma_field_permissions_contains(claims, "scp"@, true, p);
}

/// A known policy with groups admits a request exactly when the request
/// carries a bearer token whose header reads and names a key id, whose
/// claims decode, and every group of the policy has a permission the claims
/// hold.
pub proof fn policy_admits_exactly_when_every_group_is_met(v: AuthValidatorView, name: Seq<char>, h: Option<Seq<u8>>)
    requires
        v.policies.contains_key(name),
        v.policies[name].len() > 0,
    ensures
        policy_decision(v, name, h) <==> (match token_of(h) {
            Err(_) => false,
            Ok(t) => match token_header(t) {
                None => false,
                Some(hd) => hd.1 is Some && match unverified_claims(t, hd.0) {
                    None => false,
                    Some(c) => match parsed_json_object(c) {
                        None => false,
                        Some(claims) => forall|g: int|
                            0 <= g < v.policies[name].len() ==> group_listed(
                                #[trigger] v.policies[name][g],
                                collected_permissions(claims),
                            ),
                    },
                },
            },
        }),
{
    if let Ok(t) = token_of(h) {
        if let Some(hd) = token_header(t) {
            if let Some(c) = unverified_claims(t, hd.0) {
                if let Some(claims) = parsed_json_object(c) {
                    lemma_policy_satisfied_by(v.policies[name], collected_permissions(claims));
                }
            }
        }
    }
}

/// Some permission of `group` is listed in `held`.
pub open spec fn group_listed(group: Seq<Seq<char>>, held: Seq<Seq<char>>) -> bool {
    exists|k: int| 0 <= k < group.len() && held.contains(#[trigger] group[k])
}

proof fn lemma_group_met_seq(group: Seq<Seq<char>>, held: Seq<Seq<char>>)
    ensures
        group_met(group, held.to_set()) <==> group_listed(group, held),
{
    if group_met(group, held.to_set()) {
        let k = choose|k: int| 0 <= k < group.len() && held.to_set().contains(#[trigger] group[k]);
        assert(held.contains(group[k]));
    }
    if group_listed(group, held) {
        let k = choose|k: int| 0 <= k < group.len() && held.contains(#[trigger] group[k]);
        assert(held.to_set().contains(group[k]));
    }
}

/// Every group has a permission of the set of `held` exactly when every
/// group has a permission that `held` lists.
proof fn lemma_policy_satisfied_by(groups: Seq<Seq<Seq<char>>>, held: Seq<Seq<char>>)
    ensures
        policy_satisfied(groups, held.to_set()) <==> forall|g: int|
            0 <= g < groups.len() ==> group_listed(#[trigger] groups[g], held),
{
    assert forall|g: int| 0 <= g < groups.len() implies (group_met(#[trigger] groups[g], held.to_set())
        <==> group_listed(groups[g], held)) by {
        lemma_group_met_seq(groups[g], held);
    }
}

/// The scopes a token grants come from its `scope` member, else its `scp`
/// member: a string gives exactly its white-space separated words, an array
/// exactly its string items, anything else none.
pub proof fn granted_scopes_come_from_scope_else_scp(claims: Seq<JsonFieldView>, p: Seq<char>)
    ensures
        member(claims, "scope"@) matches Some(f) ==> (f.string matches Some(s) ==> token_scopes_of(claims) == words(s)),
        member(claims, "scope"@) is None ==> (member(claims, "scp"@) matches Some(f) ==> (f.string matches Some(s)
            ==> token_scopes_of(claims) == words(s))),
        member(claims, "scope"@) matches Some(f) ==> (f.items matches Some(items) ==> (f.string is None
            ==> (token_scopes_of(claims).contains(p) <==> has_string_item(items, p)))),
        member(claims, "scope"@) is None ==> (member(claims, "scp"@) matches Some(f) ==> (f.items matches Some(items)
            ==> (f.string is None ==> (token_scopes_of(claims).contains(p) <==> has_string_item(items, p))))),
        member(claims, "scope"@) matches Some(f) ==> (f.string is None && f.items is None
            ==> token_scopes_of(claims).len() == 0),
        member(claims, "scope"@) is None ==> (member(claims, "scp"@) matches Some(f) ==> (f.string is None
            && f.items is None ==> token_scopes_of(claims).len() == 0)),
        member(claims, "scope"@) is None && member(claims, "scp"@) is None ==> token_scopes_of(claims).len() == 0,
{
    if let Some(f) = member(claims, "scope"@) {
        if let Some(items) = f.items {
            if f.string is None {
                lemma_present_strings_contains(items, p);
            }
        }
    } else if let Some(f) = member(claims, "scp"@) {
        if let Some(items) = f.items {
            if f.string is None {
                lemma_present_strings_contains(items, p);
            }
        }
    }
}

/// What a token's signature is checked with is the request's own token, the
/// algorithm its header names, and, when audiences are configured, all of
/// them; with none configured the audience is not checked.
pub proof fn signature_check_carries_token_alg_and_all_audiences(v: AuthValidatorView, h: Option<Seq<u8>>)
    ensures
        signature_check_of(v, h) matches Ok(c) ==> (token_header(c.token) matches Some(hd) && c.alg == hd.0
            && token_of(h) == Ok::<Seq<char>, TokenError>(c.token)),
        signature_check_of(v, h) matches Ok(c) ==> (v.audiences.len() > 0 ==> c.audiences == Some(v.audiences)),
        signature_check_of(v, h) matches Ok(c) ==> (v.audiences.len() == 0 ==> c.audiences is None),
{
}

} // verus!
