//! Access policies, and the permissions a token's claims grant.

use vstd::prelude::*;
use crate::json::{member, JsonFieldView, JsonObject};
use crate::text::{
    insert_sorted_unique, lemma_push_to_set, split_words, str_equal, strictly_sorted, string_views, words,
};

verus! {

/// An access policy: access is granted when, for every group, the user
/// holds at least one of the group's permissions.
#[derive(Debug, Clone)]
pub struct Policy {
    pub permissions: Vec<Vec<String>>,
}

impl View for Policy {
    type V = Seq<Seq<Seq<char>>>;

    open spec fn view(&self) -> Seq<Seq<Seq<char>>> {
        self.permissions.deep_view()
    }
}

/// `group` has a permission in `held`.
pub open spec fn group_met(group: Seq<Seq<char>>, held: Set<Seq<char>>) -> bool {
    exists|k: int| 0 <= k < group.len() && held.contains(#[trigger] group[k])
}

/// Every group of `groups` has a permission in `held`.
pub open spec fn policy_satisfied(groups: Seq<Seq<Seq<char>>>, held: Set<Seq<char>>) -> bool {
    forall|g: int| 0 <= g < groups.len() ==> group_met(#[trigger] groups[g], held)
}

/// The strings among `items`, in order.
pub open spec fn present_strings(items: Seq<Option<Seq<char>>>) -> Seq<Seq<char>>
    decreases items.len(),
{
    if items.len() == 0 {
        seq![]
    } else {
        let rest = present_strings(items.drop_last());
        match items.last() {
            Some(s) => rest.push(s),
            None => rest,
        }
    }
}

/// The permissions that member `name` of `claims` holds: the strings of an
/// array; a string, split at white space when `split` is set; nothing else.
pub open spec fn field_permissions(claims: Seq<JsonFieldView>, name: Seq<char>, split: bool) -> Seq<Seq<char>> {
    match member(claims, name) {
        None => seq![],
        Some(f) => match f.items {
            Some(items) => present_strings(items),
            None => match f.string {
                Some(s) => if split { words(s) } else { seq![s] },
                None => seq![],
            },
        },
    }
}

/// All permissions the claims hold, read from the members `permissions`,
/// `perms`, `authorities`, `roles`, `scope` and `scp` in this order; the
/// last two are split at white space.
pub open spec fn collected_permissions(claims: Seq<JsonFieldView>) -> Seq<Seq<char>> {
    field_permissions(claims, "permissions"@, false) + field_permissions(claims, "perms"@, false)
        + field_permissions(claims, "authorities"@, false) + field_permissions(claims, "roles"@, false)
        + field_permissions(claims, "scope"@, true) + field_permissions(claims, "scp"@, true)
}

/// Appends to `out` the strings among `items`, in order.
pub fn push_present_strings(out: &mut Vec<String>, items: &Vec<Option<String>>)
    ensures
        string_views(final(out)@) == string_views(old(out)@) + present_strings(items.deep_view()),
{
    let ghost start = string_views(out@);
    let n = items.len();
    let mut i: usize = 0;
    assert(items.deep_view().take(0) =~= Seq::<Option<Seq<char>>>::empty());
    assert(start + present_strings(Seq::<Option<Seq<char>>>::empty()) =~= start);
    while i < n
        invariant
            n == items@.len(),
            i <= n,
            string_views(out@) == start + present_strings(items.deep_view().take(i as int)),
        decreases n - i,
    {
        assert(items.deep_view().take(i + 1).drop_last() =~= items.deep_view().take(i as int));
        assert(items.deep_view().take(i + 1).last() == items@[i as int].deep_view());
        match &items[i] {
            Some(s) => {
                let ghost before = string_views(out@);
                out.push(s.clone());
                assert(string_views(out@) =~= before.push(s@));
            },
            None => {},
        }
        i = i + 1;
    }
    assert(items.deep_view().take(n as int) =~= items.deep_view());
}

/// Appends to `out` the permissions member `name` of `claims` holds.
fn push_field_permissions(out: &mut Vec<String>, claims: &JsonObject, name: &str, split: bool)
    ensures
        string_views(final(out)@) == string_views(old(out)@) + field_permissions(claims@, name@, split),
{
    let ghost start = string_views(out@);
    match claims.get(name) {
        None => {
            assert(string_views(out@) =~= start + Seq::<Seq<char>>::empty());
        },
        Some(f) => match &f.items {
            Some(items) => push_present_strings(out, items),
            None => match &f.string {
                Some(s) => {
                    if split {
                        let ws = split_words(s.as_str());
                        let n = ws.len();
                        let mut i: usize = 0;
                        while i < n
                            invariant
                                n == ws@.len(),
                                i <= n,
                                string_views(out@) == start + string_views(ws@).take(i as int),
                            decreases n - i,
                        {
                            let ghost before = string_views(out@);
                            out.push(ws[i].clone());
                            assert(string_views(out@) =~= before.push(ws@[i as int]@));
                            assert(string_views(ws@).take(i + 1) =~= string_views(ws@).take(
                                i as int,
                            ).push(ws@[i as int]@));
                            i = i + 1;
                        }
                        assert(string_views(ws@).take(n as int) =~= string_views(ws@));
                    } else {
                        let ghost before = string_views(out@);
                        out.push(s.clone());
                        assert(string_views(out@) =~= before.push(s@));
                        assert(before.push(s@) =~= before + seq![s@]);
                    }
                },
                None => {
                    assert(string_views(out@) =~= start + Seq::<Seq<char>>::empty());
                },
            },
        },
    }
}

/// All permissions the claims hold, without duplicates, in ascending order.
pub fn user_permissions(claims: &JsonObject) -> (r: Vec<String>)
    ensures
        strictly_sorted(string_views(r@)),
        string_views(r@).to_set() == collected_permissions(claims@).to_set(),
{
    let mut all: Vec<String> = Vec::new();
    let ghost s0 = string_views(all@);
    assert(s0 =~= Seq::<Seq<char>>::empty());
    push_field_permissions(&mut all, claims, "permissions", false);
    push_field_permissions(&mut all, claims, "perms", false);
    push_field_permissions(&mut all, claims, "authorities", false);
    push_field_permissions(&mut all, claims, "roles", false);
    push_field_permissions(&mut all, claims, "scope", true);
    push_field_permissions(&mut all, claims, "scp", true);
    assert(string_views(all@) =~= collected_permissions(claims@));
    let mut sorted: Vec<String> = Vec::new();
    let n = all.len();
    let mut i: usize = 0;
    assert(string_views(sorted@).to_set() =~= string_views(all@).take(0).to_set());
    while i < n
        invariant
            n == all@.len(),
            i <= n,
            strictly_sorted(string_views(sorted@)),
            string_views(sorted@).to_set() == string_views(all@).take(i as int).to_set(),
        decreases n - i,
    {
        insert_sorted_unique(&mut sorted, all[i].clone());
        assert(string_views(all@).take(i + 1) =~= string_views(all@).take(i as int).push(
            all@[i as int]@,
        ));
        proof {
            lemma_push_to_set(string_views(all@).take(i as int), all@[i as int]@);
        }
        i = i + 1;
    }
    assert(string_views(all@).take(n as int) =~= string_views(all@));
    sorted
}

/// Whether `held` contains `p`.
pub fn holds(held: &Vec<String>, p: &String) -> (r: bool)
    ensures
        r == string_views(held@).contains(p@),
{
    let n = held.len();
    let mut i: usize = 0;
    while i < n
        invariant
            n == held@.len(),
            i <= n,
            forall|k: int| 0 <= k < i ==> held@[k]@ != p@,
        decreases n - i,
    {
        if held[i] == *p {
            assert(string_views(held@)[i as int] == p@);
            return true;
        }
        i = i + 1;
    }
    assert forall|k: int| 0 <= k < string_views(held@).len() implies string_views(held@)[k] != p@ by {
        assert(string_views(held@)[k] == held@[k]@);
    }
    false
}

/// Whether a user holding `held` satisfies the groups of `policy`.
pub fn satisfies(policy: &Policy, held: &Vec<String>) -> (r: bool)
    ensures
        r == policy_satisfied(policy@, string_views(held@).to_set()),
{
    let groups = &policy.permissions;
    let ng = groups.len();
    let mut g: usize = 0;
    let ghost held_set = string_views(held@).to_set();
    while g < ng
        invariant
            ng == groups@.len(),
            g <= ng,
            policy@ == groups.deep_view(),
            policy@.len() == ng,
            held_set == string_views(held@).to_set(),
            forall|h: int| 0 <= h < g ==> group_met(#[trigger] policy@[h], held_set),
        decreases ng - g,
    {
        let group = &groups[g];
        let nk = group.len();
        let mut k: usize = 0;
        let mut found = false;
        let ghost gv = policy@[g as int];
        assert(gv == group.deep_view());
        while k < nk && !found
            invariant
                nk == group@.len(),
                k <= nk,
                gv == group.deep_view(),
                held_set == string_views(held@).to_set(),
                found ==> group_met(gv, held_set),
                !found ==> forall|j: int| 0 <= j < k ==> !held_set.contains(#[trigger] gv[j]),
            decreases nk - k,
        {
            if holds(held, &group[k]) {
                found = true;
                assert(gv[k as int] == group@[k as int]@);
                assert(held_set.contains(gv[k as int]));
            }
            k = k + 1;
        }
        if !found {
            assert(!group_met(gv, held_set));
            assert(!policy_satisfied(policy@, held_set));
            return false;
        }
        g = g + 1;
    }
    true
}

/// Whether the claims satisfy `policy`.
pub fn policy_grants(policy: &Policy, claims: &JsonObject) -> (r: bool)
    ensures
        r == policy_satisfied(policy@, collected_permissions(claims@).to_set()),
{
    let held = user_permissions(claims);
    satisfies(policy, &held)
}

} // verus!
