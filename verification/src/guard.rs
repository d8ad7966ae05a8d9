//! How the `authorize` attribute guards a request handler: which parameter
//! carries the request, which names the handler's own body is called with, and
//! which checks run before it.

use vstd::prelude::*;
use crate::policy::present_strings;
use crate::text::{str_equal, string_views};

verus! {

/// A parameter of a request handler, as the attribute reads it.
#[derive(Debug, Clone)]
pub struct HandlerParam {
    /// The parameter's name, when it is a typed parameter bound to a plain
    /// identifier.
    pub name: Option<String>,
    /// The last segment of the parameter's type, when it is a typed
    /// parameter whose type is a path.
    pub ty: Option<String>,
}

impl View for HandlerParam {
    type V = (Option<Seq<char>>, Option<Seq<char>>);

    open spec fn view(&self) -> (Option<Seq<char>>, Option<Seq<char>>) {
        (self.name.deep_view(), self.ty.deep_view())
    }
}

pub open spec fn param_views(params: Seq<HandlerParam>) -> Seq<(Option<Seq<char>>, Option<Seq<char>>)> {
    params.map_values(|p: HandlerParam| p@)
}

/// A named parameter whose type is `HttpRequest`.
pub open spec fn is_request_param(p: (Option<Seq<char>>, Option<Seq<char>>)) -> bool {
    p.0 is Some && p.1 == Some("HttpRequest"@)
}

/// The names of the named parameters, in order.
pub open spec fn param_names(params: Seq<(Option<Seq<char>>, Option<Seq<char>>)>) -> Seq<Seq<char>> {
    present_strings(params.map_values(|p: (Option<Seq<char>>, Option<Seq<char>>)| p.0))
}

/// The index of the first named parameter of type `HttpRequest`.
pub fn request_param(params: &Vec<HandlerParam>) -> (r: Option<usize>)
    ensures
        match r {
            Some(i) => i < params@.len() && is_request_param(params@[i as int]@) && forall|j: int|
                0 <= j < i ==> !is_request_param(#[trigger] params@[j]@),
            None => forall|j: int| 0 <= j < params@.len() ==> !is_request_param(#[trigger] params@[j]@),
        },
{
    let n = params.len();
    let mut i: usize = 0;
    while i < n
        invariant
            n == params@.len(),
            i <= n,
            forall|j: int| 0 <= j < i ==> !is_request_param(#[trigger] params@[j]@),
        decreases n - i,
    {
        let p = &params[i];
        if p.name.is_some() {
            match &p.ty {
                Some(t) => {
                    if str_equal(t.as_str(), "HttpRequest") {
                        proof {
                            reveal_strlit("HttpRequest");
                        }
                        return Some(i);
                    }
                },
                None => {},
            }
        }
        i = i + 1;
    }
    None
}

/// The names of the named parameters, in order: what the handler's own body is
/// called with.
pub fn forwarded_names(params: &Vec<HandlerParam>) -> (r: Vec<String>)
    ensures
        string_views(r@) == param_names(param_views(params@)),
{
    let ghost names = param_views(params@).map_values(|p: (Option<Seq<char>>, Option<Seq<char>>)| p.0);
    let n = params.len();
    let mut out: Vec<String> = Vec::new();
    let mut i: usize = 0;
    assert(names.take(0) =~= Seq::<Option<Seq<char>>>::empty());
    assert(string_views(out@) =~= Seq::<Seq<char>>::empty());
    while i < n
        invariant
            n == params@.len(),
            names == param_views(params@).map_values(|p: (Option<Seq<char>>, Option<Seq<char>>)| p.0),
            i <= n,
            string_views(out@) == present_strings(names.take(i as int)),
        decreases n - i,
    {
        assert(names.take(i + 1).drop_last() =~= names.take(i as int));
        assert(names.take(i + 1).last() == params@[i as int].name.deep_view());
        match &params[i].name {
            Some(s) => {
                let ghost before = string_views(out@);
                out.push(s.clone());
                assert(string_views(out@) =~= before.push(s@));
            },
            None => {},
        }
        i = i + 1;
    }
    assert(names.take(n as int) =~= names);
    out
}

/// What the guarded handler does before it calls the handler's own body.
#[derive(Debug, Clone)]
pub struct GuardPlan {
    /// The name the handler's own body is moved to.
    pub inner_fn: String,
    /// The parameter that carries the request.
    pub request: String,
    /// Whether a parameter `req: HttpRequest` is added in front, because the
    /// handler has no named `HttpRequest` parameter of its own.
    pub adds_request: bool,
    /// The policy checked after the token, when the attribute names one.
    pub policy: Option<String>,
    /// The names the handler's own body is called with.
    pub forwarded: Vec<String>,
}

/// The plan for guarding the handler `fn_name` with parameters `params`,
/// checking `policy` when the attribute names one.
pub fn plan_guard(fn_name: &str, policy: Option<String>, params: &Vec<HandlerParam>) -> (r: GuardPlan)
    ensures
        r.inner_fn@ == "__inner_"@ + fn_name@,
        match request_param_spec(param_views(params@)) {
            Some(i) => !r.adds_request && Some(r.request@) == param_views(params@)[i].0,
            None => r.adds_request && r.request@ == "req"@,
        },
        r.policy.deep_view() == policy.deep_view(),
        string_views(r.forwarded@) == param_names(param_views(params@)),
{
    let mut inner_fn = String::from_str("__inner_");
    inner_fn.append(fn_name);
    let forwarded = forwarded_names(params);
    match request_param(params) {
        Some(i) => {
            let name = match &params[i].name {
                Some(n) => n.clone(),
                None => String::new(),
            };
            proof {
                lemma_request_param_spec(param_views(params@), i as int);
            }
            GuardPlan { inner_fn, request: name, adds_request: false, policy, forwarded }
        },
        None => {
            proof {
                lemma_request_param_spec_none(param_views(params@));
            }
            GuardPlan { inner_fn, request: String::from_str("req"), adds_request: true, policy, forwarded }
        },
    }
}

/// The index of the first named parameter of type `HttpRequest`.
pub open spec fn request_param_spec(params: Seq<(Option<Seq<char>>, Option<Seq<char>>)>) -> Option<int> {
    if exists|i: int| 0 <= i < params.len() && is_request_param(#[trigger] params[i]) {
        Some(choose|i: int| 0 <= i < params.len() && is_request_param(#[trigger] params[i]) && forall|j: int|
            0 <= j < i ==> !is_request_param(#[trigger] params[j]))
    } else {
        None
    }
}

proof fn lemma_request_param_spec(params: Seq<(Option<Seq<char>>, Option<Seq<char>>)>, i: int)
    requires
        0 <= i < params.len(),
        is_request_param(params[i]),
        forall|j: int| 0 <= j < i ==> !is_request_param(#[trigger] params[j]),
    ensures
        request_param_spec(params) == Some(i),
{
    let k = choose|k: int| 0 <= k < params.len() && is_request_param(#[trigger] params[k]) && forall|j: int|
        0 <= j < k ==> !is_request_param(#[trigger] params[j]);
    assert(is_request_param(params[k]));
    if k < i {
        assert(!is_request_param(params[k]));
    }
    if i < k {
        assert(!is_request_param(params[i]));
    }
}

proof fn lemma_request_param_spec_none(params: Seq<(Option<Seq<char>>, Option<Seq<char>>)>)
    requires
        forall|j: int| 0 <= j < params.len() ==> !is_request_param(#[trigger] params[j]),
    ensures
        request_param_spec(params) is None,
{
}

} // verus!
