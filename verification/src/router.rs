use vstd::prelude::*;
use crate::bytes_text::{all_header_bytes, bytes_eq, join_bytes, join_spec, str_bytes, utf8};
use crate::response::{headers_view, Response};

verus! {

/// The value bound to `key` last among `entries`, if any.
pub open spec fn lookup(entries: Seq<(Seq<char>, Seq<char>)>, key: Seq<char>) -> Option<Seq<char>>
    decreases entries.len(),
{
    if entries.len() == 0 {
        None
    } else if entries.last().0 == key {
        Some(entries.last().1)
    } else {
        lookup(entries.drop_last(), key)
    }
}

/// The parameters that a route pattern captured from a request path: by
/// name, and in the order they were captured.
#[derive(Clone)]
pub struct UrlParams {
    entries: Vec<(String, String)>,
    order: Vec<String>,
}

impl UrlParams {
    /// The bindings in the order they were made.
    pub closed spec fn entries_spec(&self) -> Seq<(Seq<char>, Seq<char>)> {
        self.entries@.map_values(|p: (String, String)| (p.0@, p.1@))
    }

    /// The captured values in capture order.
    pub closed spec fn order_spec(&self) -> Seq<Seq<char>> {
        self.order@.map_values(|s: String| s@)
    }

    /// The value that `name` is bound to.
    pub open spec fn value_of(&self, name: Seq<char>) -> Option<Seq<char>> {
        lookup(self.entries_spec(), name)
    }

    /// No parameters.
    pub fn new() -> (r: UrlParams)
        ensures
            r.entries_spec().len() == 0,
            r.order_spec().len() == 0,
    {
        let r = UrlParams { entries: Vec::new(), order: Vec::new() };
        assert(r.entries_spec() =~= Seq::empty());
        assert(r.order_spec() =~= Seq::empty());
        r
    }

    /// The value of the parameter called `name`.
    pub fn get(&self, name: &str) -> (r: Option<&String>)
        ensures
            match r {
                Some(v) => self.value_of(name@) == Some(v@),
                None => self.value_of(name@) is None,
            },
    {
        let key = String::from_str(name);
        let mut i = self.entries.len();
        assert(self.entries_spec().take(i as int) =~= self.entries_spec());
        while i > 0
            invariant
                i <= self.entries@.len(),
                key@ == name@,
                lookup(self.entries_spec(), name@) == lookup(self.entries_spec().take(i as int), name@),
            decreases i,
        {
            let ghost prefix = self.entries_spec().take(i as int);
            assert(prefix.drop_last() == self.entries_spec().take(i - 1));
            assert(prefix.last() == (self.entries@[i - 1].0@, self.entries@[i - 1].1@));
            if self.entries[i - 1].0 == key {
                return Some(&self.entries[i - 1].1);
            }
            i = i - 1;
        }
        None
    }

    /// The `idx`-th captured value.
    pub fn get_at(&self, idx: usize) -> (r: Option<&String>)
        ensures
            match r {
                Some(v) => idx < self.order_spec().len() && self.order_spec()[idx as int] == v@,
                None => idx >= self.order_spec().len(),
            },
    {
        if idx < self.order.len() {
            Some(&self.order[idx])
        } else {
            None
        }
    }

    /// Binds `key` to `value` and records `value` as the next captured one.
    pub fn set(&mut self, key: &str, value: &str)
        ensures
            final(self).entries_spec() == old(self).entries_spec().push((key@, value@)),
            final(self).order_spec() == old(self).order_spec().push(value@),
    {
        let v = String::from_str(value);
        self.order.push(v.clone());
        self.entries.push((String::from_str(key), v));
        assert(self.entries_spec() =~= old(self).entries_spec().push((key@, value@)));
        assert(self.order_spec() =~= old(self).order_spec().push(value@));
    }
}

/// A route's handler with its optional name.
pub struct Entry<T> {
    pub handler: T,
    pub name: Option<String>,
}


/// Law: after `set(key, value)`, `get(key)` gives `value`, every other
/// name keeps its value, and `get_at` at the previous count gives `value`.
pub proof fn law_set_then_get(
    before: UrlParams,
    after: UrlParams,
    key: Seq<char>,
    value: Seq<char>,
)
    requires
        after.entries_spec() == before.entries_spec().push((key, value)),
        after.order_spec() == before.order_spec().push(value),
    ensures
        after.value_of(key) == Some(value),
        forall|other: Seq<char>| other != key ==> #[trigger] after.value_of(other) == before.value_of(other),
        after.order_spec()[before.order_spec().len() as int] == value,
{
    assert(after.entries_spec().drop_last() == before.entries_spec());
}

/// What the router does with a request.
pub enum RouteAction {
    /// Call the handler of the matching route once, with the parameters it
    /// captured from the path in the request's extensions.
    CallRoute(UrlParams),
    /// Call the fallback handler.
    CallFallback,
    /// Answer at once with this response.
    Respond(Response),
}

pub open spec fn allow_name() -> Seq<u8> {
    utf8("allow"@)
}

/// The decision, from whether a route matched the request's method and
/// path, the request's method, the methods of the routes that match the
/// path (in the router's order) and whether a fallback is set.
pub open spec fn route_action_spec(
    matched: bool,
    method: Seq<u8>,
    path_methods: Seq<Seq<u8>>,
    has_fallback: bool,
    r: RouteAction,
) -> bool {
    if matched {
        r is CallRoute
    } else if method == utf8("OPTIONS"@) {
        r matches RouteAction::Respond(resp) && resp.status == 204 && resp.body@.len() == 0
            && headers_view(resp.headers@) == seq![(allow_name(), join_spec(path_methods, utf8(","@)))]
    } else if has_fallback {
        r is CallFallback
    } else {
        r matches RouteAction::Respond(resp) && resp.status == 404 && resp.body@.len() == 0
            && resp.headers@.len() == 0
    }
}

/// Decides how the router answers a request: the matching route, called
/// with the parameters its pattern captured (`found`), else for
/// `OPTIONS` a `204` whose `allow` field lists the methods served at the
/// path, else the fallback, else `404`.
pub fn route_action(
    found: Option<UrlParams>,
    method: &[u8],
    path_methods: &Vec<Vec<u8>>,
    has_fallback: bool,
) -> (r: RouteAction)
    requires
        all_header_bytes(join_spec(path_methods@.map_values(|v: Vec<u8>| v@), utf8(","@))),
    ensures
        route_action_spec(found is Some, method@, path_methods@.map_values(|v: Vec<u8>| v@), has_fallback, r),
        found matches Some(params) ==> r == RouteAction::CallRoute(params),
{
    match found {
        Some(params) => RouteAction::CallRoute(params),
        None => {
            if bytes_eq(method, str_bytes("OPTIONS").as_slice()) {
                let allow = join_bytes(path_methods, str_bytes(",").as_slice());
                let mut headers: Vec<(Vec<u8>, Vec<u8>)> = Vec::new();
                headers.push((str_bytes("allow"), allow));
                let resp = Response { status: 204, headers, body: Vec::new() };
                assert(headers_view(resp.headers@) =~= seq![
                    (allow_name(), join_spec(path_methods@.map_values(|v: Vec<u8>| v@), utf8(","@))),
                ]);
                RouteAction::Respond(resp)
            } else if has_fallback {
                RouteAction::CallFallback
            } else {
                RouteAction::Respond(Response { status: 404, headers: Vec::new(), body: Vec::new() })
            }
        },
    }
}

/// Law: a request that no route matches is answered, when it is an
/// `OPTIONS` request, with `204`, an empty body and a single `allow` field
/// listing the methods served at its path joined by `,`, whether or not a
/// fallback is set, so the answers with and without one are the same; any
/// other such request goes to the fallback when one is set, and is
/// answered `404` with no field and no body otherwise.
pub proof fn law_options_answered_before_fallback(
    method: Seq<u8>,
    path_methods: Seq<Seq<u8>>,
    has_fallback: bool,
    r: RouteAction,
    without: RouteAction,
)
    requires
        route_action_spec(false, method, path_methods, has_fallback, r),
        route_action_spec(false, method, path_methods, false, without),
    ensures
        method == utf8("OPTIONS"@) ==> (r matches RouteAction::Respond(resp) && resp.status == 204
            && resp.body@.len() == 0 && headers_view(resp.headers@) == seq![
            (utf8("allow"@), join_spec(path_methods, utf8(","@))),
        ]),
        method == utf8("OPTIONS"@) ==> (without matches RouteAction::Respond(other) && (
        r matches RouteAction::Respond(resp) && other.status == resp.status && headers_view(
            other.headers@,
        ) == headers_view(resp.headers@) && other.body@ == resp.body@)),
        method != utf8("OPTIONS"@) && has_fallback ==> r is CallFallback,
        method != utf8("OPTIONS"@) && !has_fallback ==> (r matches RouteAction::Respond(resp)
            && resp.status == 404 && resp.headers@.len() == 0 && resp.body@.len() == 0),
{
}

/// A middleware layer of a route: the `i`-th global middleware, or the
/// `i`-th middleware of the `g`-th path group.
#[derive(PartialEq, Eq, Structural)]
pub enum Layer {
    Global(usize),
    Path(usize, usize),
}

/// `i-1, ..., 0` as global layers.
pub open spec fn globals_rev(n: nat) -> Seq<Layer>
    decreases n,
{
    if n == 0 {
        Seq::empty()
    } else {
        seq![Layer::Global((n - 1) as usize)] + globals_rev((n - 1) as nat)
    }
}

/// The layers of group `g` (holding `n` middlewares), last first.
pub open spec fn group_rev(g: nat, n: nat) -> Seq<Layer>
    decreases n,
{
    if n == 0 {
        Seq::empty()
    } else {
        seq![Layer::Path(g as usize, (n - 1) as usize)] + group_rev(g, (n - 1) as nat)
    }
}

/// The layers of the matching path groups among the first `k`.
pub open spec fn groups_rev(groups: Seq<(bool, usize)>, k: nat) -> Seq<Layer>
    decreases k,
{
    if k == 0 {
        Seq::empty()
    } else {
        groups_rev(groups, (k - 1) as nat) + (if groups[k - 1].0 {
            group_rev((k - 1) as nat, groups[k - 1].1 as nat)
        } else {
            Seq::empty()
        })
    }
}

/// The order in which a route's handler is wrapped, innermost layer first:
/// the global middlewares from the last registered to the first, then each
/// path group that matches the route's path (in the groups' order), its
/// middlewares from last to first. The last layer is the outermost.
pub open spec fn layer_plan_spec(globals: nat, groups: Seq<(bool, usize)>) -> Seq<Layer> {
    globals_rev(globals) + groups_rev(groups, groups.len())
}

fn push_rev(out: &mut Vec<Layer>, g: Option<usize>, n: usize)
    ensures
        final(out)@ == old(out)@ + match g {
            Some(g) => group_rev(g as nat, n as nat),
            None => globals_rev(n as nat),
        },
{
    let mut i = n;
    while i > 0
        invariant
            i <= n,
            old(out)@ + match g {
                Some(g) => group_rev(g as nat, n as nat),
                None => globals_rev(n as nat),
            } == out@ + match g {
                Some(g) => group_rev(g as nat, i as nat),
                None => globals_rev(i as nat),
            },
        decreases i,
    {
        match g {
            Some(g) => out.push(Layer::Path(g, i - 1)),
            None => out.push(Layer::Global(i - 1)),
        }
        i = i - 1;
    }
    assert(out@ =~= out@ + Seq::<Layer>::empty());
}

/// The wrapping order of a route's handler, given the number of global
/// middlewares and, for each path group, whether its path matches the
/// route's and how many middlewares it holds.
pub fn layer_plan(globals: usize, groups: &Vec<(bool, usize)>) -> (r: Vec<Layer>)
    ensures
        r@ == layer_plan_spec(globals as nat, groups@),
{
    let mut out: Vec<Layer> = Vec::new();
    push_rev(&mut out, None, globals);
    assert(out@ =~= globals_rev(globals as nat));
    let mut k: usize = 0;
    while k < groups.len()
        invariant
            k <= groups@.len(),
            out@ == globals_rev(globals as nat) + groups_rev(groups@, k as nat),
        decreases groups@.len() - k,
    {
        if groups[k].0 {
            push_rev(&mut out, Some(k), groups[k].1);
        }
        k = k + 1;
        assert(out@ =~= globals_rev(globals as nat) + groups_rev(groups@, k as nat));
    }
    out
}

/// Law: when a router is built with no path group matching a route, the
/// route's handler is wrapped by each global middleware exactly once, the
/// last registered innermost and the first registered outermost.
pub proof fn law_first_global_outermost(globals: nat, groups: Seq<(bool, usize)>)
    requires
        globals <= usize::MAX,
        forall|i: int| 0 <= i < groups.len() ==> !(#[trigger] groups[i]).0,
    ensures
        layer_plan_spec(globals, groups).len() == globals,
        forall|i: int|
            0 <= i < globals ==> #[trigger] layer_plan_spec(globals, groups)[i] == Layer::Global(
                (globals - 1 - i) as usize,
            ),
        globals > 0 ==> layer_plan_spec(globals, groups).last() == Layer::Global(0),
{
    lemma_no_groups(groups, groups.len());
    lemma_globals_rev(globals);
    assert(layer_plan_spec(globals, groups) =~= globals_rev(globals));
}

proof fn lemma_no_groups(groups: Seq<(bool, usize)>, k: nat)
    requires
        k <= groups.len(),
        forall|i: int| 0 <= i < groups.len() ==> !(#[trigger] groups[i]).0,
    ensures
        groups_rev(groups, k) == Seq::<Layer>::empty(),
    decreases k,
{
    if k > 0 {
        lemma_no_groups(groups, (k - 1) as nat);
        assert(!groups[k - 1].0);
    }
}

proof fn lemma_globals_rev(n: nat)
    requires
        n <= usize::MAX,
    ensures
        globals_rev(n).len() == n,
        forall|i: int| 0 <= i < n ==> #[trigger] globals_rev(n)[i] == Layer::Global((n - 1 - i) as usize),
    decreases n,
{
    if n > 0 {
        let rest = globals_rev((n - 1) as nat);
        lemma_globals_rev((n - 1) as nat);
        assert(globals_rev(n) == seq![Layer::Global((n - 1) as usize)] + rest);
        assert forall|i: int| 0 <= i < n implies #[trigger] globals_rev(n)[i] == Layer::Global(
            (n - 1 - i) as usize,
        ) by {
            if i > 0 {
                assert(globals_rev(n)[i] == rest[i - 1]);
            }
        }
    }
}

} // verus!
