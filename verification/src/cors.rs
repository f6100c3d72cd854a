use vstd::prelude::*;
use crate::bytes_text::{
    lemma_decimal_is_header_value, lemma_join_header_bytes, lemma_printable_text_is_header_value,
    all_header_bytes, bytes_eq, decimal, decimal_spec, is_valid_header_value, join_bytes,
    join_spec, str_bytes, utf8,
};
use crate::method::{lemma_method_names_valid, MethodFilter};

verus! {

/// The response header fields that the CORS policy sets.
#[derive(PartialEq, Eq, Structural)]
pub enum CorsHeader {
    AllowOrigin,
    AllowHeaders,
    AllowMethods,
    AllowCredentials,
    MaxAge,
}

impl CorsHeader {
    pub open spec fn name_spec(&self) -> Seq<char> {
        match self {
            CorsHeader::AllowOrigin => "access-control-allow-origin"@,
            CorsHeader::AllowHeaders => "access-control-allow-headers"@,
            CorsHeader::AllowMethods => "access-control-allow-methods"@,
            CorsHeader::AllowCredentials => "access-control-allow-credentials"@,
            CorsHeader::MaxAge => "access-control-max-age"@,
        }
    }

    /// The field's name, in lower case.
    pub fn name(&self) -> (r: Vec<u8>)
        ensures
            r@ == utf8(self.name_spec()),
    {
        match self {
            CorsHeader::AllowOrigin => str_bytes("access-control-allow-origin"),
            CorsHeader::AllowHeaders => str_bytes("access-control-allow-headers"),
            CorsHeader::AllowMethods => str_bytes("access-control-allow-methods"),
            CorsHeader::AllowCredentials => str_bytes("access-control-allow-credentials"),
            CorsHeader::MaxAge => str_bytes("access-control-max-age"),
        }
    }
}

/// Setting a header field to a value, replacing what it held.
pub type HeaderSet = (CorsHeader, Vec<u8>);

pub open spec fn sets_view(s: Seq<HeaderSet>) -> Seq<(CorsHeader, Seq<u8>)> {
    s.map_values(|p: HeaderSet| (p.0, p.1@))
}

/// Which origins a response admits.
pub enum AllowedOrigins {
    /// Any origin (`*`).
    Any,
    /// One origin, as header value bytes.
    Origin(Vec<u8>),
    /// The origin of the request; it is answered where the request is at
    /// hand, so the policy itself sets nothing.
    Request,
}

/// Which request header fields a preflight response admits.
pub enum AllowedHeaders {
    /// Any header field (`*`).
    Any,
    /// The listed field names.
    List(Vec<String>),
    /// Those of the request; the policy itself sets nothing.
    Request,
}

impl AllowedOrigins {
    pub open spec fn sets_spec(&self) -> Seq<(CorsHeader, Seq<u8>)> {
        match self {
            AllowedOrigins::Any => seq![(CorsHeader::AllowOrigin, utf8("*"@))],
            AllowedOrigins::Origin(v) => seq![(CorsHeader::AllowOrigin, v@)],
            AllowedOrigins::Request => Seq::empty(),
        }
    }

    fn apply(&self, sets: &mut Vec<HeaderSet>)
        ensures
            sets_view(final(sets)@) == sets_view(old(sets)@) + self.sets_spec(),
    {
        match self {
            AllowedOrigins::Any => {
                sets.push((CorsHeader::AllowOrigin, str_bytes("*")));
            },
            AllowedOrigins::Origin(v) => {
                sets.push((CorsHeader::AllowOrigin, v.clone()));
            },
            AllowedOrigins::Request => {},
        }
        assert(sets_view(sets@) =~= sets_view(old(sets)@) + self.sets_spec());
    }
}

/// The names of a header list joined by `", "`, as bytes.
pub open spec fn header_list_spec(list: Seq<String>) -> Seq<u8> {
    join_spec(list.map_values(|s: String| utf8(s@)), utf8(", "@))
}

impl AllowedHeaders {
    pub open spec fn sets_spec(&self) -> Seq<(CorsHeader, Seq<u8>)> {
        match self {
            AllowedHeaders::Any => seq![(CorsHeader::AllowHeaders, utf8("*"@))],
            AllowedHeaders::List(list) => {
                let joined = header_list_spec(list@);
                if all_header_bytes(joined) {
                    seq![(CorsHeader::AllowHeaders, joined)]
                } else {
                    Seq::empty()
                }
            },
            AllowedHeaders::Request => Seq::empty(),
        }
    }

    /// Appends the field this policy sets: `*` for any header, the list
    /// joined by `", "` when that is a valid header value (else nothing),
    /// nothing for the request's own.
    pub fn apply(&self, sets: &mut Vec<HeaderSet>)
        ensures
            sets_view(final(sets)@) == sets_view(old(sets)@) + self.sets_spec(),
    {
        match self {
            AllowedHeaders::Any => {
                sets.push((CorsHeader::AllowHeaders, str_bytes("*")));
            },
            AllowedHeaders::List(list) => {
                let joined = join_header_list(list);
                if is_valid_header_value(joined.as_slice()) {
                    sets.push((CorsHeader::AllowHeaders, joined));
                }
            },
            AllowedHeaders::Request => {},
        }
        assert(sets_view(sets@) =~= sets_view(old(sets)@) + self.sets_spec());
    }
}

fn join_header_list(list: &Vec<String>) -> (r: Vec<u8>)
    ensures
        r@ == header_list_spec(list@),
{
    let mut parts: Vec<Vec<u8>> = Vec::new();
    let mut i: usize = 0;
    while i < list.len()
        invariant
            i <= list@.len(),
            parts@.map_values(|p: Vec<u8>| p@) == list@.take(i as int).map_values(
                |s: String| utf8(s@),
            ),
        decreases list@.len() - i,
    {
        let b = str_bytes(list[i].as_str());
        assert(b@ == utf8(list@[i as int]@));
        let ghost old_parts = parts@;
        parts.push(b);
        assert(parts@.map_values(|p: Vec<u8>| p@) =~= old_parts.map_values(|p: Vec<u8>| p@).push(b@));
        assert(list@.take(i + 1).map_values(|s: String| utf8(s@)) =~= list@.take(i as int).map_values(
            |s: String| utf8(s@),
        ).push(utf8(list@[i as int]@)));
        i = i + 1;
        assert(parts@.map_values(|p: Vec<u8>| p@) =~= list@.take(i as int).map_values(
            |s: String| utf8(s@),
        ));
    }
    assert(list@.take(list@.len() as int) == list@);
    join_bytes(&parts, str_bytes(", ").as_slice())
}


/// The CORS policy: what a response admits.
pub struct CorsOptions {
    origins: AllowedOrigins,
    headers: AllowedHeaders,
    methods: MethodFilter,
    max_age: Option<u64>,
    credentials: bool,
}

/// The methods that a policy admits unless told otherwise: GET, POST, PUT,
/// PATCH and DELETE.
pub open spec fn default_methods(m: MethodFilter) -> bool {
    m.get && m.post && m.put && m.patch && m.delete && !m.head && !m.options && !m.connect
        && !m.trace
}

impl CorsOptions {
    pub closed spec fn origins_spec(&self) -> AllowedOrigins {
        self.origins
    }

    pub closed spec fn headers_spec(&self) -> AllowedHeaders {
        self.headers
    }

    pub closed spec fn methods_spec(&self) -> MethodFilter {
        self.methods
    }

    /// The cache lifetime of a preflight answer, in seconds.
    pub closed spec fn max_age_spec(&self) -> Option<u64> {
        self.max_age
    }

    pub closed spec fn credentials_spec(&self) -> bool {
        self.credentials
    }

    /// The default policy: the request's origin and headers, the default
    /// methods, no max age, no credentials.
    pub fn default() -> (r: CorsOptions)
        ensures
            r.origins_spec() is Request,
            r.headers_spec() is Request,
            default_methods(r.methods_spec()),
            r.max_age_spec() is None,
            !r.credentials_spec(),
    {
        let methods = MethodFilter {
            get: true,
            post: true,
            put: true,
            patch: true,
            delete: true,
            head: false,
            options: false,
            connect: false,
            trace: false,
        };
        CorsOptions {
            origins: AllowedOrigins::Request,
            headers: AllowedHeaders::Request,
            methods,
            max_age: None,
            credentials: false,
        }
    }

    /// The fields that the policy sets on a response, in order: the
    /// origin; for a preflight the headers and the methods (joined by `,`);
    /// `true` for credentials; the max age in decimal seconds.
    pub open spec fn sets_spec(&self, preflight: bool) -> Seq<(CorsHeader, Seq<u8>)> {
        self.origins_spec().sets_spec() + (if preflight {
            self.headers_spec().sets_spec() + seq![
                (CorsHeader::AllowMethods, join_spec(self.methods_spec().names_spec(), utf8(","@))),
            ]
        } else {
            Seq::empty()
        }) + (if self.credentials_spec() {
            seq![(CorsHeader::AllowCredentials, utf8("true"@))]
        } else {
            Seq::empty()
        }) + (match self.max_age_spec() {
            Some(secs) => seq![(CorsHeader::MaxAge, decimal_spec(secs as nat))],
            None => Seq::empty(),
        })
    }

    /// Appends the fields that the policy sets on a response.
    pub fn apply(&self, sets: &mut Vec<HeaderSet>, preflight: bool)
        ensures
            sets_view(final(sets)@) == sets_view(old(sets)@) + self.sets_spec(preflight),
    {
        self.origins.apply(sets);
        let ghost after_origin = sets_view(sets@);
        if preflight {
            self.headers.apply(sets);
            let ghost after_headers = sets_view(sets@);
            let names = self.methods.names();
            let sep = str_bytes(",");
            let methods = join_bytes(&names, sep.as_slice());
            assert(methods@ == join_spec(self.methods_spec().names_spec(), utf8(","@)));
            sets.push((CorsHeader::AllowMethods, methods));
            assert(sets_view(sets@) =~= after_headers.push(
                (CorsHeader::AllowMethods, join_spec(self.methods_spec().names_spec(), utf8(","@))),
            ));
        }
        let ghost after_preflight = sets_view(sets@);
        assert(after_preflight =~= after_origin + (if preflight {
            self.headers_spec().sets_spec() + seq![
                (CorsHeader::AllowMethods, join_spec(self.methods_spec().names_spec(), utf8(","@))),
            ]
        } else {
            Seq::empty()
        }));
        if self.credentials {
            sets.push((CorsHeader::AllowCredentials, str_bytes("true")));
        }
        let ghost after_credentials = sets_view(sets@);
        assert(after_credentials =~= after_preflight + (if self.credentials_spec() {
            seq![(CorsHeader::AllowCredentials, utf8("true"@))]
        } else {
            Seq::empty()
        }));
        match self.max_age {
            Some(secs) => {
                sets.push((CorsHeader::MaxAge, decimal(secs)));
            },
            None => {},
        }
        assert(sets_view(sets@) =~= after_credentials + (match self.max_age_spec() {
            Some(secs) => seq![(CorsHeader::MaxAge, decimal_spec(secs as nat))],
            None => Seq::empty(),
        }));
        assert(sets_view(sets@) =~= sets_view(old(sets)@) + self.sets_spec(preflight));
    }
}

/// The CORS middleware: answers each request through the wrapped work and
/// sets the policy's fields on the response.
pub struct Cors {
    opts: CorsOptions,
}

impl Cors {
    pub closed spec fn options(&self) -> CorsOptions {
        self.opts
    }

    /// A middleware with the default policy.
    pub fn new() -> (r: Cors)
        ensures
            r.options().origins_spec() is Request,
            r.options().headers_spec() is Request,
            default_methods(r.options().methods_spec()),
            r.options().max_age_spec() is None,
            !r.options().credentials_spec(),
    {
        Cors { opts: CorsOptions::default() }
    }

    /// The same policy, admitting `methods`.
    pub fn allowed_methods(self, methods: MethodFilter) -> (r: Cors)
        ensures
            r.options().methods_spec() == methods,
            r.options().origins_spec() == self.options().origins_spec(),
            r.options().headers_spec() == self.options().headers_spec(),
            r.options().max_age_spec() == self.options().max_age_spec(),
            r.options().credentials_spec() == self.options().credentials_spec(),
    {
        let mut opts = self.opts;
        opts.methods = methods;
        Cors { opts }
    }

    /// The same policy, admitting `headers`.
    pub fn allowed_headers(self, headers: AllowedHeaders) -> (r: Cors)
        ensures
            r.options().headers_spec() == headers,
            r.options().origins_spec() == self.options().origins_spec(),
            r.options().methods_spec() == self.options().methods_spec(),
            r.options().max_age_spec() == self.options().max_age_spec(),
            r.options().credentials_spec() == self.options().credentials_spec(),
    {
        let mut opts = self.opts;
        opts.headers = headers;
        Cors { opts }
    }

    /// The same policy, admitting `origin`; a single origin must be a
    /// valid header value.
    pub fn allowed_origin(self, origin: AllowedOrigins) -> (r: Cors)
        requires
            origin matches AllowedOrigins::Origin(v) ==> all_header_bytes(v@),
        ensures
            r.options().origins_spec() == origin,
            r.options().headers_spec() == self.options().headers_spec(),
            r.options().methods_spec() == self.options().methods_spec(),
            r.options().max_age_spec() == self.options().max_age_spec(),
            r.options().credentials_spec() == self.options().credentials_spec(),
    {
        let mut opts = self.opts;
        opts.origins = origin;
        Cors { opts }
    }
}

impl AllowedOrigins {
    /// A copy of the setting.
    pub fn copy(&self) -> (r: AllowedOrigins)
        ensures
            match (*self, r) {
                (AllowedOrigins::Any, AllowedOrigins::Any) => true,
                (AllowedOrigins::Request, AllowedOrigins::Request) => true,
                (AllowedOrigins::Origin(a), AllowedOrigins::Origin(b)) => a@ == b@,
                _ => false,
            },
            r.sets_spec() == self.sets_spec(),
    {
        match self {
            AllowedOrigins::Any => AllowedOrigins::Any,
            AllowedOrigins::Origin(v) => AllowedOrigins::Origin(v.clone()),
            AllowedOrigins::Request => AllowedOrigins::Request,
        }
    }
}

impl AllowedHeaders {
    /// A copy of the setting.
    pub fn copy(&self) -> (r: AllowedHeaders)
        ensures
            match (*self, r) {
                (AllowedHeaders::Any, AllowedHeaders::Any) => true,
                (AllowedHeaders::Request, AllowedHeaders::Request) => true,
                (AllowedHeaders::List(a), AllowedHeaders::List(b)) => b@.map_values(|s: String| s@)
                    == a@.map_values(|s: String| s@),
                _ => false,
            },
            r.sets_spec() == self.sets_spec(),
    {
        match self {
            AllowedHeaders::Any => AllowedHeaders::Any,
            AllowedHeaders::List(list) => {
                let mut out: Vec<String> = Vec::new();
                let mut i: usize = 0;
                while i < list.len()
                    invariant
                        i <= list@.len(),
                        out@.map_values(|s: String| s@) == list@.take(i as int).map_values(
                            |s: String| s@,
                        ),
                    decreases list@.len() - i,
                {
                    let c = list[i].clone();
                    assert(c@ == list@[i as int]@);
                    let ghost before = out@.map_values(|s: String| s@);
                    out.push(c);
                    assert(out@.map_values(|s: String| s@) =~= before.push(c@));
                    assert(list@.take(i + 1).map_values(|s: String| s@) =~= list@.take(
                        i as int,
                    ).map_values(|s: String| s@).push(list@[i as int]@));
                    i = i + 1;
                    assert(out@.map_values(|s: String| s@) =~= list@.take(i as int).map_values(
                        |s: String| s@,
                    ));
                }
                assert(list@.take(list@.len() as int) == list@);
                let r = AllowedHeaders::List(out);
                assert(out@.map_values(|s: String| utf8(s@)) =~= list@.map_values(
                    |s: String| utf8(s@),
                )) by {
                    assert forall|k: int| 0 <= k < out@.len() implies out@[k]@ == list@[k]@ by {
                        assert(out@.map_values(|s: String| s@)[k] == list@.map_values(
                            |s: String| s@,
                        )[k]);
                    }
                }
                r
            },
            AllowedHeaders::Request => AllowedHeaders::Request,
        }
    }
}

impl CorsOptions {
    /// A copy of the policy.
    pub fn copy(&self) -> (r: CorsOptions)
        ensures
            forall|preflight: bool| #[trigger] r.sets_spec(preflight) == self.sets_spec(preflight),
            r.methods_spec() == self.methods_spec(),
            r.max_age_spec() == self.max_age_spec(),
            r.credentials_spec() == self.credentials_spec(),
    {
        CorsOptions {
            origins: self.origins.copy(),
            headers: self.headers.copy(),
            methods: MethodFilter {
                get: self.methods.get,
                post: self.methods.post,
                put: self.methods.put,
                patch: self.methods.patch,
                delete: self.methods.delete,
                head: self.methods.head,
                options: self.methods.options,
                connect: self.methods.connect,
                trace: self.methods.trace,
            },
            max_age: self.max_age,
            credentials: self.credentials,
        }
    }
}

/// Work wrapped by [`Cors`]: the policy and the inner work.
pub struct CorsWork<T> {
    opts: CorsOptions,
    work: T,
}

impl Cors {
    /// Wraps `work` under this policy.
    pub fn wrap<T>(&self, work: T) -> (r: CorsWork<T>)
        ensures
            r.work() == work,
            forall|preflight: bool| #[trigger] r.options().sets_spec(preflight) == self.options().sets_spec(
                preflight,
            ),
    {
        CorsWork { opts: self.opts.copy(), work }
    }
}

impl<T> CorsWork<T> {
    pub closed spec fn options(&self) -> CorsOptions {
        self.opts
    }

    pub closed spec fn work(&self) -> T {
        self.work
    }

    /// The wrapped work.
    pub fn inner(&self) -> (r: &T)
        ensures
            *r == self.work(),
    {
        &self.work
    }

    /// The fields to set on the response of the inner work, for a request
    /// with this method and with or without `Access-Control-Request-Method`.
    pub fn response_sets(&self, method: &[u8], has_request_method: bool) -> (r: Vec<HeaderSet>)
        ensures
            sets_view(r@) == response_sets_spec(self.options(), CorsPlan {
                preflight: is_options(method@),
                passthrough: is_options(method@) && !has_request_method,
            }),
    {
        let plan = cors_plan(method, has_request_method);
        let mut sets: Vec<HeaderSet> = Vec::new();
        if !plan.passthrough {
            self.opts.apply(&mut sets, plan.preflight);
        }
        assert(sets_view(sets@) =~= response_sets_spec(self.options(), plan));
        sets
    }
}

/// How the middleware treats one request.
pub struct CorsPlan {
    /// The request is an `OPTIONS` request.
    pub preflight: bool,
    /// The response goes back untouched: an `OPTIONS` request without an
    /// `Access-Control-Request-Method` field is no CORS preflight.
    pub passthrough: bool,
}

pub open spec fn is_options(method: Seq<u8>) -> bool {
    method == utf8("OPTIONS"@)
}

/// Decides, from the request's method and whether it carries an
/// `Access-Control-Request-Method` field, how its response is treated.
pub fn cors_plan(method: &[u8], has_request_method: bool) -> (r: CorsPlan)
    ensures
        r.preflight == is_options(method@),
        r.passthrough == (is_options(method@) && !has_request_method),
{
    let preflight = bytes_eq(method, str_bytes("OPTIONS").as_slice());
    CorsPlan { preflight, passthrough: preflight && !has_request_method }
}

pub open spec fn response_sets_spec(opts: CorsOptions, plan: CorsPlan) -> Seq<(CorsHeader, Seq<u8>)> {
    if plan.passthrough {
        Seq::empty()
    } else {
        opts.sets_spec(plan.preflight)
    }
}

impl Cors {
    /// The fields to set on the response that the wrapped work produced
    /// for a request treated by `plan`.
    pub fn response_sets(&self, plan: &CorsPlan) -> (r: Vec<HeaderSet>)
        ensures
            sets_view(r@) == response_sets_spec(self.options(), *plan),
    {
        let mut sets: Vec<HeaderSet> = Vec::new();
        if !plan.passthrough {
            self.opts.apply(&mut sets, plan.preflight);
        }
        assert(sets_view(sets@) =~= response_sets_spec(self.options(), *plan));
        sets
    }
}


/// The position of a field in the order in which the policy sets them.
pub open spec fn header_rank(h: CorsHeader) -> int {
    match h {
        CorsHeader::AllowOrigin => 0,
        CorsHeader::AllowHeaders => 1,
        CorsHeader::AllowMethods => 2,
        CorsHeader::AllowCredentials => 3,
        CorsHeader::MaxAge => 4,
    }
}

pub open spec fn ranks_increase(s: Seq<(CorsHeader, Seq<u8>)>) -> bool {
    forall|i: int, j: int|
        0 <= i < j < s.len() ==> header_rank(#[trigger] s[i].0) < header_rank(#[trigger] s[j].0)
}

proof fn lemma_ranks_concat(a: Seq<(CorsHeader, Seq<u8>)>, b: Seq<(CorsHeader, Seq<u8>)>)
    requires
        ranks_increase(a),
        ranks_increase(b),
        forall|i: int, j: int|
            0 <= i < a.len() && 0 <= j < b.len() ==> header_rank(#[trigger] a[i].0) < header_rank(
                #[trigger] b[j].0,
            ),
    ensures
        ranks_increase(a + b),
{
    assert forall|i: int, j: int| 0 <= i < j < (a + b).len() implies header_rank(
        #[trigger] (a + b)[i].0,
    ) < header_rank(#[trigger] (a + b)[j].0) by {
        if j < a.len() {
            assert((a + b)[i] == a[i]);
            assert((a + b)[j] == a[j]);
        } else if i < a.len() {
            assert((a + b)[i] == a[i]);
            assert((a + b)[j] == b[j - a.len()]);
        } else {
            assert((a + b)[i] == b[i - a.len()]);
            assert((a + b)[j] == b[j - a.len()]);
        }
    }
}

/// Law: the policy sets each field at most once on a response, in a fixed
/// order (origin, headers, methods, credentials, max age).
pub proof fn law_fields_set_once(opts: CorsOptions, preflight: bool)
    ensures
        ranks_increase(opts.sets_spec(preflight)),
        forall|i: int, j: int|
            0 <= i < j < opts.sets_spec(preflight).len() ==> #[trigger] opts.sets_spec(
                preflight,
            )[i].0 != #[trigger] opts.sets_spec(preflight)[j].0,
{
    let o = opts.origins_spec().sets_spec();
    let h = opts.headers_spec().sets_spec();
    let m: Seq<(CorsHeader, Seq<u8>)> = seq![
        (CorsHeader::AllowMethods, join_spec(opts.methods_spec().names_spec(), utf8(","@))),
    ];
    let p = if preflight { h + m } else { Seq::empty() };
    let c: Seq<(CorsHeader, Seq<u8>)> = if opts.credentials_spec() {
        seq![(CorsHeader::AllowCredentials, utf8("true"@))]
    } else {
        Seq::empty()
    };
    let a: Seq<(CorsHeader, Seq<u8>)> = match opts.max_age_spec() {
        Some(secs) => seq![(CorsHeader::MaxAge, decimal_spec(secs as nat))],
        None => Seq::empty(),
    };
    assert(o.len() <= 1 && (o.len() == 1 ==> o[0].0 == CorsHeader::AllowOrigin));
    assert(h.len() <= 1 && (h.len() == 1 ==> h[0].0 == CorsHeader::AllowHeaders));
    lemma_ranks_concat(h, m);
    lemma_ranks_concat(o, p);
    lemma_ranks_concat(o + p, c);
    lemma_ranks_concat(o + p + c, a);
    assert(opts.sets_spec(preflight) == o + p + c + a);
}

/// Law: a response to an `OPTIONS` request without an
/// `Access-Control-Request-Method` field is left untouched.
pub proof fn law_passthrough_untouched(opts: CorsOptions, plan: CorsPlan)
    requires
        plan.passthrough,
    ensures
        response_sets_spec(opts, plan).len() == 0,
{
}

/// Law: the response to a request that is not `OPTIONS` gets neither the
/// allowed headers nor the allowed methods.
pub proof fn law_simple_request_no_preflight_fields(opts: CorsOptions, plan: CorsPlan)
    requires
        !plan.preflight,
    ensures
        forall|i: int|
            0 <= i < response_sets_spec(opts, plan).len() ==> (#[trigger] response_sets_spec(
                opts,
                plan,
            )[i]).0 != CorsHeader::AllowHeaders && response_sets_spec(opts, plan)[i].0
                != CorsHeader::AllowMethods,
{
    if !plan.passthrough {
        law_fields_set_once(opts, false);
        let s = opts.sets_spec(false);
        assert forall|i: int| 0 <= i < s.len() implies (#[trigger] s[i]).0 != CorsHeader::AllowHeaders
            && s[i].0 != CorsHeader::AllowMethods by {
            let o = opts.origins_spec().sets_spec();
            let c: Seq<(CorsHeader, Seq<u8>)> = if opts.credentials_spec() {
                seq![(CorsHeader::AllowCredentials, utf8("true"@))]
            } else {
                Seq::empty()
            };
            let a: Seq<(CorsHeader, Seq<u8>)> = match opts.max_age_spec() {
                Some(secs) => seq![(CorsHeader::MaxAge, decimal_spec(secs as nat))],
                None => Seq::empty(),
            };
            assert(s == o + Seq::<(CorsHeader, Seq<u8>)>::empty() + c + a);
            if i < o.len() {
                assert(s[i] == o[i]);
            } else if i < o.len() + c.len() {
                assert(s[i] == c[i - o.len()]);
            } else {
                assert(s[i] == a[i - o.len() - c.len()]);
            }
        }
    }
}

/// Law: the response to a CORS preflight names the admitted methods,
/// joined by `,`, in one `access-control-allow-methods` field.
pub proof fn law_preflight_lists_methods(opts: CorsOptions, plan: CorsPlan)
    requires
        plan.preflight,
        !plan.passthrough,
    ensures
        exists|i: int|
            0 <= i < response_sets_spec(opts, plan).len() && #[trigger] response_sets_spec(
                opts,
                plan,
            )[i] == (CorsHeader::AllowMethods, join_spec(
                opts.methods_spec().names_spec(),
                utf8(","@),
            )),
{
    let o = opts.origins_spec().sets_spec();
    let h = opts.headers_spec().sets_spec();
    let s = opts.sets_spec(true);
    let k: int = (o.len() + h.len()) as int;
    let m: Seq<(CorsHeader, Seq<u8>)> = seq![
        (CorsHeader::AllowMethods, join_spec(opts.methods_spec().names_spec(), utf8(","@))),
    ];
    let c: Seq<(CorsHeader, Seq<u8>)> = if opts.credentials_spec() {
        seq![(CorsHeader::AllowCredentials, utf8("true"@))]
    } else {
        Seq::empty()
    };
    let a: Seq<(CorsHeader, Seq<u8>)> = match opts.max_age_spec() {
        Some(secs) => seq![(CorsHeader::MaxAge, decimal_spec(secs as nat))],
        None => Seq::empty(),
    };
    assert(response_sets_spec(opts, plan) == s);
    assert(s == o + (h + m) + c + a);
    assert((o + (h + m) + c + a)[k] == m[0]);
    assert(s[k] == (CorsHeader::AllowMethods, join_spec(opts.methods_spec().names_spec(), utf8(","@))));
}

/// Law: every value the policy sets is a valid header value, provided a
/// configured origin is one.
pub proof fn law_values_are_header_values(opts: CorsOptions, preflight: bool)
    requires
        opts.origins_spec() matches AllowedOrigins::Origin(v) ==> all_header_bytes(v@),
    ensures
        forall|i: int|
            0 <= i < opts.sets_spec(preflight).len() ==> all_header_bytes(
                (#[trigger] opts.sets_spec(preflight)[i]).1,
            ),
{
    reveal_strlit("*");
    reveal_strlit(",");
    reveal_strlit("true");
    lemma_printable_text_is_header_value("*"@);
    lemma_printable_text_is_header_value(","@);
    lemma_printable_text_is_header_value("true"@);
    lemma_method_names_valid(opts.methods_spec());
    lemma_join_header_bytes(opts.methods_spec().names_spec(), utf8(","@));
    let s = opts.sets_spec(preflight);
    match opts.max_age_spec() {
        Some(secs) => lemma_decimal_is_header_value(secs as nat),
        None => {},
    }
    let o = opts.origins_spec().sets_spec();
    let h = opts.headers_spec().sets_spec();
    let m: Seq<(CorsHeader, Seq<u8>)> = seq![
        (CorsHeader::AllowMethods, join_spec(opts.methods_spec().names_spec(), utf8(","@))),
    ];
    let p = if preflight { h + m } else { Seq::empty() };
    let c: Seq<(CorsHeader, Seq<u8>)> = if opts.credentials_spec() {
        seq![(CorsHeader::AllowCredentials, utf8("true"@))]
    } else {
        Seq::empty()
    };
    let a: Seq<(CorsHeader, Seq<u8>)> = match opts.max_age_spec() {
        Some(secs) => seq![(CorsHeader::MaxAge, decimal_spec(secs as nat))],
        None => Seq::empty(),
    };
    assert(s == o + p + c + a);
    assert forall|i: int| 0 <= i < s.len() implies all_header_bytes((#[trigger] s[i]).1) by {
        if i < o.len() {
            assert(s[i] == o[i]);
        } else if i < o.len() + p.len() {
            assert(s[i] == p[i - o.len()]);
            if preflight {
                if i - o.len() < h.len() {
                    assert(p[i - o.len()] == h[i - o.len()]);
                } else {
                    assert(p[i - o.len()] == m[i - o.len() - h.len()]);
                }
            }
        } else if i < o.len() + p.len() + c.len() {
            assert(s[i] == c[i - o.len() - p.len()]);
        } else {
            assert(s[i] == a[i - o.len() - p.len() - c.len()]);
        }
    }
}

/// Whether `sets` sets the field `h` to `v`.
pub open spec fn sets_field(sets: Seq<(CorsHeader, Seq<u8>)>, h: CorsHeader, v: Seq<u8>) -> bool {
    exists|i: int| 0 <= i < sets.len() && #[trigger] sets[i] == (h, v)
}

/// Whether `sets` leaves the field `h` alone.
pub open spec fn leaves_field(sets: Seq<(CorsHeader, Seq<u8>)>, h: CorsHeader) -> bool {
    forall|i: int| 0 <= i < sets.len() ==> #[trigger] sets[i].0 != h
}

proof fn lemma_fields_concat(
    a: Seq<(CorsHeader, Seq<u8>)>,
    b: Seq<(CorsHeader, Seq<u8>)>,
    h: CorsHeader,
    v: Seq<u8>,
)
    ensures
        sets_field(a, h, v) ==> sets_field(a + b, h, v),
        sets_field(b, h, v) ==> sets_field(a + b, h, v),
        leaves_field(a, h) && leaves_field(b, h) ==> leaves_field(a + b, h),
{
    if sets_field(a, h, v) {
        let i = choose|i: int| 0 <= i < a.len() && #[trigger] a[i] == (h, v);
        assert((a + b)[i] == (h, v));
    }
    if sets_field(b, h, v) {
        let i = choose|i: int| 0 <= i < b.len() && #[trigger] b[i] == (h, v);
        assert((a + b)[a.len() + i] == (h, v));
    }
    if leaves_field(a, h) && leaves_field(b, h) {
        assert forall|i: int| 0 <= i < (a + b).len() implies #[trigger] (a + b)[i].0 != h by {
            if i < a.len() {
                assert((a + b)[i] == a[i]);
            } else {
                assert((a + b)[i] == b[i - a.len()]);
            }
        }
    }
}

proof fn lemma_one_field(h: CorsHeader, v: Seq<u8>, other: CorsHeader)
    ensures
        sets_field(seq![(h, v)], h, v),
        other != h ==> leaves_field(seq![(h, v)], other),
        leaves_field(Seq::<(CorsHeader, Seq<u8>)>::empty(), other),
{
    assert(seq![(h, v)][0] == (h, v));
}

/// Law: a response that the policy answers (no passthrough) carries each
/// setting as its own field: the origin (`*` for any, the configured one,
/// none for the request's); on a preflight the headers (`*` for any, the
/// list joined by `", "` when that is a valid header value, none for the
/// request's) and the methods joined by `,`; `true` for credentials; the
/// max age in decimal seconds. A field whose setting asks for nothing, and
/// the headers and methods of a request that is no preflight, are left
/// alone.
pub proof fn law_settings_reach_response(opts: CorsOptions, plan: CorsPlan)
    requires
        !plan.passthrough,
    ensures
        opts.origins_spec() is Any ==> sets_field(
            response_sets_spec(opts, plan),
            CorsHeader::AllowOrigin,
            utf8("*"@),
        ),
        opts.origins_spec() matches AllowedOrigins::Origin(v) ==> sets_field(
            response_sets_spec(opts, plan),
            CorsHeader::AllowOrigin,
            v@,
        ),
        opts.origins_spec() is Request ==> leaves_field(
            response_sets_spec(opts, plan),
            CorsHeader::AllowOrigin,
        ),
        plan.preflight && opts.headers_spec() is Any ==> sets_field(
            response_sets_spec(opts, plan),
            CorsHeader::AllowHeaders,
            utf8("*"@),
        ),
        plan.preflight ==> (opts.headers_spec() matches AllowedHeaders::List(l) ==> (all_header_bytes(
            join_spec(l@.map_values(|s: String| utf8(s@)), utf8(", "@)),
        ) ==> sets_field(
            response_sets_spec(opts, plan),
            CorsHeader::AllowHeaders,
            join_spec(l@.map_values(|s: String| utf8(s@)), utf8(", "@)),
        ))),
        !plan.preflight || opts.headers_spec() is Request ==> leaves_field(
            response_sets_spec(opts, plan),
            CorsHeader::AllowHeaders,
        ),
        plan.preflight ==> sets_field(
            response_sets_spec(opts, plan),
            CorsHeader::AllowMethods,
            join_spec(opts.methods_spec().names_spec(), utf8(","@)),
        ),
        !plan.preflight ==> leaves_field(response_sets_spec(opts, plan), CorsHeader::AllowMethods),
        opts.credentials_spec() ==> sets_field(
            response_sets_spec(opts, plan),
            CorsHeader::AllowCredentials,
            utf8("true"@),
        ),
        !opts.credentials_spec() ==> leaves_field(
            response_sets_spec(opts, plan),
            CorsHeader::AllowCredentials,
        ),
        opts.max_age_spec() matches Some(secs) ==> sets_field(
            response_sets_spec(opts, plan),
            CorsHeader::MaxAge,
            decimal_spec(secs as nat),
        ),
        opts.max_age_spec() is None ==> leaves_field(
            response_sets_spec(opts, plan),
            CorsHeader::MaxAge,
        ),
{
    let pre = plan.preflight;
    let o = opts.origins_spec().sets_spec();
    let h = opts.headers_spec().sets_spec();
    let m: Seq<(CorsHeader, Seq<u8>)> = seq![
        (CorsHeader::AllowMethods, join_spec(opts.methods_spec().names_spec(), utf8(","@))),
    ];
    let p = if pre { h + m } else { Seq::empty() };
    let c: Seq<(CorsHeader, Seq<u8>)> = if opts.credentials_spec() {
        seq![(CorsHeader::AllowCredentials, utf8("true"@))]
    } else {
        Seq::empty()
    };
    let a: Seq<(CorsHeader, Seq<u8>)> = match opts.max_age_spec() {
        Some(secs) => seq![(CorsHeader::MaxAge, decimal_spec(secs as nat))],
        None => Seq::empty(),
    };
    let all = response_sets_spec(opts, plan);
    assert(all == o + p + c + a);
    assert forall|x: CorsHeader, v: Seq<u8>| #![trigger sets_field(all, x, v)]
        (sets_field(o, x, v) || sets_field(p, x, v) || sets_field(c, x, v) || sets_field(a, x, v))
            implies sets_field(all, x, v) by {
        lemma_fields_concat(o, p, x, v);
        lemma_fields_concat(o + p, c, x, v);
        lemma_fields_concat(o + p + c, a, x, v);
    }
    assert forall|x: CorsHeader| #![trigger leaves_field(all, x)]
        (leaves_field(o, x) && leaves_field(p, x) && leaves_field(c, x) && leaves_field(a, x))
            implies leaves_field(all, x) by {
        lemma_fields_concat(o, p, x, seq![]);
        lemma_fields_concat(o + p, c, x, seq![]);
        lemma_fields_concat(o + p + c, a, x, seq![]);
    }
    assert forall|x: CorsHeader, v: Seq<u8>| #![trigger sets_field(p, x, v)]
        pre && (sets_field(h, x, v) || sets_field(m, x, v)) implies sets_field(p, x, v) by {
        lemma_fields_concat(h, m, x, v);
    }
    assert forall|x: CorsHeader| #![trigger leaves_field(p, x)]
        (!pre || (leaves_field(h, x) && leaves_field(m, x))) implies leaves_field(p, x) by {
        lemma_fields_concat(h, m, x, seq![]);
    }
    reveal_strlit("*");
    reveal_strlit("true");
    reveal_strlit(",");
    lemma_one_field(
        CorsHeader::AllowMethods,
        join_spec(opts.methods_spec().names_spec(), utf8(","@)),
        CorsHeader::AllowHeaders,
    );
    lemma_one_field(
        CorsHeader::AllowMethods,
        join_spec(opts.methods_spec().names_spec(), utf8(","@)),
        CorsHeader::AllowMethods,
    );
    assert(sets_field(m, CorsHeader::AllowMethods, join_spec(opts.methods_spec().names_spec(), utf8(","@))));
    assert(leaves_field(m, CorsHeader::AllowHeaders));
    match opts.origins_spec() {
        AllowedOrigins::Any => {
            lemma_one_field(CorsHeader::AllowOrigin, utf8("*"@), CorsHeader::AllowOrigin);
        },
        AllowedOrigins::Origin(v) => {
            lemma_one_field(CorsHeader::AllowOrigin, v@, CorsHeader::AllowOrigin);
        },
        AllowedOrigins::Request => {
            lemma_one_field(CorsHeader::AllowOrigin, seq![], CorsHeader::AllowOrigin);
        },
    }
    match opts.headers_spec() {
        AllowedHeaders::Any => {
            lemma_one_field(CorsHeader::AllowHeaders, utf8("*"@), CorsHeader::AllowOrigin);
        },
        AllowedHeaders::List(l) => {
            let j = join_spec(l@.map_values(|s: String| utf8(s@)), utf8(", "@));
            assert(header_list_spec(l@) == j);
            lemma_one_field(CorsHeader::AllowHeaders, j, CorsHeader::AllowOrigin);
        },
        AllowedHeaders::Request => {
            lemma_one_field(CorsHeader::AllowHeaders, seq![], CorsHeader::AllowHeaders);
        },
    }
    if opts.credentials_spec() {
        lemma_one_field(CorsHeader::AllowCredentials, utf8("true"@), CorsHeader::AllowCredentials);
    } else {
        lemma_one_field(CorsHeader::AllowCredentials, seq![], CorsHeader::AllowCredentials);
    }
    match opts.max_age_spec() {
        Some(secs) => {
            lemma_one_field(CorsHeader::MaxAge, decimal_spec(secs as nat), CorsHeader::MaxAge);
        },
        None => {
            lemma_one_field(CorsHeader::MaxAge, seq![], CorsHeader::MaxAge);
        },
    }
}

} // verus!
