use vstd::prelude::*;
use vstd::multiset::Multiset;
use crate::error::Error;
use crate::response::{headers_view, Response};
use crate::bytes_text::{
    all_header_bytes, all_visible_ascii, is_valid_header_value, is_visible_text, str_bytes, utf8,
    visible_text, visible_text_spec,
};

verus! {

/// The middleware that reads the request's cookies into a jar and writes
/// the jar's changes to the response.
pub struct Cookies;

/// Work wrapped by [`Cookies`].
pub struct CookieWork<H> {
    handler: H,
}

impl Cookies {
    pub fn wrap<H>(&self, handler: H) -> (r: CookieWork<H>)
        ensures
            r.handler() == handler,
    {
        CookieWork { handler }
    }
}

impl<H> CookieWork<H> {
    pub closed spec fn handler(&self) -> H {
        self.handler
    }

    /// The wrapped work.
    pub fn inner(&self) -> (r: &H)
        ensures
            *r == self.handler(),
    {
        &self.handler
    }
}

/// The pieces of `s` between the `;` separators, as `str::split` gives
/// them: one piece more than there are separators.
pub open spec fn split_semicolons(s: Seq<u8>) -> Seq<Seq<u8>>
    decreases s.len(),
{
    if s.len() == 0 {
        seq![Seq::empty()]
    } else {
        let p = split_semicolons(s.drop_last());
        if s.last() == 59 {
            p.push(Seq::empty())
        } else {
            p.update(p.len() - 1, p.last().push(s.last()))
        }
    }
}

proof fn lemma_split_nonempty(s: Seq<u8>)
    ensures
        split_semicolons(s).len() >= 1,
    decreases s.len(),
{
    if s.len() > 0 {
        lemma_split_nonempty(s.drop_last());
    }
}

fn split_value(s: &[u8]) -> (r: Vec<Vec<u8>>)
    ensures
        r@.map_values(|v: Vec<u8>| v@) == split_semicolons(s@),
{
    let mut pieces: Vec<Vec<u8>> = Vec::new();
    pieces.push(Vec::new());
    assert(pieces@.map_values(|v: Vec<u8>| v@) =~= split_semicolons(s@.take(0)));
    let mut i: usize = 0;
    while i < s.len()
        invariant
            i <= s@.len(),
            pieces@.len() >= 1,
            pieces@.map_values(|v: Vec<u8>| v@) == split_semicolons(s@.take(i as int)),
        decreases s@.len() - i,
    {
        let ghost before = pieces@.map_values(|v: Vec<u8>| v@);
        assert(s@.take(i + 1).drop_last() == s@.take(i as int));
        assert(s@.take(i + 1).last() == s@[i as int]);
        if s[i] == 59 {
            pieces.push(Vec::new());
            assert(pieces@.map_values(|v: Vec<u8>| v@) =~= before.push(Seq::empty()));
        } else {
            let last = pieces.len() - 1;
            let mut piece = pieces.pop().unwrap();
            piece.push(s[i]);
            pieces.push(piece);
            assert(pieces@.map_values(|v: Vec<u8>| v@) =~= before.update(
                last as int,
                before.last().push(s@[i as int]),
            ));
        }
        i = i + 1;
    }
    assert(s@.take(s@.len() as int) == s@);
    pieces
}

/// The cookie strings of the request's `cookie` fields: for each field that
/// reads as text, its pieces between `;`, in order.
pub open spec fn cookie_pieces_spec(values: Seq<Seq<u8>>) -> Seq<Seq<u8>>
    decreases values.len(),
{
    if values.len() == 0 {
        Seq::empty()
    } else {
        cookie_pieces_spec(values.drop_last()) + (if all_visible_ascii(values.last()) {
            split_semicolons(values.last())
        } else {
            Seq::empty()
        })
    }
}

/// Splits the request's `cookie` fields into the strings that are parsed
/// as cookies; fields that do not read as text are skipped.
pub fn cookie_pieces(values: &Vec<Vec<u8>>) -> (r: Vec<Vec<u8>>)
    ensures
        r@.map_values(|v: Vec<u8>| v@) == cookie_pieces_spec(values@.map_values(|v: Vec<u8>| v@)),
{
    let ghost vs = values@.map_values(|v: Vec<u8>| v@);
    let mut out: Vec<Vec<u8>> = Vec::new();
    let mut k: usize = 0;
    while k < values.len()
        invariant
            k <= values@.len(),
            vs == values@.map_values(|v: Vec<u8>| v@),
            out@.map_values(|v: Vec<u8>| v@) == cookie_pieces_spec(vs.take(k as int)),
        decreases values@.len() - k,
    {
        assert(vs.take(k + 1).drop_last() == vs.take(k as int));
        assert(vs.take(k + 1).last() == values@[k as int]@);
        let ghost before = out@.map_values(|v: Vec<u8>| v@);
        if is_visible_text(values[k].as_slice()) {
            let mut pieces = split_value(values[k].as_slice());
            let ghost added = pieces@.map_values(|v: Vec<u8>| v@);
            out.append(&mut pieces);
            assert(out@.map_values(|v: Vec<u8>| v@) =~= before + added);
        }
        k = k + 1;
        assert(out@.map_values(|v: Vec<u8>| v@) =~= cookie_pieces_spec(vs.take(k as int)));
    }
    assert(vs.take(values@.len() as int) == vs);
    out
}


/// The `set-cookie` values for the encoded cookies that changed, in order:
/// those that are valid header values.
pub open spec fn set_cookie_spec(encoded: Seq<Seq<char>>) -> Seq<Seq<u8>>
    decreases encoded.len(),
{
    if encoded.len() == 0 {
        Seq::empty()
    } else {
        set_cookie_spec(encoded.drop_last()) + (if all_header_bytes(utf8(encoded.last())) {
            seq![utf8(encoded.last())]
        } else {
            Seq::empty()
        })
    }
}

/// The values of the `set-cookie` fields appended to a response for the
/// jar's changed cookies (each shown in its encoded form); a cookie whose
/// encoding is no valid header value is left out.
pub fn set_cookie_values(encoded: &Vec<String>) -> (r: Vec<Vec<u8>>)
    ensures
        r@.map_values(|v: Vec<u8>| v@) == set_cookie_spec(encoded@.map_values(|s: String| s@)),
{
    let ghost es = encoded@.map_values(|s: String| s@);
    let mut out: Vec<Vec<u8>> = Vec::new();
    let mut k: usize = 0;
    while k < encoded.len()
        invariant
            k <= encoded@.len(),
            es == encoded@.map_values(|s: String| s@),
            out@.map_values(|v: Vec<u8>| v@) == set_cookie_spec(es.take(k as int)),
        decreases encoded@.len() - k,
    {
        assert(es.take(k + 1).drop_last() == es.take(k as int));
        assert(es.take(k + 1).last() == encoded@[k as int]@);
        let ghost before = out@.map_values(|v: Vec<u8>| v@);
        let bytes = str_bytes(encoded[k].as_str());
        if is_valid_header_value(bytes.as_slice()) {
            out.push(bytes);
        }
        k = k + 1;
        assert(out@.map_values(|v: Vec<u8>| v@) =~= set_cookie_spec(es.take(k as int)));
    }
    assert(es.take(encoded@.len() as int) == es);
    out
}

#[verifier::external_type_specification]
#[verifier::external_body]
pub struct ExCookieJar(cookie::CookieJar);

/// The cookies that a `cookie::CookieJar` holds, as its `get` finds them:
/// each name with its value.
pub uninterp spec fn jar_cookies(jar: cookie::CookieJar) -> Map<Seq<char>, Seq<char>>;

/// The changes that a `cookie::CookieJar` records (its `delta`), each in
/// the encoded form that `Cookie::encoded` shows.
pub uninterp spec fn jar_delta(jar: cookie::CookieJar) -> Multiset<Seq<char>>;

/// What `cookie::Cookie::parse_encoded` makes of a string: the parsed
/// cookie's name and (percent-decoded) value, or `None` when it does not
/// parse.
pub uninterp spec fn cookie_parse(s: Seq<char>) -> Option<(Seq<char>, Seq<char>)>;

/// Calls `cookie::CookieJar::new`: a jar with no cookies and no changes.
#[verifier::external_body]
fn new_jar() -> (r: cookie::CookieJar)
    ensures
        jar_cookies(r).dom() == Set::<Seq<char>>::empty(),
        jar_delta(r) == Multiset::<Seq<char>>::empty(),
{
    cookie::CookieJar::new()
}

/// Calls `cookie::Cookie::parse_encoded` on `piece` and gives the parsed
/// cookie's `name()` and `value()`. What it gives is named, not stated.
#[verifier::external_body]
fn parse_cookie(piece: &str) -> (r: Option<(String, String)>)
    ensures
        match r {
            Some((n, v)) => cookie_parse(piece@) == Some((n@, v@)),
            None => cookie_parse(piece@) is None,
        },
{
    cookie::Cookie::parse_encoded(piece).ok().map(|c| (c.name().to_string(), c.value().to_string()))
}

/// Calls `cookie::CookieJar::add_original` with the cookie of this name
/// and value. The crate keeps originals by name, a new one replacing an
/// old one, and leaves the changes alone; `get` looks among the changes
/// first, so the added value is what it finds when there are no changes.
/// With changes recorded, what `get` finds is not stated.
#[verifier::external_body]
fn jar_add_original(jar: &mut cookie::CookieJar, name: &str, value: &str)
    ensures
        jar_delta(*final(jar)) == jar_delta(*old(jar)),
        jar_delta(*old(jar)).len() == 0 ==> jar_cookies(*final(jar)) == jar_cookies(
            *old(jar),
        ).insert(name@, value@),
{
    jar.add_original((name.to_string(), value.to_string()))
}

/// Calls `cookie::CookieJar::delta` and shows each changed cookie with
/// `Cookie::encoded`. The crate walks its changes in the order of a hash
/// set, so only which texts come out is stated, not their order.
#[verifier::external_body]
fn delta_encoded(jar: &cookie::CookieJar) -> (r: Vec<String>)
    ensures
        r@.map_values(|s: String| s@).to_multiset() == jar_delta(*jar),
{
    jar.delta().map(|c| c.encoded().to_string()).collect()
}

/// Calls `cookie::CookieJar::reset_delta`: the jar forgets its changes.
#[verifier::external_body]
fn jar_reset_delta(jar: &mut cookie::CookieJar)
    ensures
        jar_delta(*final(jar)) == Multiset::<Seq<char>>::empty(),
{
    jar.reset_delta()
}

/// What `Cookie::encoded` shows of the cookie made from this name and
/// value (`Cookie::from((name, value))`).
pub uninterp spec fn cookie_encoded(name: Seq<char>, value: Seq<char>) -> Seq<char>;

/// Calls `cookie::CookieJar::get` and gives the found cookie's `value()`.
#[verifier::external_body]
fn jar_get(jar: &cookie::CookieJar, name: &str) -> (r: Option<String>)
    ensures
        match r {
            Some(v) => jar_cookies(*jar).contains_key(name@) && jar_cookies(*jar)[name@] == v@,
            None => !jar_cookies(*jar).contains_key(name@),
        },
{
    jar.get(name).map(|c| c.value().to_string())
}

/// Calls `cookie::CookieJar::add` with the cookie of this name and value.
/// The crate records it as a change, replacing a change of the same name;
/// `get` then finds it. A jar with no changes has this one change after.
/// What happens to other changes is not stated.
#[verifier::external_body]
fn jar_add(jar: &mut cookie::CookieJar, name: &str, value: &str)
    ensures
        jar_cookies(*final(jar)) == jar_cookies(*old(jar)).insert(name@, value@),
        jar_delta(*old(jar)).len() == 0 ==> jar_delta(*final(jar)) == Multiset::singleton(
            cookie_encoded(name@, value@),
        ),
{
    jar.add((name.to_string(), value.to_string()))
}

/// Calls `cookie::CookieJar::remove` with the cookie called `name`: `get`
/// no longer finds it. The crate records a removal when an original cookie
/// had that name (its text carries an expiry taken from the clock, so the
/// changes are not stated).
#[verifier::external_body]
fn jar_remove(jar: &mut cookie::CookieJar, name: &str)
    ensures
        jar_cookies(*final(jar)) == jar_cookies(*old(jar)).remove(name@),
{
    jar.remove(name.to_string())
}

/// The value of the jar's cookie called `name`.
pub fn cookie_value(jar: &cookie::CookieJar, name: &str) -> (r: Option<String>)
    ensures
        match r {
            Some(v) => jar_cookies(*jar).contains_key(name@) && jar_cookies(*jar)[name@] == v@,
            None => !jar_cookies(*jar).contains_key(name@),
        },
{
    jar_get(jar, name)
}

/// Sets the cookie `name` to `value`, as a change to send with the
/// response.
pub fn set_cookie(jar: &mut cookie::CookieJar, name: &str, value: &str)
    ensures
        jar_cookies(*final(jar)) == jar_cookies(*old(jar)).insert(name@, value@),
        jar_delta(*old(jar)).len() == 0 ==> jar_delta(*final(jar)) == Multiset::singleton(
            cookie_encoded(name@, value@),
        ),
{
    jar_add(jar, name, value)
}

/// Removes the cookie `name` from the jar.
pub fn remove_cookie(jar: &mut cookie::CookieJar, name: &str)
    ensures
        jar_cookies(*final(jar)) == jar_cookies(*old(jar)).remove(name@),
{
    jar_remove(jar, name)
}

/// The cookies of a request: each piece of its `cookie` fields that reads
/// as text and parses, in order, a later cookie replacing an earlier one
/// of the same name.
pub open spec fn parsed_cookies(pieces: Seq<Seq<u8>>) -> Map<Seq<char>, Seq<char>>
    decreases pieces.len(),
{
    if pieces.len() == 0 {
        Map::empty()
    } else {
        let m = parsed_cookies(pieces.drop_last());
        match visible_text_spec(pieces.last()) {
            Some(t) => match cookie_parse(t) {
                Some(nv) => m.insert(nv.0, nv.1),
                None => m,
            },
            None => m,
        }
    }
}

/// The jar of a request, from the values of its `cookie` fields: the
/// cookies parsed out of them, with no changes recorded.
pub fn jar_from_cookie_values(values: &Vec<Vec<u8>>) -> (j: cookie::CookieJar)
    ensures
        jar_cookies(j) == parsed_cookies(cookie_pieces_spec(values@.map_values(|v: Vec<u8>| v@))),
        jar_delta(j) == Multiset::<Seq<char>>::empty(),
{
    let pieces = cookie_pieces(values);
    let ghost pv = pieces@.map_values(|v: Vec<u8>| v@);
    let mut jar = new_jar();
    let mut k: usize = 0;
    assert(pv.take(0) =~= Seq::<Seq<u8>>::empty());
    while k < pieces.len()
        invariant
            k <= pieces@.len(),
            pv == pieces@.map_values(|v: Vec<u8>| v@),
            jar_delta(jar) == Multiset::<Seq<char>>::empty(),
            jar_cookies(jar) == parsed_cookies(pv.take(k as int)),
        decreases pieces@.len() - k,
    {
        assert(pv.take(k + 1).drop_last() =~= pv.take(k as int));
        assert(pv.take(k + 1).last() == pieces@[k as int]@);
        match visible_text(pieces[k].as_slice()) {
            Some(t) => match parse_cookie(t) {
                Some((n, v)) => {
                    jar_add_original(&mut jar, n.as_str(), v.as_str());
                },
                None => {},
            },
            None => {},
        }
        k = k + 1;
    }
    assert(pv.take(pieces@.len() as int) =~= pv);
    jar
}

/// The `set-cookie` values for the jar's changes, which the jar then
/// forgets: the changed cookies' encoded forms that are valid header
/// values, in the order the jar gives its changes.
pub fn take_set_cookie_values(jar: &mut cookie::CookieJar) -> (v: Vec<Vec<u8>>)
    ensures
        exists|e: Seq<Seq<char>>|
            e.to_multiset() == jar_delta(*old(jar)) && #[trigger] set_cookie_spec(e) == v@.map_values(
                |b: Vec<u8>| b@,
            ),
        jar_delta(*final(jar)) == Multiset::<Seq<char>>::empty(),
{
    let encoded = delta_encoded(jar);
    let values = set_cookie_values(&encoded);
    jar_reset_delta(jar);
    let ghost e = encoded@.map_values(|s: String| s@);
    assert(e.to_multiset() == jar_delta(*old(jar)));
    assert(set_cookie_spec(e) == values@.map_values(|b: Vec<u8>| b@));
    values
}

/// The `set-cookie` header fields carrying these values.
pub open spec fn set_cookie_fields(values: Seq<Seq<u8>>) -> Seq<(Seq<u8>, Seq<u8>)> {
    values.map_values(|v: Seq<u8>| (utf8("set-cookie"@), v))
}

/// The answer of cookie-wrapped work: the work's response, with a
/// `set-cookie` field appended for each change to the jar (which then
/// forgets its changes); or the work's error unchanged, with no field sent
/// and the jar as it was.
pub fn cookie_work_finish(jar: &mut cookie::CookieJar, out: Result<Response, Error>) -> (r: Result<
    Response,
    Error,
>)
    ensures
        match out {
            Ok(resp) => {
                &&& r matches Ok(sent)
                &&& sent.status == resp.status
                &&& sent.body@ == resp.body@
                &&& exists|e: Seq<Seq<char>>|
                    e.to_multiset() == jar_delta(*old(jar)) && headers_view(sent.headers@)
                        == headers_view(resp.headers@) + set_cookie_fields(
                        #[trigger] set_cookie_spec(e),
                    )
                &&& jar_delta(*final(jar)) == Multiset::<Seq<char>>::empty()
            },
            Err(e) => r == Err::<Response, Error>(e) && *final(jar) == *old(jar),
        },
{
    match out {
        Ok(resp) => {
            let values = take_set_cookie_values(jar);
            let ghost e = choose|e: Seq<Seq<char>>|
                e.to_multiset() == jar_delta(*old(jar)) && #[trigger] set_cookie_spec(e)
                    == values@.map_values(|b: Vec<u8>| b@);
            let ghost vs = values@.map_values(|b: Vec<u8>| b@);
            let mut sent = resp;
            let ghost before = headers_view(sent.headers@);
            let mut k: usize = 0;
            while k < values.len()
                invariant
                    k <= values@.len(),
                    vs == values@.map_values(|b: Vec<u8>| b@),
                    headers_view(sent.headers@) == before + set_cookie_fields(vs.take(k as int)),
                    sent.status == resp.status,
                    sent.body@ == resp.body@,
                decreases values@.len() - k,
            {
                sent.headers.push((str_bytes("set-cookie"), values[k].clone()));
                assert(set_cookie_fields(vs.take(k + 1)) =~= set_cookie_fields(vs.take(k as int)).push(
                    (utf8("set-cookie"@), vs[k as int]),
                ));
                assert(headers_view(sent.headers@) =~= (before + set_cookie_fields(
                    vs.take(k as int),
                )).push((utf8("set-cookie"@), vs[k as int])));
                k = k + 1;
            }
            assert(vs.take(values@.len() as int) =~= vs);
            assert(headers_view(sent.headers@) == headers_view(resp.headers@) + set_cookie_fields(
                set_cookie_spec(e),
            ));
            Ok(sent)
        },
        Err(e) => Err(e),
    }
}

/// Whether a change's encoded form can be sent: it is a valid header value.
pub open spec fn sendable() -> spec_fn(Seq<char>) -> bool {
    |t: Seq<char>| all_header_bytes(utf8(t))
}

proof fn lemma_set_cookie_filter(e: Seq<Seq<char>>)
    ensures
        set_cookie_spec(e).len() == e.filter(sendable()).len(),
        forall|j: int|
            0 <= j < e.filter(sendable()).len() ==> #[trigger] set_cookie_spec(e)[j] == utf8(
                e.filter(sendable())[j],
            ),
    decreases e.len(),
{
    reveal(Seq::filter);
    if e.len() > 0 {
        lemma_set_cookie_filter(e.drop_last());
    }
}

/// Law: sending a jar's changes appends to the response's fields, after
/// the ones it had, exactly one `set-cookie` field per change whose encoded
/// form is a valid header value, carrying that form, in the order the jar
/// gives its changes (`e`, which holds every change once); the fields the
/// response had stay first and unchanged.
pub proof fn law_one_field_per_change(
    before: Seq<(Seq<u8>, Seq<u8>)>,
    after: Seq<(Seq<u8>, Seq<u8>)>,
    delta: Multiset<Seq<char>>,
    e: Seq<Seq<char>>,
)
    requires
        e.to_multiset() == delta,
        after == before + set_cookie_fields(set_cookie_spec(e)),
    ensures
        after.len() == before.len() + e.filter(sendable()).len(),
        after.subrange(0, before.len() as int) == before,
        forall|j: int|
            0 <= j < e.filter(sendable()).len() ==> #[trigger] after[before.len() + j] == (
                utf8("set-cookie"@),
                utf8(e.filter(sendable())[j]),
            ),
{
    lemma_set_cookie_filter(e);
    assert(after.subrange(0, before.len() as int) =~= before);
    assert forall|j: int| 0 <= j < e.filter(sendable()).len() implies #[trigger] after[before.len()
        + j] == (utf8("set-cookie"@), utf8(e.filter(sendable())[j])) by {
        assert(set_cookie_spec(e)[j] == utf8(e.filter(sendable())[j]));
    }
}

/// Law: when the jar records one change, taking its values gives that
/// cookie's encoded form once (when it is a valid header value), and taking
/// them again, once the jar has forgotten its changes, gives nothing.
pub proof fn law_added_cookie_taken_once(t: Seq<char>, first: Seq<Seq<char>>, second: Seq<Seq<char>>)
    requires
        first.to_multiset() == Multiset::singleton(t),
        second.to_multiset() == Multiset::<Seq<char>>::empty(),
    ensures
        set_cookie_spec(first) == (if all_header_bytes(utf8(t)) {
            seq![utf8(t)]
        } else {
            Seq::<Seq<u8>>::empty()
        }),
        set_cookie_spec(second) == Seq::<Seq<u8>>::empty(),
{
    broadcast use vstd::seq_lib::group_to_multiset_ensures;
    broadcast use vstd::multiset::group_multiset_axioms;

    first.to_multiset_ensures();
    second.to_multiset_ensures();
    assert(Multiset::singleton(t).len() == 1);
    assert(first.len() == 1);
    assert(first.contains(first[0]));
    assert(first.to_multiset().count(first[0]) > 0);
    assert(first[0] == t);
    assert(first.drop_last() =~= Seq::<Seq<char>>::empty());
    assert(first.last() == t);
    assert(set_cookie_spec(first.drop_last()) == Seq::<Seq<u8>>::empty());
    assert(set_cookie_spec(first) =~= (if all_header_bytes(utf8(t)) {
        seq![utf8(t)]
    } else {
        Seq::<Seq<u8>>::empty()
    }));
    assert(second.len() == 0);
}

} // verus!
