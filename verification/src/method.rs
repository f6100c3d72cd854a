use vstd::prelude::*;
use crate::bytes_text::{all_header_bytes, lemma_printable_text_is_header_value, str_bytes, utf8};

verus! {

/// A set of HTTP request methods.
pub struct MethodFilter {
    pub get: bool,
    pub post: bool,
    pub put: bool,
    pub patch: bool,
    pub delete: bool,
    pub head: bool,
    pub options: bool,
    pub connect: bool,
    pub trace: bool,
}

/// `[name]` when `on`, else nothing.
pub open spec fn name_if(on: bool, name: Seq<char>) -> Seq<Seq<u8>> {
    if on {
        seq![utf8(name)]
    } else {
        Seq::empty()
    }
}

impl MethodFilter {
    /// The methods of the set, in the fixed order GET, POST, PUT, PATCH,
    /// DELETE, HEAD, OPTIONS, CONNECT, TRACE, as their names.
    pub open spec fn names_spec(&self) -> Seq<Seq<u8>> {
        name_if(self.get, "GET"@) + name_if(self.post, "POST"@) + name_if(self.put, "PUT"@)
            + name_if(self.patch, "PATCH"@) + name_if(self.delete, "DELETE"@)
            + name_if(self.head, "HEAD"@) + name_if(self.options, "OPTIONS"@)
            + name_if(self.connect, "CONNECT"@) + name_if(self.trace, "TRACE"@)
    }

    /// The empty set.
    pub fn none() -> (r: MethodFilter)
        ensures
            !r.get && !r.post && !r.put && !r.patch && !r.delete && !r.head && !r.options
                && !r.connect && !r.trace,
            r.names_spec() == Seq::<Seq<u8>>::empty(),
    {
        let r = MethodFilter {
            get: false,
            post: false,
            put: false,
            patch: false,
            delete: false,
            head: false,
            options: false,
            connect: false,
            trace: false,
        };
        assert(r.names_spec() =~= Seq::<Seq<u8>>::empty());
        r
    }

    /// Every method.
    pub fn all() -> (r: MethodFilter)
        ensures
            r.get && r.post && r.put && r.patch && r.delete && r.head && r.options && r.connect
                && r.trace,
    {
        MethodFilter {
            get: true,
            post: true,
            put: true,
            patch: true,
            delete: true,
            head: true,
            options: true,
            connect: true,
            trace: true,
        }
    }

    /// The methods in either set.
    pub fn union(&self, other: &MethodFilter) -> (r: MethodFilter)
        ensures
            r.get == (self.get || other.get),
            r.post == (self.post || other.post),
            r.put == (self.put || other.put),
            r.patch == (self.patch || other.patch),
            r.delete == (self.delete || other.delete),
            r.head == (self.head || other.head),
            r.options == (self.options || other.options),
            r.connect == (self.connect || other.connect),
            r.trace == (self.trace || other.trace),
    {
        MethodFilter {
            get: self.get || other.get,
            post: self.post || other.post,
            put: self.put || other.put,
            patch: self.patch || other.patch,
            delete: self.delete || other.delete,
            head: self.head || other.head,
            options: self.options || other.options,
            connect: self.connect || other.connect,
            trace: self.trace || other.trace,
        }
    }

    /// The names of the methods in the set, in the fixed order.
    pub fn names(&self) -> (r: Vec<Vec<u8>>)
        ensures
            r@.map_values(|v: Vec<u8>| v@) == self.names_spec(),
    {
        let mut r: Vec<Vec<u8>> = Vec::new();
        push_name_if(&mut r, self.get, "GET");
        push_name_if(&mut r, self.post, "POST");
        push_name_if(&mut r, self.put, "PUT");
        push_name_if(&mut r, self.patch, "PATCH");
        push_name_if(&mut r, self.delete, "DELETE");
        push_name_if(&mut r, self.head, "HEAD");
        push_name_if(&mut r, self.options, "OPTIONS");
        push_name_if(&mut r, self.connect, "CONNECT");
        push_name_if(&mut r, self.trace, "TRACE");
        assert(r@.map_values(|v: Vec<u8>| v@) =~= self.names_spec());
        r
    }
}

fn push_name_if(r: &mut Vec<Vec<u8>>, on: bool, name: &str)
    ensures
        final(r)@.map_values(|v: Vec<u8>| v@) == old(r)@.map_values(|v: Vec<u8>| v@) + name_if(
            on,
            name@,
        ),
{
    if on {
        r.push(str_bytes(name));
    }
    assert(r@.map_values(|v: Vec<u8>| v@) =~= old(r)@.map_values(|v: Vec<u8>| v@) + name_if(
        on,
        name@,
    ));
}

pub open spec fn all_valid(ss: Seq<Seq<u8>>) -> bool {
    forall|i: int| 0 <= i < ss.len() ==> all_header_bytes(#[trigger] ss[i])
}

proof fn lemma_all_valid_concat(a: Seq<Seq<u8>>, b: Seq<Seq<u8>>)
    requires
        all_valid(a),
        all_valid(b),
    ensures
        all_valid(a + b),
{
    assert forall|i: int| 0 <= i < (a + b).len() implies all_header_bytes(#[trigger] (a + b)[i]) by {
        if i < a.len() {
            assert((a + b)[i] == a[i]);
        } else {
            assert((a + b)[i] == b[i - a.len()]);
        }
    }
}

proof fn lemma_name_if_valid(on: bool, name: &str)
    requires
        forall|i: int| 0 <= i < name@.len() ==> ' ' <= #[trigger] name@[i] <= '~',
    ensures
        all_valid(name_if(on, name@)),
{
    lemma_printable_text_is_header_value(name@);
}

pub proof fn lemma_method_names_valid(m: MethodFilter)
    ensures
        all_valid(m.names_spec()),
{
    reveal_strlit("GET");
    reveal_strlit("POST");
    reveal_strlit("PUT");
    reveal_strlit("PATCH");
    reveal_strlit("DELETE");
    reveal_strlit("HEAD");
    reveal_strlit("OPTIONS");
    reveal_strlit("CONNECT");
    reveal_strlit("TRACE");
    lemma_name_if_valid(m.get, "GET");
    lemma_name_if_valid(m.post, "POST");
    lemma_name_if_valid(m.put, "PUT");
    lemma_name_if_valid(m.patch, "PATCH");
    lemma_name_if_valid(m.delete, "DELETE");
    lemma_name_if_valid(m.head, "HEAD");
    lemma_name_if_valid(m.options, "OPTIONS");
    lemma_name_if_valid(m.connect, "CONNECT");
    lemma_name_if_valid(m.trace, "TRACE");
    let n1 = name_if(m.get, "GET"@);
    let n2 = n1 + name_if(m.post, "POST"@);
    lemma_all_valid_concat(n1, name_if(m.post, "POST"@));
    let n3 = n2 + name_if(m.put, "PUT"@);
    lemma_all_valid_concat(n2, name_if(m.put, "PUT"@));
    let n4 = n3 + name_if(m.patch, "PATCH"@);
    lemma_all_valid_concat(n3, name_if(m.patch, "PATCH"@));
    let n5 = n4 + name_if(m.delete, "DELETE"@);
    lemma_all_valid_concat(n4, name_if(m.delete, "DELETE"@));
    let n6 = n5 + name_if(m.head, "HEAD"@);
    lemma_all_valid_concat(n5, name_if(m.head, "HEAD"@));
    let n7 = n6 + name_if(m.options, "OPTIONS"@);
    lemma_all_valid_concat(n6, name_if(m.options, "OPTIONS"@));
    let n8 = n7 + name_if(m.connect, "CONNECT"@);
    lemma_all_valid_concat(n7, name_if(m.connect, "CONNECT"@));
    lemma_all_valid_concat(n8, name_if(m.trace, "TRACE"@));
}

} // verus!
