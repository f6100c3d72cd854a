use vstd::prelude::*;

verus! {

/// The pieces of `p` between the `/` separators, empty ones included.
pub open spec fn slash_pieces(p: Seq<char>) -> Seq<Seq<char>>
    decreases p.len(),
{
    if p.len() == 0 {
        seq![Seq::empty()]
    } else {
        let s = slash_pieces(p.drop_last());
        if p.last() == '/' {
            s.push(Seq::empty())
        } else {
            s.update(s.len() - 1, s.last().push(p.last()))
        }
    }
}

/// The components of a relative path: its non-empty pieces between `/`
/// (`.` and `..` among them).
pub open spec fn path_components(p: Seq<char>) -> Seq<Seq<char>> {
    slash_pieces(p).filter(|piece: Seq<char>| piece.len() > 0)
}

/// Two relative paths are the same path when their components are equal,
/// so `a/b`, `a//b` and `/a/b/` are one path.
pub open spec fn same_path(a: Seq<char>, b: Seq<char>) -> bool {
    path_components(a) == path_components(b)
}

/// Calls `==` on two `relative_path::RelativePath`s. The crate compares
/// paths by their components: the non-empty pieces between `/`, with `.`
/// and `..` standing as components of their own.
#[verifier::external_body]
pub(crate) fn relative_eq(a: &str, b: &str) -> (r: bool)
    ensures
        r == same_path(a@, b@),
{
    relative_path::RelativePath::new(a) == relative_path::RelativePath::new(b)
}

/// `path` adjoined to `base`: a leading `/` of `path` is dropped, and a `/`
/// stands between the two unless `base` is empty or ends with one.
pub open spec fn join_path_spec(base: Seq<char>, path: Seq<char>) -> Seq<char> {
    let tail = if path.len() > 0 && path[0] == '/' {
        path.drop_first()
    } else {
        path
    };
    if base.len() > 0 && base.last() != '/' {
        base + seq!['/'] + tail
    } else {
        base + tail
    }
}

/// Calls `relative_path::RelativePath::join` on `base` and `path` and
/// returns the joined path as a string. Its contract is what the crate's
/// `push` does: drop a leading `/` of `path`, put a `/` between the two
/// unless `base` is empty or already ends with one, then append.
#[verifier::external_body]
pub(crate) fn relative_join(base: &str, path: &str) -> (r: String)
    ensures
        r@ == join_path_spec(base@, path@),
{
    relative_path::RelativePath::new(base).join(path).into_string()
}

/// The file name of a relative path: its last component other than `.`,
/// unless that component is `..`.
pub open spec fn file_name_spec(p: Seq<char>) -> Option<Seq<char>> {
    let named = path_components(p).filter(|c: Seq<char>| c != seq!['.']);
    if named.len() == 0 || named.last() == seq!['.', '.'] {
        None
    } else {
        Some(named.last())
    }
}

/// Calls `relative_path::RelativePath::file_name` on `path`: the crate
/// walks the path's components from the end, skips `.`, and gives the
/// first other one unless it is `..`.
#[verifier::external_body]
pub(crate) fn relative_file_name(path: &str) -> (r: Option<String>)
    ensures
        match r {
            Some(s) => file_name_spec(path@) == Some(s@),
            None => file_name_spec(path@) is None,
        },
{
    relative_path::RelativePath::new(path).file_name().map(|name| name.to_string())
}

} // verus!
