use vstd::prelude::*;
use crate::geenie::error::GeenieError;
use crate::rel_path::{join_path_spec, relative_join};
use crate::geenie::result::{
    has_path, package_view, packages_view, push_spec, Package, ResultBuilder,
};

verus! {

/// The path of a file of a mounted item: its own path under `mount`.
pub fn mounted_path(mount: &str, path: &str) -> (r: String)
    ensures
        r@ == join_path_spec(mount@, path@),
{
    relative_join(mount, path)
}

/// An item whose files are placed under a path.
pub struct MountItem<T> {
    item: T,
    mount: String,
}

impl<T> MountItem<T> {
    pub closed spec fn item(&self) -> T {
        self.item
    }

    pub closed spec fn mount_spec(&self) -> Seq<char> {
        self.mount@
    }

    pub fn new(mount: &str, item: T) -> (r: MountItem<T>)
        ensures
            r.item() == item,
            r.mount_spec() == mount@,
    {
        MountItem { item, mount: String::from_str(mount) }
    }

    /// The path the item's files are placed under.
    pub fn mount(&self) -> (r: &String)
        ensures
            r@ == self.mount_spec(),
    {
        &self.mount
    }

    /// The item and the path it is mounted under.
    pub fn into_parts(self) -> (r: (T, String))
        ensures
            r.0 == self.item(),
            r.1@ == self.mount_spec(),
    {
        (self.item, self.mount)
    }
}

/// Whether `mounted` holds each of `items`, in order, mounted under `mount`.
pub open spec fn all_mounted<I>(mounted: Seq<MountItem<I>>, items: Seq<I>, mount: Seq<char>) -> bool {
    &&& mounted.len() == items.len()
    &&& forall|i: int|
        0 <= i < items.len() ==> (#[trigger] mounted[i]).item() == items[i]
            && mounted[i].mount_spec() == mount
}

/// The follow-up items of a mounted item, each mounted under the same
/// path, in the order they were produced.
pub fn mounted_follow_ups<I>(mount: &str, items: Vec<I>) -> (r: Vec<MountItem<I>>)
    ensures
        all_mounted(r@, items@, mount@),
{
    let ghost all = items@;
    let mut rest = items;
    let mut out: Vec<MountItem<I>> = Vec::new();
    while rest.len() > 0
        invariant
            out@.len() + rest@.len() == all.len(),
            rest@ == all.subrange(out@.len() as int, all.len() as int),
            all_mounted(out@, all.take(out@.len() as int), mount@),
        decreases rest@.len(),
    {
        let ghost k = out@.len();
        let item = rest.remove(0);
        assert(item == all[k as int]);
        out.push(MountItem::new(mount, item));
        assert(rest@ =~= all.subrange(out@.len() as int, all.len() as int));
        assert(all.take(out@.len() as int) =~= all.take(k as int).push(item));
    }
    assert(all.take(all.len() as int) =~= all);
    out
}

/// Adding the files `incoming[k..]`, each under `mount`, one after the other
/// to `files`: the files afterwards, and the path that stopped it, if one
/// was taken.
pub open spec fn mount_run<B>(
    files: Seq<(Seq<char>, B)>,
    mount: Seq<char>,
    incoming: Seq<(Seq<char>, B)>,
    k: nat,
) -> (Seq<(Seq<char>, B)>, Option<Seq<char>>)
    decreases incoming.len() - k,
{
    if k >= incoming.len() {
        (files, None)
    } else {
        let f = (join_path_spec(mount, incoming[k as int].0), incoming[k as int].1);
        match push_spec(files, f) {
            Ok(next) => mount_run(next, mount, incoming, k + 1),
            Err(p) => (files, Some(p)),
        }
    }
}

/// Adds the files of a mounted item to `outer`, each with its path under
/// `mount`, in order; stops at the first whose path is taken and fails
/// with `Duplicate` of that path.
pub fn mount_files<B, C>(outer: &mut ResultBuilder<B, C>, mount: &str, files: Vec<Package<B>>) -> (r:
    Result<(), GeenieError>)
    requires
        old(outer).wf(),
    ensures
        final(outer).wf(),
        final(outer).commands_spec() == old(outer).commands_spec(),
        final(outer).files_spec() == mount_run(
            old(outer).files_spec(),
            mount@,
            packages_view(files@),
            0,
        ).0,
        match mount_run(old(outer).files_spec(), mount@, packages_view(files@), 0).1 {
            None => r is Ok,
            Some(p) => r matches Err(e) && e matches GeenieError::Duplicate { path: q } && q@ == p,
        },
{
    let ghost incoming = packages_view(files@);
    let n = files.len();
    let mut rest = files;
    let ghost total = incoming.len();
    let mut k: usize = 0;
    assert(packages_view(rest@) =~= incoming.subrange(0, total as int));
    assert(mount_run(outer.files_spec(), mount@, incoming, 0) == mount_run(
        old(outer).files_spec(),
        mount@,
        incoming,
        0,
    ));
    while rest.len() > 0
        invariant
            outer.wf(),
            outer.commands_spec() == old(outer).commands_spec(),
            k + rest@.len() == total,
            total == incoming.len(),
            total <= usize::MAX,
            incoming == packages_view(files@),
            packages_view(rest@) == incoming.subrange(k as int, total as int),
            mount_run(outer.files_spec(), mount@, incoming, k as nat) == mount_run(
                old(outer).files_spec(),
                mount@,
                incoming,
                0,
            ),
        decreases rest@.len(),
    {
        let ghost rest_before = rest@;
        let file = rest.remove(0);
        assert(packages_view(rest_before)[0] == package_view(file));
        assert(package_view(file) == incoming[k as int]);
        assert(packages_view(rest@) =~= packages_view(rest_before).drop_first());
        let path = mounted_path(mount, file.path.as_str());
        let ghost before = outer.files_spec();
        let ghost f = (join_path_spec(mount@, incoming[k as int].0), incoming[k as int].1);
        let pkg = Package { path, content: file.content };
        assert(package_view(pkg) == f);
        let pushed = outer.push_file(pkg);
        match pushed {
            Ok(()) => {},
            Err(e) => {
                assert(mount_run(before, mount@, incoming, k as nat) == (before, Some(f.0)));
                return Err(e);
            },
        }
        k = k + 1;
    }
    Ok(())
}


/// What processing a mounted item adds once its inner item has run: the
/// inner item's files, each under `mount`, in order (stopping at the first
/// whose path is taken, with `Duplicate` of that path and no follow-ups);
/// then its follow-up items, each mounted under `mount`, in order, to be
/// processed next.
pub fn finish_mounted<B, C, I>(
    outer: &mut ResultBuilder<B, C>,
    mount: &str,
    files: Vec<Package<B>>,
    follow_ups: Vec<I>,
) -> (r: Result<Vec<MountItem<I>>, GeenieError>)
    requires
        old(outer).wf(),
    ensures
        final(outer).wf(),
        final(outer).commands_spec() == old(outer).commands_spec(),
        final(outer).files_spec() == mount_run(
            old(outer).files_spec(),
            mount@,
            packages_view(files@),
            0,
        ).0,
        match mount_run(old(outer).files_spec(), mount@, packages_view(files@), 0).1 {
            None => r matches Ok(items) && all_mounted(items@, follow_ups@, mount@),
            Some(p) => r matches Err(e) && e matches GeenieError::Duplicate { path: q } && q@ == p,
        },
{
    match mount_files(outer, mount, files) {
        Ok(()) => Ok(mounted_follow_ups(mount, follow_ups)),
        Err(e) => Err(e),
    }
}

/// Law: a mounted file's path begins with the mount path, followed by a
/// `/` unless the mount path is empty or ends with one, and ends with the
/// file's own path without its leading `/`.
pub proof fn law_mounted_under(mount: Seq<char>, path: Seq<char>)
    ensures
        join_path_spec(mount, path).take(mount.len() as int) == mount,
        mount.len() > 0 && mount.last() != '/' ==> join_path_spec(mount, path)[mount.len() as int]
            == '/',
        path.len() > 0 && path[0] == '/' ==> join_path_spec(mount, path).skip(
            join_path_spec(mount, path).len() - (path.len() - 1),
        ) == path.drop_first(),
        !(path.len() > 0 && path[0] == '/') ==> join_path_spec(mount, path).skip(
            join_path_spec(mount, path).len() - path.len(),
        ) == path,
{
    let j = join_path_spec(mount, path);
    assert(j.take(mount.len() as int) =~= mount);
    if path.len() > 0 && path[0] == '/' {
        assert(j.skip(j.len() - (path.len() - 1)) =~= path.drop_first());
    } else {
        assert(j.skip(j.len() - path.len()) =~= path);
    }
}

} // verus!
