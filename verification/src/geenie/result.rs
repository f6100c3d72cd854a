use vstd::prelude::*;
use crate::geenie::error::GeenieError;
use crate::rel_path::{relative_eq, same_path};

verus! {

/// A generated file: its path relative to the project's root and its
/// content.
pub struct Package<B> {
    pub path: String,
    pub content: B,
}

pub open spec fn package_view<B>(p: Package<B>) -> (Seq<char>, B) {
    (p.path@, p.content)
}

pub open spec fn packages_view<B>(s: Seq<Package<B>>) -> Seq<(Seq<char>, B)> {
    s.map_values(|p: Package<B>| package_view(p))
}

/// Whether some file among `files` has the path `path`.
pub open spec fn has_path<B>(files: Seq<(Seq<char>, B)>, path: Seq<char>) -> bool {
    exists|i: int| 0 <= i < files.len() && same_path((#[trigger] files[i]).0, path)
}

/// No two files share a path.
pub open spec fn distinct_paths<B>(files: Seq<(Seq<char>, B)>) -> bool {
    forall|i: int, j: int|
        0 <= i < j < files.len() ==> !same_path((#[trigger] files[i]).0, (#[trigger] files[j]).0)
}

/// Adding a file to a list: refused when its path is taken.
pub open spec fn push_spec<B>(files: Seq<(Seq<char>, B)>, file: (Seq<char>, B)) -> Result<
    Seq<(Seq<char>, B)>,
    Seq<char>,
> {
    if has_path(files, file.0) {
        Err(file.0)
    } else {
        Ok(files.push(file))
    }
}

/// The files and commands that the items of a project contribute.
pub struct ResultBuilder<B, C> {
    files: Vec<Package<B>>,
    commands: Vec<C>,
}

impl<B, C> ResultBuilder<B, C> {
    pub closed spec fn files_spec(&self) -> Seq<(Seq<char>, B)> {
        packages_view(self.files@)
    }

    pub closed spec fn commands_spec(&self) -> Seq<C> {
        self.commands@
    }

    /// The builder's invariant: no two files share a path.
    pub open spec fn wf(&self) -> bool {
        distinct_paths(self.files_spec())
    }

    /// An empty builder.
    pub fn new() -> (r: Self)
        ensures
            r.wf(),
            r.files_spec().len() == 0,
            r.commands_spec().len() == 0,
    {
        let r = ResultBuilder { files: Vec::new(), commands: Vec::new() };
        assert(r.files_spec() =~= Seq::empty());
        r
    }

    /// Whether a file with this path was added.
    pub fn contains_path(&self, path: &String) -> (r: bool)
        ensures
            r == has_path(self.files_spec(), path@),
    {
        let mut i: usize = 0;
        while i < self.files.len()
            invariant
                i <= self.files@.len(),
                self.files_spec() == packages_view(self.files@),
                forall|j: int| 0 <= j < i ==> !same_path((#[trigger] self.files_spec()[j]).0, path@),
            decreases self.files@.len() - i,
        {
            if relative_eq(self.files[i].path.as_str(), path.as_str()) {
                assert(same_path(self.files_spec()[i as int].0, path@));
                return true;
            }
            i = i + 1;
        }
        false
    }

    /// Adds a file; fails with `Duplicate` and adds nothing when a file with
    /// the same path was added before.
    pub fn push_file(&mut self, file: Package<B>) -> (r: Result<(), GeenieError>)
        requires
            old(self).wf(),
        ensures
            final(self).wf(),
            final(self).commands_spec() == old(self).commands_spec(),
            match push_spec(old(self).files_spec(), package_view(file)) {
                Ok(files) => r is Ok && final(self).files_spec() == files,
                Err(path) => {
                    &&& final(self).files_spec() == old(self).files_spec()
                    &&& r matches Err(e) && e matches GeenieError::Duplicate { path: p } && p@ == path
                },
            },
    {
        if self.contains_path(&file.path) {
            return Err(GeenieError::duplicate(file.path.clone()));
        }
        let ghost before = self.files_spec();
        self.files.push(file);
        assert(self.files_spec() =~= before.push(package_view(file)));
        Ok(())
    }

    /// Adds a command to run after the files are written.
    pub fn push_command(&mut self, command: C)
        ensures
            final(self).files_spec() == old(self).files_spec(),
            final(self).commands_spec() == old(self).commands_spec().push(command),
    {
        self.commands.push(command);
    }

    /// The collected files and commands.
    pub fn build(self) -> (r: GeenieResult<B, C>)
        ensures
            packages_view(r.files@) == self.files_spec(),
            r.commands@ == self.commands_spec(),
    {
        GeenieResult { files: self.files, commands: self.commands }
    }

    /// Takes the collected files out, leaving the commands.
    pub fn take_files(self) -> (r: (Vec<Package<B>>, Vec<C>))
        ensures
            packages_view(r.0@) == self.files_spec(),
            r.1@ == self.commands_spec(),
    {
        (self.files, self.commands)
    }
}

/// Adding `incoming[k..]` one after the other to `files`: the files
/// afterwards, and the path that stopped it, if one was taken.
pub open spec fn add_run<B>(files: Seq<(Seq<char>, B)>, incoming: Seq<(Seq<char>, B)>, k: nat) -> (
    Seq<(Seq<char>, B)>,
    Option<Seq<char>>,
)
    decreases incoming.len() - k,
{
    if k >= incoming.len() {
        (files, None)
    } else {
        match push_spec(files, incoming[k as int]) {
            Ok(next) => add_run(next, incoming, k + 1),
            Err(p) => (files, Some(p)),
        }
    }
}

impl<B, C> ResultBuilder<B, C> {
    /// Adds `files` in order; stops at the first whose path is taken and
    /// fails with `Duplicate` of that path.
    pub fn push_files(&mut self, files: Vec<Package<B>>) -> (r: Result<(), GeenieError>)
        requires
            old(self).wf(),
        ensures
            final(self).wf(),
            final(self).commands_spec() == old(self).commands_spec(),
            final(self).files_spec() == add_run(old(self).files_spec(), packages_view(files@), 0).0,
            match add_run(old(self).files_spec(), packages_view(files@), 0).1 {
                None => r is Ok,
                Some(p) => r matches Err(e) && e matches GeenieError::Duplicate { path: q } && q@ == p,
            },
    {
        let ghost incoming = packages_view(files@);
        let ghost total = incoming.len();
        let n = files.len();
        let mut rest = files;
        let mut k: usize = 0;
        assert(packages_view(rest@) =~= incoming.subrange(0, total as int));
        while rest.len() > 0
            invariant
                self.wf(),
                self.commands_spec() == old(self).commands_spec(),
                k + rest@.len() == total,
                total == incoming.len(),
                total <= usize::MAX,
                incoming == packages_view(files@),
                packages_view(rest@) == incoming.subrange(k as int, total as int),
                add_run(self.files_spec(), incoming, k as nat) == add_run(
                    old(self).files_spec(),
                    incoming,
                    0,
                ),
            decreases rest@.len(),
        {
            let ghost rest_before = rest@;
            let file = rest.remove(0);
            assert(packages_view(rest_before)[0] == package_view(file));
            assert(package_view(file) == incoming[k as int]);
            assert(packages_view(rest@) =~= packages_view(rest_before).drop_first());
            let ghost before = self.files_spec();
            match self.push_file(file) {
                Ok(()) => {},
                Err(e) => {
                    assert(add_run(before, incoming, k as nat) == (before, Some(incoming[k as int].0)));
                    return Err(e);
                },
            }
            k = k + 1;
        }
        Ok(())
    }
}

/// A list of generated files.
pub struct FileList<B> {
    pub files: Vec<Package<B>>,
}

impl<B> FileList<B> {
    /// Adds a file at the end.
    pub fn push(&mut self, file: Package<B>)
        ensures
            packages_view(final(self).files@) == packages_view(old(self).files@).push(
                package_view(file),
            ),
    {
        let ghost before = packages_view(self.files@);
        self.files.push(file);
        assert(packages_view(self.files@) =~= before.push(package_view(file)));
    }
}

/// How many files are written at a time.
pub open spec fn batch_size() -> nat {
    10
}

/// The batches in which `n` files are written: consecutive ranges of ten
/// files, the last one holding the rest.
pub open spec fn batches_spec(n: nat) -> Seq<(usize, usize)> {
    Seq::new(
        ((n + 9) / 10) as nat,
        |i: int| ((10 * i) as usize, (if 10 * i + 10 <= n { 10 * i + 10 } else { n as int }) as usize),
    )
}

/// The ranges of files written together.
pub fn write_batches(n: usize) -> (r: Vec<(usize, usize)>)
    ensures
        r@ == batches_spec(n as nat),
{
    let count: usize = n / 10 + if n % 10 != 0 { 1 } else { 0 };
    assert(count == (n + 9) / 10);
    let mut out: Vec<(usize, usize)> = Vec::new();
    let mut i: usize = 0;
    while i < count
        invariant
            count == (n + 9) / 10,
            i <= count,
            out@ == batches_spec(n as nat).take(i as int),
        decreases count - i,
    {
        assert(10 * i < n);
        let start = 10 * i;
        let end = if n - start >= 10 { start + 10 } else { n };
        out.push((start, end));
        assert(out@ =~= batches_spec(n as nat).take(i + 1));
        i = i + 1;
    }
    assert(out@ =~= batches_spec(n as nat));
    out
}

/// Law: the batches of `n` files cover the files `0..n` exactly, as
/// chunks of ten: none when there are no files; otherwise the first starts
/// at 0, each starts where the one before ended, each holds at least one
/// and at most ten files, all but the last hold ten, and the last ends at
/// `n`. So every file lies in exactly one batch.
pub proof fn law_batches_cover_all_files(n: nat)
    requires
        n <= usize::MAX,
    ensures
        n == 0 <==> batches_spec(n).len() == 0,
        n > 0 ==> batches_spec(n)[0].0 == 0 && batches_spec(n).last().1 == n,
        forall|i: int|
            0 <= i < batches_spec(n).len() ==> #[trigger] batches_spec(n)[i].0 < batches_spec(n)[i].1
                <= batches_spec(n)[i].0 + 10,
        forall|i: int|
            0 <= i < batches_spec(n).len() - 1 ==> #[trigger] batches_spec(n)[i].1 == batches_spec(
                n,
            )[i + 1].0 && batches_spec(n)[i].1 == batches_spec(n)[i].0 + 10,
{
    let b = batches_spec(n);
    let len = (n + 9) / 10;
    assert(b.len() == len);
    assert(n == 0 <==> len == 0) by (nonlinear_arith)
        requires
            len == (n + 9) / 10,
    ;
    assert forall|i: int| 0 <= i < b.len() implies #[trigger] b[i].0 < b[i].1 <= b[i].0 + 10 by {
        assert(10 * i < n) by (nonlinear_arith)
            requires
                len == (n + 9) / 10,
                0 <= i < len,
        ;
    }
    assert forall|i: int| 0 <= i < b.len() - 1 implies #[trigger] b[i].1 == b[i + 1].0 && b[i].1
        == b[i].0 + 10 by {
        assert(10 * (i + 1) < n) by (nonlinear_arith)
            requires
                len == (n + 9) / 10,
                0 <= i < len - 1,
        ;
    }
    if n > 0 {
        assert(10 * (len - 1) < n) by (nonlinear_arith)
            requires
                len == (n + 9) / 10,
                n > 0,
        ;
        assert(b.last() == b[len - 1]);
    }
}

/// Whether writing the files stops at this result: only an I/O failure
/// stops it; other failures, such as a file that exists already, are passed
/// over.
pub fn stops_writing(result: &Result<(), GeenieError>) -> (r: bool)
    ensures
        r == (result matches Err(e) && e is Io),
{
    match result {
        Ok(()) => false,
        Err(e) => e.is_io(),
    }
}

/// The outcome of generating a project: its files and the commands to run.
pub struct GeenieResult<B, C> {
    pub files: Vec<Package<B>>,
    pub commands: Vec<C>,
}

/// Law: a builder never holds two files with one path, and adding a file
/// whose path is taken fails with that path and leaves the files as they
/// were.
pub proof fn law_paths_stay_distinct<B>(files: Seq<(Seq<char>, B)>, file: (Seq<char>, B))
    requires
        distinct_paths(files),
    ensures
        push_spec(files, file) matches Ok(after) ==> distinct_paths(after) && after.last() == file
            && after.drop_last() == files,
        has_path(files, file.0) ==> push_spec(files, file) == Err::<Seq<(Seq<char>, B)>, Seq<char>>(
            file.0,
        ),
{
    if !has_path(files, file.0) {
        let after = files.push(file);
        assert forall|i: int, j: int| 0 <= i < j < after.len() implies !same_path(
            (#[trigger] after[i]).0,
            (#[trigger] after[j]).0,
        ) by {
            if j == files.len() {
                assert(after[i] == files[i]);
                assert(!same_path(files[i].0, file.0));
            } else {
                assert(after[i] == files[i]);
                assert(after[j] == files[j]);
            }
        }
        assert(after.drop_last() =~= files);
    }
}

} // verus!
