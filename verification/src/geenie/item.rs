use vstd::prelude::*;

verus! {

/// A command to run once the project's files are written.
pub struct CommandBox<T>(pub T);

/// An item that contributes a command.
pub struct CommandItem<T>(pub T);

/// An item behind a uniform interface.
pub struct ItemBox<T>(pub T);

/// An item that contributes one file.
pub struct PackageItem<P> {
    file: P,
}

impl<P> PackageItem<P> {
    pub closed spec fn file(&self) -> P {
        self.file
    }

    pub fn new(file: P) -> (r: PackageItem<P>)
        ensures
            r.file() == file,
    {
        PackageItem { file }
    }

    /// The file it contributes.
    pub fn into_file(self) -> (r: P)
        ensures
            r == self.file(),
    {
        self.file
    }
}

} // verus!
