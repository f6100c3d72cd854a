use vstd::prelude::*;

verus! {

/// The error of project generation.
pub enum GeenieError {
    /// An I/O failure, with its message.
    Io(String),
    /// Two files with the same path.
    Duplicate { path: String },
    /// A file that exists already.
    Exists { path: String },
    /// A command that ran and failed, with what it wrote to its error output.
    Process { error: String },
    /// A failure of a backend, with its message.
    Backend(String),
    /// A failure of the interactive prompt, with its message.
    Prompt(String),
}

impl GeenieError {
    /// Whether this is an I/O failure.
    pub fn is_io(&self) -> (r: bool)
        ensures
            r == (self is Io),
    {
        match self {
            GeenieError::Io(_) => true,
            _ => false,
        }
    }

    pub fn duplicate(path: String) -> (e: GeenieError)
        ensures
            e == (GeenieError::Duplicate { path }),
    {
        GeenieError::Duplicate { path }
    }

    pub fn already_exists(path: String) -> (e: GeenieError)
        ensures
            e == (GeenieError::Exists { path }),
    {
        GeenieError::Exists { path }
    }

    pub fn command(error: String) -> (e: GeenieError)
        ensures
            e == (GeenieError::Process { error }),
    {
        GeenieError::Process { error }
    }

    /// A backend failure; `message` is what the failure displays as.
    pub fn backend(message: String) -> (e: GeenieError)
        ensures
            e == GeenieError::Backend(message),
    {
        GeenieError::Backend(message)
    }

    pub open spec fn message_spec(&self) -> Seq<char> {
        match self {
            GeenieError::Io(m) => "io error: "@ + m@,
            GeenieError::Duplicate { path } => "duplicate path: "@ + path@,
            GeenieError::Exists { path } => "file already exists: "@ + path@,
            GeenieError::Process { error } => "command failed: "@ + error@,
            GeenieError::Backend(m) => "backend: "@ + m@,
            GeenieError::Prompt(m) => m@,
        }
    }

    /// The text the error displays as.
    pub fn message(&self) -> (r: String)
        ensures
            r@ == self.message_spec(),
    {
        match self {
            GeenieError::Io(m) => String::from_str("io error: ").concat(m.as_str()),
            GeenieError::Duplicate { path } => String::from_str("duplicate path: ").concat(
                path.as_str(),
            ),
            GeenieError::Exists { path } => String::from_str("file already exists: ").concat(
                path.as_str(),
            ),
            GeenieError::Process { error } => String::from_str("command failed: ").concat(
                error.as_str(),
            ),
            GeenieError::Backend(m) => String::from_str("backend: ").concat(m.as_str()),
            GeenieError::Prompt(m) => m.clone(),
        }
    }
}

} // verus!
