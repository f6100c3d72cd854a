use vstd::prelude::*;
use crate::bytes_text::{join_spec, join_strings};
use crate::geenie::error::GeenieError;

verus! {

/// An external program to run in the project's directory, with its
/// arguments, and whether its output is shown.
pub struct Process {
    cmd: String,
    args: Vec<String>,
    output: bool,
}

/// A process that runs `cmd` with no arguments and shows no output.
pub fn process(cmd: &str) -> (r: Process)
    ensures
        r.cmd_spec() == cmd@,
        r.args_spec().len() == 0,
        !r.shows_output(),
{
    let r = Process { cmd: String::from_str(cmd), args: Vec::new(), output: false };
    assert(r.args_spec() =~= Seq::empty());
    r
}

impl Process {
    pub closed spec fn cmd_spec(&self) -> Seq<char> {
        self.cmd@
    }

    pub closed spec fn args_spec(&self) -> Seq<Seq<char>> {
        self.args@.map_values(|a: String| a@)
    }

    pub closed spec fn shows_output(&self) -> bool {
        self.output
    }

    /// The same process with one more argument at the end.
    pub fn arg(self, arg: &str) -> (r: Self)
        ensures
            r.cmd_spec() == self.cmd_spec(),
            r.args_spec() == self.args_spec().push(arg@),
            r.shows_output() == self.shows_output(),
    {
        let mut s = self;
        s.args.push(String::from_str(arg));
        assert(s.args_spec() =~= self.args_spec().push(arg@));
        s
    }

    /// The same process, showing its output or not.
    pub fn output(self, output: bool) -> (r: Self)
        ensures
            r.cmd_spec() == self.cmd_spec(),
            r.args_spec() == self.args_spec(),
            r.shows_output() == output,
    {
        let mut s = self;
        s.output = output;
        s
    }

    /// The program's name.
    pub fn program(&self) -> (r: &String)
        ensures
            r@ == self.cmd_spec(),
    {
        &self.cmd
    }

    /// The arguments, in order.
    pub fn arguments(&self) -> (r: &Vec<String>)
        ensures
            r@.map_values(|a: String| a@) == self.args_spec(),
    {
        &self.args
    }

    /// Whether the process's standard output is shown after it ran.
    pub fn output_shown(&self) -> (r: bool)
        ensures
            r == self.shows_output(),
    {
        self.output
    }

    pub open spec fn command_line_spec(&self) -> Seq<char> {
        self.cmd_spec() + " "@ + join_spec(self.args_spec(), " "@)
    }

    /// The command as shown to the user: the program, a space, and the
    /// arguments separated by spaces.
    pub fn command_line(&self) -> (r: String)
        ensures
            r@ == self.command_line_spec(),
    {
        let args = join_strings(&self.args, " ");
        self.cmd.clone().concat(" ").concat(args.as_str())
    }

    /// What the spinner says while the process runs.
    pub fn start_message(&self) -> (r: String)
        ensures
            r@ == "Executing "@ + self.command_line_spec(),
    {
        String::from_str("Executing ").concat(self.command_line().as_str())
    }

    /// What the spinner says once the process ran.
    pub fn done_message(&self) -> (r: String)
        ensures
            r@ == "Executed "@ + self.command_line_spec(),
    {
        String::from_str("Executed ").concat(self.command_line().as_str())
    }
}

/// The outcome of a process that ran: success when it exited successfully,
/// otherwise the command error carrying what it wrote to its error output.
pub fn process_outcome(success: bool, stderr: String) -> (r: Result<(), GeenieError>)
    ensures
        success ==> r is Ok,
        !success ==> r == Err::<(), GeenieError>(GeenieError::Process { error: stderr }),
{
    if !success {
        return Err(GeenieError::command(stderr));
    }
    Ok(())
}

} // verus!
