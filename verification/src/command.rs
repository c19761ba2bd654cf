//! The command specification: which process a connection launches.

use vstd::prelude::*;
use vstd::slice::slice_subrange;

verus! {

/// The executable and its arguments, fixed at startup and shared by every
/// connection. It always holds at least the executable.
#[derive(Debug)]
pub struct CommandSpec {
    words: Vec<String>,
}

impl CommandSpec {
    #[verifier::type_invariant]
    spec fn has_program(self) -> bool {
        self.words@.len() >= 1
    }

    /// The executable followed by its arguments.
    pub closed spec fn words(&self) -> Seq<String> {
        self.words@
    }

    /// Accepts `words` as a command specification unless it is empty.
    pub fn new(words: Vec<String>) -> (accepted: Option<CommandSpec>)
        ensures
            accepted is None <==> words@.len() == 0,
            accepted matches Some(command) ==> command.words() == words@,
    {
        if words.len() == 0 {
            None
        } else {
            Some(CommandSpec { words })
        }
    }

    /// The executable to launch: the first word.
    pub fn program(&self) -> (program: &String)
        ensures
            self.words().len() >= 1,
            *program == self.words()[0],
    {
        proof {
            use_type_invariant(self);
        }
        &self.words[0]
    }

    /// The arguments to launch it with: every word after the first, in order.
    pub fn arguments(&self) -> (arguments: &[String])
        ensures
            self.words().len() >= 1,
            arguments@ == self.words().skip(1),
    {
        proof {
            use_type_invariant(self);
        }
        slice_subrange(self.words.as_slice(), 1, self.words.len())
    }
}

/// What the program does once its arguments are read.
#[derive(Debug)]
pub enum Startup {
    /// No command was given: refuse to start.
    Reject,
    /// Run the command once locally, with inherited output, and exit.
    Try(CommandSpec),
    /// Listen for connections and run the command for each.
    Serve(CommandSpec),
}

/// Decides what to do at startup. An empty command is rejected here, before
/// any connection is accepted; otherwise `try_locally` picks between a local
/// trial run and serving.
pub fn plan_startup(command: Vec<String>, try_locally: bool) -> (plan: Startup)
    ensures
        plan is Reject <==> command@.len() == 0,
        plan matches Startup::Try(spec) ==> try_locally && spec.words() == command@,
        plan matches Startup::Serve(spec) ==> !try_locally && spec.words() == command@,
{
    match CommandSpec::new(command) {
        None => Startup::Reject,
        Some(spec) => if try_locally {
            Startup::Try(spec)
        } else {
            Startup::Serve(spec)
        },
    }
}

} // verus!
