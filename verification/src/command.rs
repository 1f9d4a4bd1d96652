//! A fluent builder over the `execvp` preparation: accumulate a program
//! name and arguments, then marshal them for the call.
//!
//! The API deliberately resembles `std::process::Command`.  The builder
//! consumes and returns itself, so calls chain; the accumulated list
//! becomes the C `argv`, its first entry doubling as the program name.

use vstd::prelude::*;

verus! {

use crate::error::Error;
use crate::marshal::{byte_views, prepare_execvp, prepared_execvp, Argv};

/// The argument list `Command::new(program)` starts from.
pub open spec fn command_new_spec(program: Seq<u8>) -> Seq<Seq<u8>> {
    seq![program]
}

/// The argument list after appending one argument.
pub open spec fn command_arg_spec(argv: Seq<Seq<u8>>, arg: Seq<u8>) -> Seq<Seq<u8>> {
    argv.push(arg)
}

/// Build a command to execute: the program name and its arguments, in
/// typical C `argv` style, the first entry being the program.
///
/// A command always holds at least one entry: the program it was created
/// with.
pub struct Command {
    argv: Vec<Vec<u8>>,
}

impl View for Command {
    type V = Seq<Seq<u8>>;

    closed spec fn view(&self) -> Seq<Seq<u8>> {
        byte_views(self.argv@)
    }
}

impl Command {
    /// Create a new command builder, specifying the program to run.  The
    /// program will be searched for using the usual `PATH` rules when the
    /// call is made.
    pub fn new(program: Vec<u8>) -> (c: Command)
        ensures
            c@ == command_new_spec(program@),
    {
        let mut argv: Vec<Vec<u8>> = Vec::new();
        argv.push(program);
        let c = Command { argv };
        proof {
            assert(c@ =~~= command_new_spec(c.argv@[0]@));
        }
        c
    }

    /// Append an argument.  The builder is returned, so calls chain.
    pub fn arg(self, arg: Vec<u8>) -> (c: Command)
        ensures
            c@ == command_arg_spec(self@, arg@),
    {
        let ghost before = self@;
        let mut argv = self.argv;
        argv.push(arg);
        let c = Command { argv };
        proof {
            assert(c@ =~~= command_arg_spec(before, c.argv@[c.argv@.len() - 1]@));
        }
        c
    }

    /// Append each argument of `args`, preserving their order.  The
    /// builder is returned, so calls chain.
    pub fn args(self, args: &Vec<Vec<u8>>) -> (c: Command)
        ensures
            c@ == self@ + byte_views(args@),
    {
        let ghost before = self@;
        let ghost views = byte_views(args@);
        let mut c = self;
        let n = args.len();
        for i in 0..n
            invariant
                n == args@.len(),
                views == byte_views(args@),
                c@ == before + views.take(i as int),
        {
            c = c.arg(crate::marshal::copy_bytes(&args[i]));
            proof {
                assert(c@ =~~= before + views.take(i + 1));
            }
        }
        proof {
            assert(before + views.take(n as int) =~~= before + views);
        }
        c
    }

    /// The accumulated argument list: the program name first, then the
    /// arguments, in order.
    pub fn argv(&self) -> (r: &Vec<Vec<u8>>)
        ensures
            byte_views(r@) == self@,
    {
        &self.argv
    }

    /// How many entries the command has accumulated.
    pub fn len(&self) -> (n: usize)
        ensures
            n == self@.len(),
    {
        self.argv.len()
    }

    /// Marshal the command for execution: the first accumulated entry is
    /// the program name, the full accumulated list the argument list.
    ///
    /// The outcome is exactly that of [`prepare_execvp`] on those inputs;
    /// the embedding program makes the system call on the returned
    /// buffers.
    pub fn prepare(&self) -> (r: Result<(Vec<u8>, Argv), Error>)
        requires
            self@.len() >= 1,
        ensures
            prepared_execvp(self@[0], self@, r),
    {
        prepare_execvp(&self.argv[0], &self.argv)
    }
}

/// Building `new(program).arg(x).arg(y)` accumulates exactly the list
/// `[program, x, y]`, whose first entry is `program`; preparing the
/// command is therefore pinned to the same outcome as preparing an
/// `execvp` call on `program` with arguments `[program, x, y]` directly.
pub proof fn lemma_command_matches_execvp(
    program: Seq<u8>,
    x: Seq<u8>,
    y: Seq<u8>,
    r: Result<(Vec<u8>, Argv), Error>,
)
    ensures
        command_arg_spec(command_arg_spec(command_new_spec(program), x), y) == seq![program, x, y],
        prepared_execvp(
            seq![program, x, y][0],
            seq![program, x, y],
            r,
        ) == prepared_execvp(program, seq![program, x, y], r),
{
    assert(command_arg_spec(command_arg_spec(command_new_spec(program), x), y) =~~= seq![
        program,
        x,
        y,
    ]);
}

} // verus!
