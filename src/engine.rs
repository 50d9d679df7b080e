use vstd::prelude::*;
use vstd::string::StringSliceAdditionalSpecFns;
use vstd::utf8::valid_utf8;
use crate::runtime::{builtin_named, Builtin, Runtime};
use crate::status::{ShellError, Status};
use crate::text::is_text;
use crate::words::{join, join_words, split_words, views, words};
use crate::MAX_DEPTH;

verus! {

/// Every argument is well-formed UTF-8 text.
pub open spec fn all_text(args: Seq<Seq<u8>>) -> bool {
    forall|i: int| 0 <= i < args.len() ==> valid_utf8(#[trigger] args[i])
}

/// What executing `line` at nesting `depth` comes to: the argument vector of
/// the process to start, or the failure.
pub open spec fn line_outcome(
    line: Seq<u8>,
    depth: nat,
    reg: Seq<(Seq<u8>, Builtin)>,
) -> Result<Seq<Seq<u8>>, ShellError>
    decreases (MAX_DEPTH - depth) as nat, 0nat,
{
    let argv = words(line);
    if argv.len() == 0 {
        Err(ShellError::SyntaxError)
    } else {
        match builtin_named(reg, argv[0]) {
            None => Ok(argv),
            Some(b) => if depth >= MAX_DEPTH {
                Err(ShellError::RecursionLimitExceeded)
            } else {
                builtin_outcome(b, argv, depth + 1, reg)
            },
        }
    }
}

/// What running builtin `b` on `argv` at nesting `depth` comes to.
pub open spec fn builtin_outcome(
    b: Builtin,
    argv: Seq<Seq<u8>>,
    depth: nat,
    reg: Seq<(Seq<u8>, Builtin)>,
) -> Result<Seq<Seq<u8>>, ShellError>
    decreases (MAX_DEPTH - depth) as nat, 2nat,
{
    match b {
        Builtin::Command => command_outcome(argv, depth, reg),
    }
}

/// What the `command` builtin comes to: the line made of its arguments, run at
/// the same depth, or `InvalidArgument` if one of them is not text.
pub open spec fn command_outcome(
    argv: Seq<Seq<u8>>,
    depth: nat,
    reg: Seq<(Seq<u8>, Builtin)>,
) -> Result<Seq<Seq<u8>>, ShellError>
    decreases (MAX_DEPTH - depth) as nat, 1nat,
{
    if all_text(argv.skip(1)) {
        line_outcome(join(argv.skip(1)), depth, reg)
    } else {
        Err(ShellError::InvalidArgument)
    }
}

/// The byte strings of an execution result.
pub open spec fn outcome_view(r: Result<Vec<Vec<u8>>, ShellError>) -> Result<Seq<Seq<u8>>, ShellError> {
    match r {
        Ok(argv) => Ok(views(argv@)),
        Err(e) => Err(e),
    }
}

/// The builtin that re-reads its arguments as a command line.
pub struct Command;

impl Command {
    /// Joins `argv[1..]` with single spaces and executes the result as a line
    /// against the same runtime. Fails with `InvalidArgument`, leaving the
    /// runtime as it was, if an argument is not valid UTF-8.
    pub fn run(self, argv: Vec<Vec<u8>>, runtime: &mut Runtime) -> (r: Result<
        Vec<Vec<u8>>,
        ShellError,
    >)
        requires
            old(runtime)@.wf(),
            argv@.len() >= 1,
        ensures
            outcome_view(r) == command_outcome(
                views(argv@),
                old(runtime)@.depth,
                old(runtime)@.builtins,
            ),
            final(runtime)@ == old(runtime)@,
        decreases (MAX_DEPTH - old(runtime)@.depth) as nat, 1nat,
    {
        let ghost args = views(argv@).skip(1);
        let mut i: usize = 1;
        while i < argv.len()
            invariant
                1 <= i <= argv@.len(),
                args == views(argv@).skip(1),
                forall|j: int| 0 <= j < i - 1 ==> valid_utf8(#[trigger] args[j]),
            decreases argv@.len() - i,
        {
            if !is_text(argv[i].as_slice()) {
                assert(args[i - 1] == argv@[i as int]@);
                return Err(ShellError::InvalidArgument);
            }
            assert(args[i - 1] == argv@[i as int]@);
            i = i + 1;
        }
        assert(all_text(args));
        let text = join_words(&argv, 1);
        run_line(text.as_slice(), runtime)
    }
}

impl Builtin {
    /// Runs this builtin on `argv` against `runtime`.
    pub fn run(self, argv: Vec<Vec<u8>>, runtime: &mut Runtime) -> (r: Result<
        Vec<Vec<u8>>,
        ShellError,
    >)
        requires
            old(runtime)@.wf(),
            argv@.len() >= 1,
        ensures
            outcome_view(r) == builtin_outcome(
                self,
                views(argv@),
                old(runtime)@.depth,
                old(runtime)@.builtins,
            ),
            final(runtime)@ == old(runtime)@,
        decreases (MAX_DEPTH - old(runtime)@.depth) as nat, 2nat,
    {
        match self {
            Builtin::Command => Command.run(argv, runtime),
        }
    }
}

/// Executes the command line held in `line`. A builtin runs in place, one
/// level deeper, and the depth is restored on every exit; any other command
/// comes back as the argument vector of the process to start.
pub fn run_line(line: &[u8], runtime: &mut Runtime) -> (r: Result<Vec<Vec<u8>>, ShellError>)
    requires
        old(runtime)@.wf(),
    ensures
        outcome_view(r) == line_outcome(line@, old(runtime)@.depth, old(runtime)@.builtins),
        final(runtime)@ == old(runtime)@,
    decreases (MAX_DEPTH - old(runtime)@.depth) as nat, 0nat,
{
    let argv = split_words(line);
    if argv.len() == 0 {
        return Err(ShellError::SyntaxError);
    }
    assert(views(argv@)[0] == argv@[0]@);
    match runtime.lookup(argv[0].as_slice()) {
        None => Ok(argv),
        Some(b) => {
            if runtime.depth() >= MAX_DEPTH {
                return Err(ShellError::RecursionLimitExceeded);
            }
            runtime.enter();
            let r = b.run(argv, runtime);
            runtime.leave();
            r
        },
    }
}

/// Parses and executes one line of shell text; see `run_line`.
pub fn parse_and_run(text: &str, runtime: &mut Runtime) -> (r: Result<Vec<Vec<u8>>, ShellError>)
    requires
        old(runtime)@.wf(),
    ensures
        outcome_view(r) == line_outcome(
            text.spec_bytes(),
            old(runtime)@.depth,
            old(runtime)@.builtins,
        ),
        final(runtime)@ == old(runtime)@,
{
    run_line(text.as_bytes(), runtime)
}

impl Runtime {
    /// Takes in how a started process ended, or why it could not be started or
    /// awaited: a status becomes the last status and is returned; an error is
    /// returned unchanged and leaves the runtime as it was.
    pub fn finish(&mut self, outcome: Result<Status, ShellError>) -> (r: Result<Status, ShellError>)
        ensures
            r == outcome,
            final(self)@.depth == old(self)@.depth,
            final(self)@.builtins == old(self)@.builtins,
            final(self)@.last_status == match outcome {
                Ok(s) => s,
                Err(_) => old(self)@.last_status,
            },
    {
        match outcome {
            Ok(s) => {
                self.set_last_status(s);
                Ok(s)
            },
            Err(e) => Err(e),
        }
    }
}

} // verus!
