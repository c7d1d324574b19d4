//! The model of an external command: a resolved program path, its
//! arguments, and what came back from a run.
//!
//! Resolving a program name on `PATH` and spawning the process are I/O and
//! stay with the caller; this module holds what can be pinned down — how a
//! command line is assembled and rendered, and how an outcome is read.

use vstd::prelude::*;

use crate::errors::Error;

verus! {

/// Whether a run should print the command instead of spawning it.
#[derive(Debug)]
pub struct ExecCtx {
    dry_run: bool,
}

impl ExecCtx {
    /// The dry-run flag, as a specification value.
    pub closed spec fn dry_run_spec(&self) -> bool {
        self.dry_run
    }

    /// A context that really runs commands.
    pub fn new() -> (r: ExecCtx)
        ensures
            !r.dry_run_spec(),
    {
        ExecCtx { dry_run: false }
    }

    /// The same context with the dry-run flag set as given.
    pub fn set_dry_run(self, dry_run: bool) -> (r: ExecCtx)
        ensures
            r.dry_run_spec() == dry_run,
    {
        ExecCtx { dry_run }
    }

    /// Whether this context is a dry run.
    pub fn dry_run(&self) -> (r: bool)
        ensures
            r == self.dry_run_spec(),
    {
        self.dry_run
    }
}

/// A context for runs that carry nothing with them.
pub struct EmptyCtx {}

/// What one program invocation holds, at the specification level.
pub struct SoftwareView {
    pub path: Seq<char>,
    pub args: Seq<Seq<char>>,
    pub dry_run: bool,
}

/// A program about to be invoked: its resolved path and its arguments.
#[derive(Debug)]
pub struct Software {
    path: String,
    args: Vec<String>,
    dry_run: bool,
}

impl View for Software {
    type V = SoftwareView;

    closed spec fn view(&self) -> SoftwareView {
        SoftwareView {
            path: self.path@,
            args: Seq::new(self.args@.len(), |i: int| self.args@[i]@),
            dry_run: self.dry_run,
        }
    }
}

impl Software {
    /// A program from an already resolved path; looking a name up on
    /// `PATH` is the caller's I/O.
    pub fn from_path(path: String, exec_ctx: &ExecCtx) -> (r: Software)
        ensures
            r@.path == path@,
            r@.args == Seq::<Seq<char>>::empty(),
            r@.dry_run == exec_ctx.dry_run_spec(),
    {
        let r = Software { path, args: Vec::new(), dry_run: exec_ctx.dry_run() };
        proof {
            assert(r@.args =~= Seq::<Seq<char>>::empty());
        }
        r
    }

    /// A program that stands for its bare name, never resolved; for dry
    /// runs and tests.
    pub fn fake(name: &str, exec_ctx: &ExecCtx) -> (r: Software)
        ensures
            r@.path == name@,
            r@.args == Seq::<Seq<char>>::empty(),
            r@.dry_run == exec_ctx.dry_run_spec(),
    {
        Software::from_path(String::from_str(name), exec_ctx)
    }

    /// Append one argument.
    pub fn arg(&mut self, arg: &str)
        ensures
            final(self)@.path == old(self)@.path,
            final(self)@.dry_run == old(self)@.dry_run,
            final(self)@.args == old(self)@.args.push(arg@),
    {
        self.args.push(String::from_str(arg));
        proof {
            assert(self@.args =~= old(self)@.args.push(arg@));
        }
    }

    /// Append arguments, in order.
    pub fn args(&mut self, args: &Vec<String>)
        ensures
            final(self)@.path == old(self)@.path,
            final(self)@.dry_run == old(self)@.dry_run,
            final(self)@.args == old(self)@.args + Seq::new(args@.len(), |i: int| args@[i]@),
    {
        let ghost given = Seq::new(args@.len(), |i: int| args@[i]@);
        let n = args.len();
        proof {
            assert(old(self)@.args + given.take(0) =~= old(self)@.args);
        }
        let mut i: usize = 0;
        while i < n
            invariant
                0 <= i <= n,
                n == args@.len(),
                given == Seq::new(args@.len(), |k: int| args@[k]@),
                self@.path == old(self)@.path,
                self@.dry_run == old(self)@.dry_run,
                self@.args == old(self)@.args + given.take(i as int),
            decreases n - i,
        {
            self.arg(args[i].as_str());
            proof {
                assert(given.take(i as int + 1) =~= given.take(i as int).push(given[i as int]));
                assert(old(self)@.args + given.take(i as int + 1) =~= (old(self)@.args + given.take(
                    i as int,
                )).push(given[i as int]));
            }
            i = i + 1;
        }
        proof {
            assert(given.take(n as int) =~= given);
        }
    }

    /// The arguments so far.
    pub fn get_args(&self) -> (r: &Vec<String>)
        ensures
            r@.len() == self@.args.len(),
            forall|i: int| 0 <= i < r@.len() ==> #[trigger] r@[i]@ == self@.args[i],
    {
        &self.args
    }

    /// The resolved path.
    pub fn path(&self) -> (r: String)
        ensures
            r@ == self@.path,
    {
        self.path.clone()
    }

    /// The program turned into a runner that carries `ctx` with it.
    pub fn runner<C>(self, ctx: C) -> (r: Runner<C>)
        ensures
            r@.path == self@.path,
            r@.args == self@.args,
            r@.dry_run == self@.dry_run,
    {
        Runner { path: self.path, args: self.args, ctx, dry_run: self.dry_run }
    }
}

/// How one argument stands on a rendered command line: quoted when it
/// holds whitespace.
pub open spec fn quoted_arg(a: Seq<char>) -> Seq<char> {
    if crate::env_file::has_space(a) {
        seq!['"'] + a + seq!['"']
    } else {
        a
    }
}

/// The rendered command line: the path, then each argument after one
/// space.
pub open spec fn command_line_spec(path: Seq<char>, args: Seq<Seq<char>>) -> Seq<char>
    decreases args.len(),
{
    if args.len() == 0 {
        path
    } else {
        command_line_spec(path + seq![' '] + quoted_arg(args[0]), args.drop_first())
    }
}

/// A program, its arguments and a caller's context, ready to run; the
/// spawn itself is the caller's I/O.
pub struct Runner<C> {
    path: String,
    args: Vec<String>,
    ctx: C,
    dry_run: bool,
}

impl<C> View for Runner<C> {
    type V = SoftwareView;

    closed spec fn view(&self) -> SoftwareView {
        SoftwareView {
            path: self.path@,
            args: Seq::new(self.args@.len(), |i: int| self.args@[i]@),
            dry_run: self.dry_run,
        }
    }
}

impl<C> Runner<C> {
    /// The arguments the run will get.
    pub fn args(&self) -> (r: &Vec<String>)
        ensures
            r@.len() == self@.args.len(),
            forall|i: int| 0 <= i < r@.len() ==> #[trigger] r@[i]@ == self@.args[i],
    {
        &self.args
    }

    /// The command line as printed: path, then each argument after one
    /// space, quoted when it holds whitespace.
    pub fn command_line(&self) -> (r: String)
        ensures
            r@ == command_line_spec(self@.path, self@.args),
    {
        let ghost args_view = self@.args;
        let mut out = self.path.clone();
        let n = self.args.len();
        let mut i: usize = 0;
        proof {
            assert(args_view.skip(0) =~= args_view);
        }
        while i < n
            invariant
                0 <= i <= n,
                n == self.args@.len(),
                args_view == self@.args,
                command_line_spec(out@, args_view.skip(i as int)) == command_line_spec(
                    self@.path,
                    args_view,
                ),
            decreases n - i,
        {
            proof {
                assert(args_view.skip(i as int)[0] == args_view[i as int]);
                assert(args_view.skip(i as int).drop_first() =~= args_view.skip(i as int + 1));
                assert(self.args@[i as int]@ == args_view[i as int]);
                reveal_strlit(" ");
                reveal_strlit("\"");
                assert((" ")@ =~= seq![' ']);
                assert(("\"")@ =~= seq!['"']);
            }
            let ghost pre = out@;
            out.append(" ");
            let quoted = crate::env_file::contains_space(self.args[i].as_str());
            if quoted {
                out.append("\"");
                out.append(self.args[i].as_str());
                out.append("\"");
            } else {
                out.append(self.args[i].as_str());
            }
            proof {
                assert(out@ =~= pre + seq![' '] + quoted_arg(args_view[i as int]));
                assert(command_line_spec(pre, args_view.skip(i as int)) == command_line_spec(
                    pre + seq![' '] + quoted_arg(args_view[i as int]),
                    args_view.skip(i as int + 1),
                ));
            }
            i = i + 1;
        }
        proof {
            assert(args_view.skip(n as int) =~= Seq::<Seq<char>>::empty());
        }
        out
    }

    /// The pieces a caller needs to spawn the process: path, arguments,
    /// its own context, and the dry-run flag.
    pub fn into_parts(self) -> (r: (String, Vec<String>, C, bool))
        ensures
            r.0@ == self@.path,
            r.1@.len() == self@.args.len(),
            forall|i: int| 0 <= i < r.1@.len() ==> #[trigger] r.1@[i]@ == self@.args[i],
            r.3 == self@.dry_run,
    {
        (self.path, self.args, self.ctx, self.dry_run)
    }
}

/// What came back from a finished process: a failure, if any, and the two
/// output streams.
#[derive(Debug)]
pub struct Output {
    /// The failure, when the process did not succeed.
    pub fail: Option<Error>,
    /// The bytes the process wrote to stderr.
    pub stderr: Vec<u8>,
    /// The bytes the process wrote to stdout.
    pub stdout: Vec<u8>,
}

/// What an `s3 ls`-style existence probe concluded.
#[derive(Debug)]
pub struct AwsOutPutS3Exists {
    is_exists: bool,
}

impl AwsOutPutS3Exists {
    /// The conclusion, as a specification value.
    pub closed spec fn is_exists_spec(&self) -> bool {
        self.is_exists
    }

    /// Whether the probed object exists.
    pub fn is_exists(&self) -> (r: bool)
        ensures
            r == self.is_exists_spec(),
    {
        self.is_exists
    }

    /// Read a probe's outcome: the object is absent exactly when the
    /// process failed with exit code 255; any other outcome means it
    /// exists.
    pub fn from_output(output: Output) -> (r: Result<AwsOutPutS3Exists, Error>)
        ensures
            r matches Ok(a) && a.is_exists_spec() == !(output.fail matches Some(e)
                && e.is_exit_code(255)),
    {
        let mut is_exists = true;
        match &output.fail {
            Some(err) => {
                if err.exit_code_eq(255) {
                    is_exists = false;
                }
            },
            None => {},
        }
        Ok(AwsOutPutS3Exists { is_exists })
    }
}

} // verus!
