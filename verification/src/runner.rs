//! Running commands: plainly, or contained.
use vstd::prelude::*;

use crate::config::{ConfigView, ContainConfig};
use crate::error::{ContainError, ContainResult, SysError};
use crate::lists::{select_in_schemes, select_known, selects};
use crate::text::{in_scheme, in_some_scheme, lies_in_some_scheme, texts};

verus! {

/// One step through the directory in which the system lists its schemes; `E` is the error of a
/// step that fails.
#[derive(Debug, PartialEq, Eq)]
pub enum SchemeEntry<E> {
    /// A scheme, by its name.
    Name(String),
    /// A name that is not UTF-8.
    Unreadable,
    /// The step failed.
    Failed(E),
}

/// The names among `entries`, in their order.
pub open spec fn entry_names<E>(entries: Seq<SchemeEntry<E>>) -> Seq<Seq<char>>
    decreases entries.len(),
{
    if entries.len() == 0 {
        Seq::empty()
    } else {
        match entries.last() {
            SchemeEntry::Name(name) => entry_names(entries.drop_last()).push(name@),
            _ => entry_names(entries.drop_last()),
        }
    }
}

/// The step `i` is the first that failed, with `error`.
pub open spec fn fails_first_at<E>(entries: Seq<SchemeEntry<E>>, i: int, error: E) -> bool {
    &&& 0 <= i < entries.len()
    &&& entries[i] == SchemeEntry::Failed(error)
    &&& forall|j: int| 0 <= j < i ==> !(#[trigger] entries[j] is Failed)
}

/// The names of the system's schemes, from a walk through the directory that lists them.
///
/// Names that are not UTF-8 are passed over. The first failure ends the walk.
pub fn list_schemes<E>(entries: Result<Vec<SchemeEntry<E>>, E>) -> (r: ContainResult<
    Vec<String>,
    E,
>)
    ensures
        match (entries, r) {
            (Err(error), _) => r == Err::<Vec<String>, ContainError<E>>(
                ContainError::IoError(error),
            ),
            (Ok(steps), Ok(names)) => {
                &&& forall|i: int| 0 <= i < steps@.len() ==> !(#[trigger] steps@[i] is Failed)
                &&& texts(names@) == entry_names(steps@)
            },
            (Ok(steps), Err(e)) => exists|i: int, error: E| #[trigger]
                fails_first_at(steps@, i, error) && e == ContainError::IoError(error),
        },
{
    let mut steps: Vec<SchemeEntry<E>> = match entries {
        Ok(steps) => steps,
        Err(error) => {
            return Err(ContainError::IoError(error));
        },
    };
    let ghost walk = steps@;
    let mut names: Vec<String> = Vec::new();
    let mut i: usize = 0;
    assert(texts(names@) =~= entry_names(walk.take(0)));
    while i < steps.len()
        invariant
            i <= steps@.len(),
            steps@ == walk,
            entries is Ok,
            entries->Ok_0@ == walk,
            forall|j: int| 0 <= j < i ==> !(#[trigger] walk[j] is Failed),
            texts(names@) == entry_names(walk.take(i as int)),
        decreases steps@.len() - i,
    {
        let ghost seen = names@;
        assert(walk.take(i + 1).drop_last() =~= walk.take(i as int));
        assert(walk.take(i + 1).last() == walk[i as int]);
        let failed: bool = match &steps[i] {
            SchemeEntry::Name(name) => {
                names.push(name.clone());
                assert(texts(names@) =~= texts(seen).push(name@));
                false
            },
            SchemeEntry::Unreadable => false,
            SchemeEntry::Failed(_) => true,
        };
        if failed {
            if let SchemeEntry::Failed(error) = steps.swap_remove(i) {
                assert(fails_first_at(walk, i as int, error));
                return Err(ContainError::IoError(error));
            }
            return vstd::pervasive::unreached();
        }
        i = i + 1;
    }
    assert(walk.take(i as int) =~= walk);
    Ok(names)
}

/// `scheme` is to be sandboxed and the system has it.
pub open spec fn is_sandboxed(
    config: ConfigView,
    schemes: Seq<Seq<char>>,
    scheme: Seq<char>,
) -> bool {
    config.sandbox_schemes.contains(scheme) && schemes.contains(scheme)
}

/// `path` lies in a scheme that is to be sandboxed and that the system has.
pub open spec fn in_sandbox(config: ConfigView, schemes: Seq<Seq<char>>, path: Seq<char>) -> bool {
    exists|scheme: Seq<char>| #[trigger]
        is_sandboxed(config, schemes, scheme) && in_scheme(path, scheme)
}

/// The configuration has a root directory, and it lies outside the sandbox.
pub open spec fn root_outside_sandbox(config: ConfigView, schemes: Seq<Seq<char>>) -> bool {
    config.root is Some && !in_sandbox(config, schemes, config.root->0)
}

/// `output` is what is left of `config` on a system that has `schemes`: the schemes that it
/// has, and the paths that lie in the sandbox, each list in ascending order and without
/// repetition.
pub open spec fn is_validated(
    config: ConfigView,
    schemes: Seq<Seq<char>>,
    output: ConfigView,
) -> bool {
    let known = |scheme: Seq<char>| schemes.contains(scheme);
    let inside = |path: Seq<char>| in_sandbox(config, schemes, path);
    &&& selects(config.pass_schemes, known, output.pass_schemes)
    &&& selects(config.sandbox_schemes, known, output.sandbox_schemes)
    &&& selects(config.files, inside, output.files)
    &&& selects(config.dirs, inside, output.dirs)
    &&& selects(config.rofiles, inside, output.rofiles)
    &&& selects(config.rodirs, inside, output.rodirs)
    &&& output.root == config.root
}

/// Brings a configuration into order on a system that has `schemes`.
///
/// Schemes that the system lacks are dropped, and so are paths outside the sandboxed
/// schemes. A root directory outside them is an error.
pub fn validate_config<E>(config: ContainConfig, schemes: &Vec<String>) -> (r: ContainResult<
    ContainConfig,
    E,
>)
    ensures
        match r {
            Ok(output) => {
                &&& !root_outside_sandbox(config@, texts(schemes@))
                &&& is_validated(config@, texts(schemes@), output@)
            },
            Err(e) => {
                &&& root_outside_sandbox(config@, texts(schemes@))
                &&& e is ConfigError
            },
        },
{
    let pass_schemes: Vec<String> = select_known(&config.pass_schemes, schemes);
    let sandbox_schemes: Vec<String> = select_known(&config.sandbox_schemes, schemes);
    let ghost known = texts(schemes@);
    let ghost sandbox = texts(sandbox_schemes@);
    proof {
        assert forall|path: Seq<char>| #[trigger]
            in_some_scheme(path, sandbox) <==> in_sandbox(config@, known, path) by {
            lemma_in_sandbox(config@, known, sandbox, path);
        }
    }
    match &config.root {
        Some(root) => {
            if !lies_in_some_scheme(root, &sandbox_schemes) {
                return Err(ContainError::ConfigError);
            }
        },
        None => {},
    }
    let files: Vec<String> = select_in_schemes(&config.files, &sandbox_schemes);
    let dirs: Vec<String> = select_in_schemes(&config.dirs, &sandbox_schemes);
    let rofiles: Vec<String> = select_in_schemes(&config.rofiles, &sandbox_schemes);
    let rodirs: Vec<String> = select_in_schemes(&config.rodirs, &sandbox_schemes);
    Ok(
        ContainConfig {
            pass_schemes,
            sandbox_schemes,
            files,
            dirs,
            rofiles,
            rodirs,
            root: config.root,
        },
    )
}

proof fn lemma_in_sandbox(
    config: ConfigView,
    known: Seq<Seq<char>>,
    sandbox: Seq<Seq<char>>,
    path: Seq<char>,
)
    requires
        selects(
            config.sandbox_schemes,
            |scheme: Seq<char>| known.contains(scheme),
            sandbox,
        ),
    ensures
        in_some_scheme(path, sandbox) <==> in_sandbox(config, known, path),
{
    if in_some_scheme(path, sandbox) {
        let i = choose|i: int|
            0 <= i < sandbox.len() && in_scheme(path, #[trigger] sandbox[i]);
        assert(sandbox.contains(sandbox[i]));
        assert(is_sandboxed(config, known, sandbox[i]));
    }
    if in_sandbox(config, known, path) {
        let scheme = choose|scheme: Seq<char>| #[trigger]
            is_sandboxed(config, known, scheme) && in_scheme(path, scheme);
        assert(sandbox.contains(scheme));
        let i = choose|i: int| 0 <= i < sandbox.len() && sandbox[i] == scheme;
        assert(in_scheme(path, sandbox[i]));
    }
}

/// The exit code to report for a command that was run plainly: its own, or 1 where a signal
/// ended it. `waited` is what became of starting it and waiting for it.
pub fn run_not_contained<E>(waited: Result<Option<i32>, E>) -> (r: ContainResult<i32, E>)
    ensures
        r == match waited {
            Ok(Some(code)) => Ok::<i32, ContainError<E>>(code),
            Ok(None) => Ok::<i32, ContainError<E>>(1),
            Err(error) => Err::<i32, ContainError<E>>(ContainError::IoError(error)),
        },
{
    match waited {
        Ok(Some(code)) => Ok(code),
        Ok(None) => Ok(1),
        Err(error) => Err(ContainError::IoError(error)),
    }
}

/// A call that waits for a process.
#[derive(Clone, Copy, Debug, PartialEq, Eq, Structural)]
pub struct WaitCall {
    /// The process; 0 for any.
    pub pid: usize,
    /// Whether to come back at once where there is nothing to wait for.
    pub no_hang: bool,
}

/// The next step in running a command contained, once its container has been set up.
#[derive(Debug, PartialEq, Eq)]
pub enum RunStep<E> {
    /// Execute the command in place of this process.
    Execute,
    /// Wait for the contained process.
    WaitForChild(WaitCall),
    /// Collect a process that has ended. The contained one has, with `status`.
    Reap { call: WaitCall, status: i32 },
    /// Tell the handler to stop.
    SignalShutdown { status: i32 },
    /// Return.
    Return(ContainResult<i32, E>),
    /// Exit.
    Exit(i32),
}

/// What came of it.
#[derive(Clone, Copy, Debug, PartialEq, Eq)]
pub enum RunReply {
    /// The command could not be executed.
    ExecFailed,
    /// The status of the contained process.
    Waited(Result<i32, SysError>),
    /// The process that was collected; 0 for none.
    Reaped(Result<usize, SysError>),
    /// The handler has been told.
    Signalled,
}

/// `reply` can be what came of `step`.
pub open spec fn results<E>(step: RunStep<E>, reply: RunReply) -> bool {
    match (step, reply) {
        (RunStep::Execute, RunReply::ExecFailed) => true,
        (RunStep::WaitForChild(_), RunReply::Waited(_)) => true,
        (RunStep::Reap { .. }, RunReply::Reaped(_)) => true,
        (RunStep::SignalShutdown { .. }, RunReply::Signalled) => true,
        _ => false,
    }
}

/// The step that collects whatever has ended, once the contained process has with `status`.
pub open spec fn reaping<E>(status: i32) -> RunStep<E> {
    RunStep::Reap { call: WaitCall { pid: 0, no_hang: true }, status }
}

/// The first step, where setting up the container gave `launched`: the contained process, or
/// 0 in that process itself.
pub open spec fn run_begins<E>(launched: ContainResult<usize, E>) -> RunStep<E> {
    match launched {
        Err(e) => RunStep::Return(Err(e)),
        Ok(0) => RunStep::Execute,
        Ok(pid) => RunStep::WaitForChild(WaitCall { pid, no_hang: false }),
    }
}

/// The step after `step`, of which `reply` came.
pub open spec fn run_after<E>(
    step: RunStep<E>,
    reply: RunReply,
    exec_fail_exit: i32,
) -> RunStep<E> {
    match (step, reply) {
        (RunStep::Execute, RunReply::ExecFailed) => RunStep::Exit(exec_fail_exit),
        (RunStep::WaitForChild(_), RunReply::Waited(waited)) => match waited {
            Err(e) => RunStep::Return(Err(ContainError::SyscallError(e))),
            Ok(status) => reaping(status),
        },
        (RunStep::Reap { status, .. }, RunReply::Reaped(reaped)) => if reaped is Ok && reaped->Ok_0
            != 0 {
            reaping(status)
        } else {
            RunStep::SignalShutdown { status }
        },
        (RunStep::SignalShutdown { status }, RunReply::Signalled) => RunStep::Return(Ok(status)),
        _ => step,
    }
}

/// What a container is set up from to run a command contained: what is left of `config` on a
/// system of which `entries` lists the schemes.
pub fn run_contained<E>(
    config: ContainConfig,
    entries: Result<Vec<SchemeEntry<E>>, E>,
) -> (r: ContainResult<ContainConfig, E>)
    ensures
        match (entries, r) {
            (Err(error), _) => r == Err::<ContainConfig, ContainError<E>>(
                ContainError::IoError(error),
            ),
            (Ok(steps), Ok(output)) => {
                &&& forall|i: int| 0 <= i < steps@.len() ==> !(#[trigger] steps@[i] is Failed)
                &&& !root_outside_sandbox(config@, entry_names(steps@))
                &&& is_validated(config@, entry_names(steps@), output@)
            },
            (Ok(steps), Err(e)) => {
                ||| exists|i: int, error: E| #[trigger]
                    fails_first_at(steps@, i, error) && e == ContainError::IoError(error)
                ||| {
                    &&& forall|i: int| 0 <= i < steps@.len() ==> !(#[trigger] steps@[i] is Failed)
                    &&& root_outside_sandbox(config@, entry_names(steps@))
                    &&& e is ConfigError
                }
            },
        },
{
    match list_schemes(entries) {
        Ok(schemes) => validate_config(config, &schemes),
        Err(e) => Err(e),
    }
}

/// The first step, where setting up the container gave `launched`.
pub fn first_run_step<E>(launched: ContainResult<usize, E>) -> (r: RunStep<E>)
    ensures
        r == run_begins(launched),
{
    match launched {
        Ok(child_pid) => if child_pid == 0 {
            RunStep::Execute
        } else {
            RunStep::WaitForChild(WaitCall { pid: child_pid, no_hang: false })
        },
        Err(e) => RunStep::Return(Err(e)),
    }
}

/// The step after `step`, of which `reply` came.
pub fn next_run_step<E>(step: RunStep<E>, reply: RunReply, exec_fail_exit: i32) -> (r: RunStep<E>)
    requires
        results(step, reply),
    ensures
        r == run_after(step, reply, exec_fail_exit),
{
    match (step, reply) {
        (RunStep::Execute, RunReply::ExecFailed) => RunStep::Exit(exec_fail_exit),
        (RunStep::WaitForChild(_), RunReply::Waited(waited)) => match waited {
            Ok(status) => RunStep::Reap { call: WaitCall { pid: 0, no_hang: true }, status },
            Err(e) => RunStep::Return(Err(ContainError::SyscallError(e))),
        },
        (RunStep::Reap { status, .. }, RunReply::Reaped(reaped)) => {
            let pid: usize = match reaped {
                Ok(pid) => pid,
                Err(_) => 0,
            };
            if pid == 0 {
                RunStep::SignalShutdown { status }
            } else {
                RunStep::Reap { call: WaitCall { pid: 0, no_hang: true }, status }
            }
        },
        (RunStep::SignalShutdown { status }, RunReply::Signalled) => RunStep::Return(Ok(status)),
        (step, _) => step,
    }
}

} // verus!
