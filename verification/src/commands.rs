//! Command resolution and results.
//!
//! A [`CommandSpec`] describes what a caller wants to run: a program, its
//! arguments, and whether it must run with elevated privileges. [`resolve`]
//! turns it into the invocation actually handed to the operating system:
//! elevated commands are re-targeted through the fixed privilege-escalation
//! helper, everything else passes through unchanged.
use vstd::prelude::*;

verus! {

/// A caller's request: run `program` with `arguments`, optionally elevated.
#[derive(Debug, Clone)]
pub struct CommandSpec {
    pub program: String,
    pub arguments: Vec<String>,
    pub elevate: bool,
}

/// The executable and argument vector actually passed to the OS spawn call.
#[derive(Debug, Clone)]
pub struct ResolvedInvocation {
    pub executable: String,
    pub arguments: Vec<String>,
}

/// The one failure [`resolve`] can report: an empty program name.
#[derive(Debug, Clone, Copy, PartialEq, Eq, Structural)]
pub enum CommandError {
    InvalidSpec,
}

/// Name of the privilege-escalation helper that elevated commands run under.
pub open spec fn helper_name() -> Seq<char> {
    "pkexec"@
}

/// Executable chosen for a spec: the helper when elevating, else the program.
pub open spec fn resolved_executable(program: Seq<char>, elevate: bool) -> Seq<char> {
    if elevate {
        helper_name()
    } else {
        program
    }
}

/// Argument vector chosen for a spec: when elevating, the original program is
/// prepended so the helper runs `program arguments...`; else unchanged.
pub open spec fn resolved_arguments(
    program: Seq<char>,
    arguments: Seq<Seq<char>>,
    elevate: bool,
) -> Seq<Seq<char>> {
    if elevate {
        seq![program] + arguments
    } else {
        arguments
    }
}

/// An unelevated command passes through resolution unchanged: the
/// executable is the program itself and the arguments are the original
/// arguments.
pub proof fn lemma_resolve_passthrough(program: Seq<char>, arguments: Seq<Seq<char>>)
    ensures
        resolved_executable(program, false) == program,
        resolved_arguments(program, arguments, false) == arguments,
{
}

/// An elevated command resolves to the privilege-escalation helper, with
/// the original program prepended to the original arguments in that order.
pub proof fn lemma_resolve_elevated(program: Seq<char>, arguments: Seq<Seq<char>>)
    ensures
        resolved_executable(program, true) == helper_name(),
        resolved_arguments(program, arguments, true) == seq![program] + arguments,
{
}

/// Resolution is pure: it is a function of the spec's fields alone, so
/// repeated resolution of an identical spec always yields an identical
/// invocation. [`resolve`]'s contract pins its result to exactly these
/// functions of its input, so two calls on equal specs agree.
pub proof fn lemma_resolve_deterministic(
    p1: Seq<char>,
    a1: Seq<Seq<char>>,
    e1: bool,
    p2: Seq<char>,
    a2: Seq<Seq<char>>,
    e2: bool,
)
    requires
        p1 == p2,
        a1 == a2,
        e1 == e2,
    ensures
        resolved_executable(p1, e1) == resolved_executable(p2, e2),
        resolved_arguments(p1, a1, e1) == resolved_arguments(p2, a2, e2),
{
}

/// Derive the actual invocation from a command spec.
///
/// Pure: the result is a function of the spec alone. Fails exactly when the
/// program name is empty.
pub fn resolve(cmd: &CommandSpec) -> (r: Result<ResolvedInvocation, CommandError>)
    ensures
        match r {
            Ok(inv) => cmd.program@.len() > 0 && inv.executable@ == resolved_executable(
                cmd.program@,
                cmd.elevate,
            ) && inv.arguments.deep_view() == resolved_arguments(
                cmd.program@,
                cmd.arguments.deep_view(),
                cmd.elevate,
            ),
            Err(e) => cmd.program@.len() == 0 && e == CommandError::InvalidSpec,
        },
{
    if cmd.program.as_str().is_empty() {
        return Err(CommandError::InvalidSpec);
    }
    if cmd.elevate {
        let mut arguments: Vec<String> = Vec::new();
        arguments.push(cmd.program.clone());
        let mut i: usize = 0;
        while i < cmd.arguments.len()
            invariant
                i <= cmd.arguments.len(),
                arguments@.len() == i + 1,
                arguments@[0]@ == cmd.program@,
                forall|j: int| 1 <= j < i + 1 ==> arguments@[j]@ == cmd.arguments@[j - 1]@,
            decreases cmd.arguments.len() - i,
        {
            arguments.push(cmd.arguments[i].clone());
            i = i + 1;
        }
        assert(arguments.deep_view() =~= seq![cmd.program@] + cmd.arguments.deep_view());
        Ok(ResolvedInvocation { executable: "pkexec".to_owned(), arguments })
    } else {
        let mut arguments: Vec<String> = Vec::new();
        let mut i: usize = 0;
        while i < cmd.arguments.len()
            invariant
                i <= cmd.arguments.len(),
                arguments@.len() == i,
                forall|j: int| 0 <= j < i ==> arguments@[j]@ == cmd.arguments@[j]@,
            decreases cmd.arguments.len() - i,
        {
            arguments.push(cmd.arguments[i].clone());
            i = i + 1;
        }
        assert(arguments.deep_view() =~= cmd.arguments.deep_view());
        Ok(ResolvedInvocation { executable: cmd.program.clone(), arguments })
    }
}

/// Outcome of one finished command: its exit code and everything it wrote.
#[derive(Debug, Clone)]
pub struct CommandResult {
    pub exit_code: i32,
    pub stdout: String,
    pub stderr: String,
}

impl CommandResult {
    /// A command counts as successful exactly when it exited with code zero.
    pub fn success(&self) -> (r: bool)
        ensures
            r == (self.exit_code == 0),
    {
        self.exit_code == 0
    }
}

/// Answer whether a named executable is resolvable on the current search path.
///
/// Relies on `which::which` to perform the lookup; the outcome depends on the
/// machine's state, so nothing is promised of it.
#[verifier::external_body]
pub fn have_command(name: &str) -> bool {
    which::which(name).is_ok()
}

} // verus!
