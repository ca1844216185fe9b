use vstd::prelude::*;
use crate::corpus::RepositoryDescriptor;

verus! {

/// The steps that one corpus entry goes through, in this order.
#[derive(Debug, Clone, Copy, PartialEq, Eq, Structural)]
pub enum Step {
    CreateDirectory,
    InitRepository,
    AddRemote,
    FetchRef,
    CheckoutFetched,
    Pregenerate,
    RunOld,
    DeleteArtifact,
    Regenerate,
    RunNew,
}

/// The steps of one entry; the generation of the definitions file comes in only where
/// the entry needs it, and is done afresh, after the stale file is deleted, before the
/// new tool runs.
pub open spec fn plan_of(needs_pregeneration: bool) -> Seq<Step> {
    if needs_pregeneration {
        seq![
            Step::CreateDirectory,
            Step::InitRepository,
            Step::AddRemote,
            Step::FetchRef,
            Step::CheckoutFetched,
            Step::Pregenerate,
            Step::RunOld,
            Step::DeleteArtifact,
            Step::Regenerate,
            Step::RunNew,
        ]
    } else {
        seq![
            Step::CreateDirectory,
            Step::InitRepository,
            Step::AddRemote,
            Step::FetchRef,
            Step::CheckoutFetched,
            Step::RunOld,
            Step::RunNew,
        ]
    }
}

/// The steps that the entry goes through, in order.
pub fn plan(entry: &RepositoryDescriptor) -> (r: Vec<Step>)
    ensures
        r@ == plan_of(entry.needs_pregeneration),
{
    let mut r: Vec<Step> = Vec::new();
    r.push(Step::CreateDirectory);
    r.push(Step::InitRepository);
    r.push(Step::AddRemote);
    r.push(Step::FetchRef);
    r.push(Step::CheckoutFetched);
    if entry.needs_pregeneration {
        r.push(Step::Pregenerate);
    }
    r.push(Step::RunOld);
    if entry.needs_pregeneration {
        r.push(Step::DeleteArtifact);
        r.push(Step::Regenerate);
    }
    r.push(Step::RunNew);
    proof {
        assert(r@ =~= plan_of(entry.needs_pregeneration));
    }
    r
}

/// Where the measured run with the new tool comes in the plan, and the definitions
/// file: with generation, the stale file is deleted after the old tool's run, then
/// generated again, and only then does the new tool run.
pub proof fn lemma_regeneration_order(needs_pregeneration: bool)
    ensures
        ({
            let p = plan_of(needs_pregeneration);
            needs_pregeneration ==> {
                &&& p[6] == Step::RunOld
                &&& p[7] == Step::DeleteArtifact
                &&& p[8] == Step::Regenerate
                &&& p[9] == Step::RunNew
                &&& p[5] == Step::Pregenerate
                &&& p.len() == 10
            }
        }),
        !needs_pregeneration ==> !plan_of(needs_pregeneration).contains(Step::Pregenerate)
            && !plan_of(needs_pregeneration).contains(Step::DeleteArtifact)
            && !plan_of(needs_pregeneration).contains(Step::Regenerate),
{
    if !needs_pregeneration {
        let p = plan_of(false);
        assert(forall|i: int| 0 <= i < p.len() ==> p[i] != Step::Pregenerate && p[i] != Step::DeleteArtifact && p[i] != Step::Regenerate);
    }
}

/// The program that a step runs.
#[derive(Debug, Clone, Copy, PartialEq, Eq, Structural)]
pub enum Program {
    Git,
    OldTool,
    NewTool,
}

/// What to do for one step, inside the entry's scratch directory.
#[derive(Debug)]
pub enum Action {
    /// Create the scratch directory, which must not exist yet.
    CreateDirectory,
    /// Delete the named file.
    DeleteFile(String),
    /// Run the program with these arguments.
    Run(Program, Vec<String>),
}

/// The file that the generation step writes.
pub const ARTIFACT: &'static str = "roblox.toml";

/// The flag that makes the tool run on one thread, so that its output comes in a
/// stable order.
pub const THREADS_FLAG: &'static str = "--num-threads";

pub open spec fn program_of(step: Step) -> Program {
    match step {
        Step::RunNew => Program::NewTool,
        Step::Pregenerate | Step::Regenerate | Step::RunOld => Program::OldTool,
        _ => Program::Git,
    }
}

pub open spec fn args_of(step: Step, entry: RepositoryDescriptor) -> Seq<Seq<char>> {
    match step {
        Step::InitRepository => seq!["init"@],
        Step::AddRemote => seq!["remote"@, "add"@, "origin"@, entry.location@],
        Step::FetchRef => seq!["fetch"@, "--depth"@, "1"@, "origin"@, entry.git_ref@],
        Step::CheckoutFetched => seq!["checkout"@, "FETCH_HEAD"@],
        Step::Pregenerate | Step::Regenerate => seq!["generate-roblox-std"@],
        Step::RunOld | Step::RunNew => views(entry.invocation_args@) + seq![THREADS_FLAG@, "1"@],
        _ => Seq::empty(),
    }
}

/// The text of each string, in order.
pub open spec fn views(v: Seq<String>) -> Seq<Seq<char>> {
    v.map_values(|s: String| s@)
}

/// Whether the action is the one that the step asks for on the entry.
pub open spec fn is_action_of(a: Action, step: Step, entry: RepositoryDescriptor) -> bool {
    match step {
        Step::CreateDirectory => a is CreateDirectory,
        Step::DeleteArtifact => a matches Action::DeleteFile(f) && f@ == ARTIFACT@,
        _ => a matches Action::Run(p, args) && p == program_of(step) && views(args@) == args_of(step, entry),
    }
}

fn string_list(items: &[&str]) -> (r: Vec<String>)
    ensures
        views(r@) == items@.map_values(|s: &str| s@),
{
    let mut r: Vec<String> = Vec::new();
    let mut i: usize = 0;
    while i < items.len()
        invariant
            i <= items@.len(),
            views(r@) == items@.subrange(0, i as int).map_values(|s: &str| s@),
        decreases items@.len() - i,
    {
        let ghost prev = r@;
        let item = String::from_str(items[i]);
        r.push(item);
        proof {
            assert(item@ == items@[i as int]@);
            assert(r@ == prev.push(item));
            assert(views(r@) =~= views(prev).push(item@));
            assert(items@.subrange(0, i + 1).map_values(|s: &str| s@) =~= items@.subrange(0, i as int).map_values(|s: &str| s@).push(items@[i as int]@));
        }
        i = i + 1;
    }
    proof {
        assert(items@.subrange(0, items@.len() as int) == items@);
    }
    r
}

/// The arguments of a measured run: the entry's own, then the single-thread flag.
pub fn tool_args(entry: &RepositoryDescriptor) -> (r: Vec<String>)
    ensures
        views(r@) == views(entry.invocation_args@) + seq![THREADS_FLAG@, "1"@],
{
    let mut r: Vec<String> = Vec::new();
    let mut i: usize = 0;
    while i < entry.invocation_args.len()
        invariant
            i <= entry.invocation_args@.len(),
            views(r@) == views(entry.invocation_args@).subrange(0, i as int),
        decreases entry.invocation_args@.len() - i,
    {
        let ghost prev = r@;
        let arg = entry.invocation_args[i].clone();
        r.push(arg);
        proof {
            assert(arg == entry.invocation_args@[i as int]);
            assert(views(r@) =~= views(prev).push(arg@));
            assert(views(r@) =~= views(entry.invocation_args@).subrange(0, i + 1));
        }
        i = i + 1;
    }
    proof {
        assert(views(entry.invocation_args@).subrange(0, i as int) =~= views(entry.invocation_args@));
    }
    let ghost before = views(r@);
    r.push(String::from_str(THREADS_FLAG));
    r.push(String::from_str("1"));
    proof {
        assert(views(r@) =~= before + seq![THREADS_FLAG@, "1"@]);
    }
    r
}

/// The action that carries out the step for the entry.
pub fn action_for(step: Step, entry: &RepositoryDescriptor) -> (r: Action)
    ensures
        is_action_of(r, step, *entry),
{
    match step {
        Step::CreateDirectory => Action::CreateDirectory,
        Step::DeleteArtifact => Action::DeleteFile(String::from_str(ARTIFACT)),
        Step::InitRepository => {
            let r = string_list(&["init"]);
            proof {
                assert(views(r@) =~= args_of(step, *entry));
            }
            Action::Run(Program::Git, r)
        },
        Step::AddRemote => {
            let mut r = string_list(&["remote", "add", "origin"]);
            let ghost prev = r@;
            let last = entry.location.clone();
            r.push(last);
            proof {
                assert(views(r@) =~= views(prev).push(last@));
                assert(views(r@) =~= args_of(step, *entry));
            }
            Action::Run(Program::Git, r)
        },
        Step::FetchRef => {
            let mut r = string_list(&["fetch", "--depth", "1", "origin"]);
            let ghost prev = r@;
            let last = entry.git_ref.clone();
            r.push(last);
            proof {
                assert(views(r@) =~= views(prev).push(last@));
                assert(views(r@) =~= args_of(step, *entry));
            }
            Action::Run(Program::Git, r)
        },
        Step::CheckoutFetched => {
            let r = string_list(&["checkout", "FETCH_HEAD"]);
            proof {
                assert(views(r@) =~= args_of(step, *entry));
            }
            Action::Run(Program::Git, r)
        },
        Step::Pregenerate | Step::Regenerate => {
            let r = string_list(&["generate-roblox-std"]);
            proof {
                assert(views(r@) =~= args_of(step, *entry));
            }
            Action::Run(Program::OldTool, r)
        },
        Step::RunOld => Action::Run(Program::OldTool, tool_args(entry)),
        Step::RunNew => Action::Run(Program::NewTool, tool_args(entry)),
    }
}

/// The kinds of failure that end a run.
#[derive(Debug, Clone, Copy, PartialEq, Eq, Structural)]
pub enum ErrorKind {
    DirectoryCreation,
    Fetch,
    ProcessSpawn,
    FileRemoval,
    Encoding,
}

/// How a step went: it could not be carried out, or it ran and exited, with success or not.
#[derive(Debug, Clone, Copy, PartialEq, Eq, Structural)]
pub enum Outcome {
    Failed,
    Exited(bool),
}

/// A failure, with the entry and the step at which it came.
#[derive(Debug)]
pub struct PipelineError {
    pub kind: ErrorKind,
    pub id: String,
    pub step: Step,
}

/// Steps of the source-control client, whose unsuccessful exit is a fetch failure.
pub open spec fn is_fetch_step(step: Step) -> bool {
    step == Step::InitRepository || step == Step::AddRemote || step == Step::FetchRef
        || step == Step::CheckoutFetched
}

pub open spec fn failure_kind(step: Step) -> ErrorKind {
    if step == Step::CreateDirectory {
        ErrorKind::DirectoryCreation
    } else if is_fetch_step(step) {
        ErrorKind::Fetch
    } else if step == Step::DeleteArtifact {
        ErrorKind::FileRemoval
    } else {
        ErrorKind::ProcessSpawn
    }
}

/// Whether the outcome of the step ends the run. The tool's own exit status is part of
/// its output, not a failure.
pub open spec fn fails(step: Step, outcome: Outcome) -> bool {
    outcome is Failed || (is_fetch_step(step) && outcome == Outcome::Exited(false))
}

/// Decides whether the step went well; where not, the error names the entry and the step.
pub fn check_outcome(id: &str, step: Step, outcome: Outcome) -> (r: Result<(), PipelineError>)
    ensures
        r is Err <==> fails(step, outcome),
        r matches Err(e) ==> e.kind == failure_kind(step) && e.id@ == id@ && e.step == step,
{
    let failed = match outcome {
        Outcome::Failed => true,
        Outcome::Exited(success) => !success && match step {
            Step::InitRepository | Step::AddRemote | Step::FetchRef | Step::CheckoutFetched => true,
            _ => false,
        },
    };
    if failed {
        let kind = match step {
            Step::CreateDirectory => ErrorKind::DirectoryCreation,
            Step::InitRepository | Step::AddRemote | Step::FetchRef | Step::CheckoutFetched => ErrorKind::Fetch,
            Step::DeleteArtifact => ErrorKind::FileRemoval,
            _ => ErrorKind::ProcessSpawn,
        };
        Err(PipelineError { kind, id: String::from_str(id), step })
    } else {
        Ok(())
    }
}

/// The error for a measured run whose output is not UTF-8 text.
pub fn encoding_error(id: &str, step: Step) -> (r: PipelineError)
    ensures
        r.kind == ErrorKind::Encoding,
        r.id@ == id@,
        r.step == step,
{
    PipelineError { kind: ErrorKind::Encoding, id: String::from_str(id), step }
}

/// What was being done when the error came.
pub open spec fn phase_text(kind: ErrorKind, step: Step) -> Seq<char> {
    if kind == ErrorKind::Encoding {
        if step == Step::RunOld {
            "parsing old selene's output as utf-8"@
        } else {
            "parsing new selene's output as utf-8"@
        }
    } else {
        match step {
            Step::CreateDirectory => "creating directory"@,
            Step::InitRepository => "initializing"@,
            Step::AddRemote => "setting up remotes"@,
            Step::FetchRef => "fetching origin"@,
            Step::CheckoutFetched => "checking out repository"@,
            Step::Pregenerate => "generating roblox std with old selene"@,
            Step::RunOld => "running old selene"@,
            Step::DeleteArtifact => "deleting old roblox.toml"@,
            Step::Regenerate => "regenerating roblox std with old selene"@,
            Step::RunNew => "running new selene"@,
        }
    }
}

fn phase(kind: ErrorKind, step: Step) -> (r: &'static str)
    ensures
        r@ == phase_text(kind, step),
{
    if kind == ErrorKind::Encoding {
        if step == Step::RunOld {
            "parsing old selene's output as utf-8"
        } else {
            "parsing new selene's output as utf-8"
        }
    } else {
        match step {
            Step::CreateDirectory => "creating directory",
            Step::InitRepository => "initializing",
            Step::AddRemote => "setting up remotes",
            Step::FetchRef => "fetching origin",
            Step::CheckoutFetched => "checking out repository",
            Step::Pregenerate => "generating roblox std with old selene",
            Step::RunOld => "running old selene",
            Step::DeleteArtifact => "deleting old roblox.toml",
            Step::Regenerate => "regenerating roblox std with old selene",
            Step::RunNew => "running new selene",
        }
    }
}

impl PipelineError {
    /// A description for the operator: the entry's id, then what was being done.
    pub fn message(&self) -> (r: String)
        ensures
            r@ == self.id@ + ": "@ + phase_text(self.kind, self.step),
    {
        let mut r = self.id.clone();
        r.append(": ");
        r.append(phase(self.kind, self.step));
        r
    }
}

} // verus!
