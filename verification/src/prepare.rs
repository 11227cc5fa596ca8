//! Where the programs under test live and where their logs go.

use vstd::prelude::*;
use vstd::string::*;
use crate::path::{clone_path, ComponentView, PathComponent};
use crate::runner::{case_name, CaseKind};

verus! {

/// A program under test.
#[derive(Clone, Copy, Debug, PartialEq, Eq)]
pub enum Program {
    Server,
    Client,
}

pub open spec fn program_name(p: Program) -> Seq<char> {
    match p {
        Program::Server => "server"@,
        Program::Client => "client"@,
    }
}

/// `base` followed by the ordinary names `names`.
pub open spec fn below(base: Seq<ComponentView>, names: Seq<Seq<char>>) -> Seq<ComponentView> {
    base + names.map_values(|n: Seq<char>| ComponentView::Normal(n))
}

fn join_name(base: &Vec<PathComponent>, name: String) -> (r: Vec<PathComponent>)
    ensures
        r.deep_view() == base.deep_view().push(ComponentView::Normal(name@)),
{
    let mut r = clone_path(base);
    let ghost b = r.deep_view();
    r.push(PathComponent::Normal(name));
    assert(r.deep_view() =~= b.push(ComponentView::Normal(name@)));
    r
}

fn text(s: &str) -> (r: String)
    ensures
        r@ == s@,
{
    String::from_str(s)
}

impl Program {
    /// `server` or `client`.
    pub fn name(self) -> (r: &'static str)
        ensures
            r@ == program_name(self),
    {
        match self {
            Program::Server => "server",
            Program::Client => "client",
        }
    }

    /// The directory the program runs in: `test/<name>_test` below the
    /// project directory.
    pub fn executable_dir(self, project: &Vec<PathComponent>) -> (r: Vec<PathComponent>)
        ensures
            r.deep_view() == below(project.deep_view(), seq!["test"@, program_name(self) + "_test"@]),
    {
        let mut dir_name = text(self.name());
        dir_name.append("_test");
        let r = join_name(&join_name(project, text("test")), dir_name);
        assert(r.deep_view() =~= below(project.deep_view(), seq!["test"@, program_name(self) + "_test"@]));
        r
    }

    /// The program itself: `<name>.exe` in its directory.
    pub fn executable(self, project: &Vec<PathComponent>) -> (r: Vec<PathComponent>)
        ensures
            r.deep_view() == below(project.deep_view(), seq!["test"@, program_name(self) + "_test"@, program_name(self) + ".exe"@]),
    {
        let mut file = text(self.name());
        file.append(".exe");
        let r = join_name(&self.executable_dir(project), file);
        assert(r.deep_view() =~= below(project.deep_view(), seq!["test"@, program_name(self) + "_test"@, program_name(self) + ".exe"@]));
        r
    }

    /// Where the program's output goes: `<name>.log` in the log directory.
    pub fn log_file(self, log_dir: &Vec<PathComponent>) -> (r: Vec<PathComponent>)
        ensures
            r.deep_view() == below(log_dir.deep_view(), seq![program_name(self) + ".log"@]),
    {
        let mut file = text(self.name());
        file.append(".log");
        let r = join_name(log_dir, file);
        assert(r.deep_view() =~= below(log_dir.deep_view(), seq![program_name(self) + ".log"@]));
        r
    }
}

/// The directory of one run's logs: `logs/<case>/<run_id>` below the
/// project directory.
pub fn log_dir(project: &Vec<PathComponent>, case: CaseKind, run_id: &str) -> (r: Vec<PathComponent>)
    ensures
        r.deep_view() == below(project.deep_view(), seq!["logs"@, case_name(case), run_id@]),
{
    let r = join_name(&join_name(&join_name(project, text("logs")), text(case.name())), text(run_id));
    assert(r.deep_view() =~= below(project.deep_view(), seq!["logs"@, case_name(case), run_id@]));
    r
}

/// What to do about the log directory before a run.
#[derive(Clone, Copy, Debug, PartialEq, Eq)]
pub enum LogDirStep {
    /// It is there: use it.
    Use,
    /// It is missing: create it with its parents.
    Create,
    /// Something that is not a directory is in the way.
    NotADirectory,
}

/// Decides about the log directory from whether its path exists and is a
/// directory.
pub fn prepare_log_dir(exists: bool, is_dir: bool) -> (r: LogDirStep)
    ensures
        exists && !is_dir ==> r is NotADirectory,
        !exists ==> r is Create,
        exists && is_dir ==> r is Use,
{
    if exists && !is_dir {
        LogDirStep::NotADirectory
    } else if !exists {
        LogDirStep::Create
    } else {
        LogDirStep::Use
    }
}

/// What the caller of a start-up does next.
pub enum StartAction {
    /// Start this program; report with `on_started`.
    Start(Program),
    /// Stop the server, which was started but has no client; report with
    /// `on_stopped`.
    StopServer,
    /// Start-up is over: `true` when both programs run.
    Done(bool),
}

pub enum StartPhase {
    Server,
    Client,
    Stopping,
    Finished,
}

/// Starting the programs: the server first, then the client; a server whose
/// client cannot be started is stopped, so that a failed start-up leaves no
/// program running.
pub struct Startup {
    pub phase: StartPhase,
}

impl Startup {
    /// Begins a start-up; the first action starts the server.
    pub fn start() -> (r: (Startup, StartAction))
        ensures
            r.0.phase is Server,
            r.1 matches StartAction::Start(p) && p is Server,
    {
        (Startup { phase: StartPhase::Server }, StartAction::Start(Program::Server))
    }

    /// Takes whether the program last named was started.
    pub fn on_started(&mut self, started: bool) -> (a: StartAction)
        requires
            old(self).phase is Server || old(self).phase is Client,
        ensures
            old(self).phase is Server && started ==> final(self).phase is Client && (a matches StartAction::Start(p) && p is Client),
            old(self).phase is Server && !started ==> final(self).phase is Finished && a matches StartAction::Done(false),
            old(self).phase is Client && started ==> final(self).phase is Finished && a matches StartAction::Done(true),
            old(self).phase is Client && !started ==> final(self).phase is Stopping && a is StopServer,
    {
        match self.phase {
            StartPhase::Server => if started {
                self.phase = StartPhase::Client;
                StartAction::Start(Program::Client)
            } else {
                self.phase = StartPhase::Finished;
                StartAction::Done(false)
            },
            _ => if started {
                self.phase = StartPhase::Finished;
                StartAction::Done(true)
            } else {
                self.phase = StartPhase::Stopping;
                StartAction::StopServer
            },
        }
    }

    /// The server has been stopped, or stopping it failed: either way the
    /// start-up has failed.
    pub fn on_stopped(&mut self) -> (a: StartAction)
        requires
            old(self).phase is Stopping,
        ensures
            final(self).phase is Finished,
            a matches StartAction::Done(false),
    {
        self.phase = StartPhase::Finished;
        StartAction::Done(false)
    }
}

/// Where one program is, and where its output goes.
pub struct ProgramPlan {
    pub program: Program,
    pub dir: Vec<PathComponent>,
    pub executable: Vec<PathComponent>,
    pub log: Vec<PathComponent>,
}

/// `plan` places `program` below `project`, with its log in `log_dir`.
pub open spec fn places(plan: ProgramPlan, program: Program, project: Seq<ComponentView>, log_dir: Seq<ComponentView>) -> bool {
    &&& plan.program == program
    &&& plan.dir.deep_view() == below(project, seq!["test"@, program_name(program) + "_test"@])
    &&& plan.executable.deep_view() == below(project, seq!["test"@, program_name(program) + "_test"@, program_name(program) + ".exe"@])
    &&& plan.log.deep_view() == below(log_dir, seq![program_name(program) + ".log"@])
}

fn plan_program(program: Program, project: &Vec<PathComponent>, log_dir: &Vec<PathComponent>) -> (r: ProgramPlan)
    ensures
        places(r, program, project.deep_view(), log_dir.deep_view()),
{
    ProgramPlan {
        program,
        dir: program.executable_dir(project),
        executable: program.executable(project),
        log: program.log_file(log_dir),
    }
}

/// Prepares a run's programs below `project`, with their output in
/// `log_dir`: where the server and the client are and where their logs go,
/// and the start-up that starts the server, then the client, stopping the
/// server if the client cannot start.
pub fn prepare(project: &Vec<PathComponent>, log_dir: &Vec<PathComponent>) -> (r: (ProgramPlan, ProgramPlan, Startup, StartAction))
    ensures
        places(r.0, Program::Server, project.deep_view(), log_dir.deep_view()),
        places(r.1, Program::Client, project.deep_view(), log_dir.deep_view()),
        r.2.phase is Server,
        r.3 matches StartAction::Start(p) && p is Server,
{
    let server = plan_program(Program::Server, project, log_dir);
    let client = plan_program(Program::Client, project, log_dir);
    let (startup, action) = Startup::start();
    (server, client, startup, action)
}

} // verus!
