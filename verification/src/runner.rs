//! Which cases run, in which order, and how their outcomes decide the
//! runner's result.

use vstd::prelude::*;
use crate::supervise::ProcessOutcome;

verus! {

/// How long, in seconds, the two programs of a run may take together.
pub const PROCESS_TIMEOUT_SECS: u64 = 10;

/// A named integration test case.
#[derive(Clone, Copy, Debug, PartialEq, Eq, Structural)]
pub enum CaseKind {
    Default,
    JustDemo,
    EmptyFile,
    MultipleFiles,
    BinaryFile,
    LongFilename,
    DirectoryTransfer,
    Comprehensive,
}

/// The fixed order in which cases run.
pub open spec fn case_order() -> Seq<CaseKind> {
    seq![
        CaseKind::Default,
        CaseKind::JustDemo,
        CaseKind::EmptyFile,
        CaseKind::MultipleFiles,
        CaseKind::BinaryFile,
        CaseKind::LongFilename,
        CaseKind::DirectoryTransfer,
        CaseKind::Comprehensive,
    ]
}

pub open spec fn case_name(kind: CaseKind) -> Seq<char> {
    match kind {
        CaseKind::Default => "default"@,
        CaseKind::JustDemo => "just_demo"@,
        CaseKind::EmptyFile => "empty_file"@,
        CaseKind::MultipleFiles => "multiple_files"@,
        CaseKind::BinaryFile => "binary_file"@,
        CaseKind::LongFilename => "long_filename"@,
        CaseKind::DirectoryTransfer => "directory_transfer"@,
        CaseKind::Comprehensive => "comprehensive"@,
    }
}

impl CaseKind {
    /// The case's name, used for its sandbox, its logs and on the command line.
    pub fn name(self) -> (r: &'static str)
        ensures
            r@ == case_name(self),
    {
        match self {
            CaseKind::Default => "default",
            CaseKind::JustDemo => "just_demo",
            CaseKind::EmptyFile => "empty_file",
            CaseKind::MultipleFiles => "multiple_files",
            CaseKind::BinaryFile => "binary_file",
            CaseKind::LongFilename => "long_filename",
            CaseKind::DirectoryTransfer => "directory_transfer",
            CaseKind::Comprehensive => "comprehensive",
        }
    }

    /// Whether a failure of this case is expected and does not fail the
    /// run: directory transfer is not supported yet.
    pub fn expected_to_fail(self) -> (r: bool)
        ensures
            r == (self is DirectoryTransfer),
    {
        matches!(self, CaseKind::DirectoryTransfer)
    }

    /// Whether the case keeps what its sandbox holds (the default case,
    /// whose inputs the developer provides) rather than starting afresh.
    pub fn keeps_sandbox(self) -> (r: bool)
        ensures
            r == (self is Default),
    {
        matches!(self, CaseKind::Default)
    }
}

/// All cases, in running order.
pub fn all_cases() -> (r: Vec<CaseKind>)
    ensures
        r@ == case_order(),
{
    let r = vec![
        CaseKind::Default,
        CaseKind::JustDemo,
        CaseKind::EmptyFile,
        CaseKind::MultipleFiles,
        CaseKind::BinaryFile,
        CaseKind::LongFilename,
        CaseKind::DirectoryTransfer,
        CaseKind::Comprehensive,
    ];
    assert(r@ =~= case_order());
    r
}

pub open spec fn requested_in(requested: Seq<CaseKind>) -> spec_fn(CaseKind) -> bool {
    |k: CaseKind| requested.contains(k)
}

/// The cases to run: all of them when none is named, else those named, in
/// the fixed order and each once, however often and in whatever order they
/// were named.
pub fn select_cases(requested: &Vec<CaseKind>) -> (r: Vec<CaseKind>)
    ensures
        requested@.len() == 0 ==> r@ == case_order(),
        requested@.len() > 0 ==> r@ == case_order().filter(requested_in(requested@)),
        requested@.len() > 0 ==> forall|k: CaseKind| r@.contains(k) <==> requested@.contains(k),
{
    proof {
        if requested@.len() > 0 {
            assert forall|k: CaseKind| case_order().filter(requested_in(requested@)).contains(k) <==> requested@.contains(k) by {
                lemma_selection_is_exactly_the_named(requested@, k);
            }
        }
    }
    let order = all_cases();
    if requested.len() == 0 {
        return order;
    }
    let ghost keep = requested_in(requested@);
    let mut chosen: Vec<CaseKind> = Vec::new();
    let n = order.len();
    let mut i: usize = 0;
    assert(order@.take(0).filter(keep) =~= Seq::<CaseKind>::empty()) by {
        reveal_with_fuel(Seq::<_>::filter, 1);
    }
    while i < n
        invariant
            n == order@.len(),
            order@ == case_order(),
            keep == requested_in(requested@),
            i <= n,
            chosen@ == order@.take(i as int).filter(keep),
        decreases n - i,
    {
        let kind = order[i];
        let mut named = false;
        let m = requested.len();
        let mut j: usize = 0;
        while j < m
            invariant
                m == requested@.len(),
                j <= m,
                named <==> exists|t: int| 0 <= t < j && requested@[t] == kind,
            decreases m - j,
        {
            if requested[j] == kind {
                named = true;
            }
            j = j + 1;
        }
        assert(named <==> requested@.contains(kind));
        assert(order@.take(i + 1).drop_last() =~= order@.take(i as int));
        assert(order@.take(i + 1).last() == kind);
        proof {
            reveal_with_fuel(Seq::<_>::filter, 1);
        }
        if named {
            chosen.push(kind);
        }
        i = i + 1;
    }
    assert(order@.take(n as int) =~= order@);
    chosen
}

/// When cases are named, exactly the named cases are selected: a case is
/// among those selected if and only if it was named, and no case that was
/// not named (the default case included) runs.
pub proof fn lemma_selection_is_exactly_the_named(requested: Seq<CaseKind>, k: CaseKind)
    requires
        requested.len() > 0,
    ensures
        case_order().filter(requested_in(requested)).contains(k) <==> requested.contains(k),
{
    let order = case_order();
    let keep = requested_in(requested);
    if order.filter(keep).contains(k) {
        let i = choose|i: int| 0 <= i < order.filter(keep).len() && order.filter(keep)[i] == k;
        order.lemma_filter_pred(keep, i);
    }
    if requested.contains(k) {
        let i: int = match k {
            CaseKind::Default => 0,
            CaseKind::JustDemo => 1,
            CaseKind::EmptyFile => 2,
            CaseKind::MultipleFiles => 3,
            CaseKind::BinaryFile => 4,
            CaseKind::LongFilename => 5,
            CaseKind::DirectoryTransfer => 6,
            CaseKind::Comprehensive => 7,
        };
        assert(order[i] == k);
        order.lemma_filter_contains(keep, i);
    }
}

/// When no case is named every case runs, each exactly once.
pub proof fn lemma_every_case_runs_once(k: CaseKind)
    ensures
        case_order().contains(k),
        forall|i: int, j: int| 0 <= i < j < case_order().len() ==> case_order()[i] != case_order()[j],
{
    let i: int = match k {
        CaseKind::Default => 0,
        CaseKind::JustDemo => 1,
        CaseKind::EmptyFile => 2,
        CaseKind::MultipleFiles => 3,
        CaseKind::BinaryFile => 4,
        CaseKind::LongFilename => 5,
        CaseKind::DirectoryTransfer => 6,
        CaseKind::Comprehensive => 7,
    };
    assert(case_order()[i] == k);
}

/// Naming cases in another order, or naming one twice, selects the same
/// cases in the same order: only which cases are named matters.
pub proof fn lemma_selection_ignores_request_order(a: Seq<CaseKind>, b: Seq<CaseKind>)
    requires
        forall|k: CaseKind| a.contains(k) <==> b.contains(k),
    ensures
        case_order().filter(requested_in(a)) == case_order().filter(requested_in(b)),
{
    assert(requested_in(a) =~= requested_in(b));
}

/// Whether, once the client has been waited for, the server is waited for
/// too: only after a client that exited successfully. Otherwise the server
/// is stopped.
pub fn waits_for_server(client: &Result<ProcessOutcome, std::io::Error>) -> (r: bool)
    ensures
        r == (*client matches Ok(ProcessOutcome::Exited(e)) && e.success),
{
    match client {
        Ok(outcome) => outcome.success(),
        Err(_) => false,
    }
}

/// Both processes exited successfully before the deadline; `server` is
/// `None` where the server was stopped without being waited for.
pub fn processes_succeeded(client: &Result<ProcessOutcome, std::io::Error>, server: &Option<Result<ProcessOutcome, std::io::Error>>) -> (r: bool)
    ensures
        r == ((*client matches Ok(ProcessOutcome::Exited(e)) && e.success)
            && (*server matches Some(Ok(ProcessOutcome::Exited(e))) && e.success)),
{
    let client_ok = match client {
        Ok(outcome) => outcome.success(),
        Err(_) => false,
    };
    let server_ok = match server {
        Some(Ok(outcome)) => outcome.success(),
        _ => false,
    };
    client_ok && server_ok
}

/// The runner succeeds when every case that ran passed, except those whose
/// failure is expected.
pub fn run_succeeded(results: &Vec<(CaseKind, bool)>) -> (r: bool)
    ensures
        r == forall|i: int| 0 <= i < results@.len() ==> #[trigger] results@[i].1 || results@[i].0 is DirectoryTransfer,
{
    let n = results.len();
    let mut i: usize = 0;
    while i < n
        invariant
            n == results@.len(),
            i <= n,
            forall|j: int| 0 <= j < i ==> #[trigger] results@[j].1 || results@[j].0 is DirectoryTransfer,
        decreases n - i,
    {
        let (kind, passed) = results[i];
        if !passed && !kind.expected_to_fail() {
            return false;
        }
        i = i + 1;
    }
    true
}


/// The stage at which a case failed.
#[derive(Clone, Copy, Debug, PartialEq, Eq)]
pub enum CaseStage {
    /// Its fixture could not be put in place.
    Prepare,
    /// Its run directories could not be made.
    CreateRun,
    /// The programs could not be started.
    StartProcesses,
    /// A program failed, or outlasted the deadline.
    Processes,
    /// The server lacks entries of the client.
    Containment,
    /// One of the case's own checks failed.
    Checks,
}

impl CaseStage {
    /// Whether a failure at this stage is reported with the programs' logs:
    /// it is once the programs have run, not before.
    pub fn shows_process_logs(self) -> (r: bool)
        ensures
            r <==> (self is Processes || self is Containment || self is Checks),
    {
        match self {
            CaseStage::Processes | CaseStage::Containment | CaseStage::Checks => true,
            _ => false,
        }
    }
}

/// How a case ended.
#[derive(Clone, Copy, Debug, PartialEq, Eq)]
pub enum CaseVerdict {
    Passed,
    Failed(CaseStage),
}

/// What the caller of a case run does next.
pub enum CaseStep {
    /// Put the case's fixture in its sandbox; report with `on_result`.
    Prepare,
    /// Make the run directories; report with `on_result`.
    CreateRun,
    /// Start the server, then the client; report with `on_result`.
    StartProcesses,
    /// Wait for the client until the deadline; report with `on_client`.
    WatchClient,
    /// Wait for the server until the deadline; report with `on_server`.
    WatchServer,
    /// Stop the server; report with `on_server_stopped`.
    StopServer,
    /// Check that the server holds every client entry; report with `on_result`.
    VerifyContainment,
    /// Run the case's own checks; report with `on_result`.
    RunChecks,
    /// Remove what the case asks to remove; report with `on_result`.
    Clean,
    /// The case is over.
    Done(CaseVerdict),
}

#[derive(Clone, Copy, Debug, PartialEq, Eq)]
pub enum CasePhase {
    Prepare,
    CreateRun,
    StartProcesses,
    WatchClient,
    WatchServer,
    StopServer,
    Containment,
    Checks,
    Clean,
    Finished,
}

/// One run of a case: fixture, run directories, the two programs, the
/// checks, and the clean-up, stopping at the first failure.
pub struct CaseRun {
    pub phase: CasePhase,
    /// Whether the client exited successfully before the deadline.
    pub client_ok: Ghost<bool>,
    /// Whether the server exited successfully before the deadline.
    pub server_ok: Ghost<bool>,
    /// Whether the containment check passed.
    pub contained: Ghost<bool>,
    /// Whether the case's own checks passed.
    pub checked: Ghost<bool>,
}

impl CaseRun {
    /// What a phase says of the steps behind it.
    pub open spec fn wf(&self) -> bool {
        &&& (self.phase is WatchServer || self.phase is StopServer) ==> (self.client_ok@ <==> self.phase is WatchServer)
        &&& (self.phase is Containment || self.phase is Checks || self.phase is Clean) ==> self.client_ok@ && self.server_ok@
        &&& (self.phase is Checks || self.phase is Clean) ==> self.contained@
        &&& self.phase is Clean ==> self.checked@
    }

    /// Both programs succeeded and every check passed.
    pub open spec fn all_succeeded(&self) -> bool {
        self.client_ok@ && self.server_ok@ && self.contained@ && self.checked@
    }

    /// Begins with the fixture.
    pub fn start() -> (r: (CaseRun, CaseStep))
        ensures
            r.0.wf(),
            r.0.phase is Prepare,
            r.1 is Prepare,
            !r.0.client_ok@ && !r.0.server_ok@ && !r.0.contained@ && !r.0.checked@,
    {
        (CaseRun { phase: CasePhase::Prepare, client_ok: Ghost(false), server_ok: Ghost(false), contained: Ghost(false), checked: Ghost(false) }, CaseStep::Prepare)
    }

    /// Takes whether the current step succeeded; a failure ends the case,
    /// naming the stage. The case passes once its clean-up has been tried.
    pub fn on_result(self, ok: bool) -> (r: (CaseRun, CaseStep))
        requires
            self.wf(),
            self.phase is Prepare || self.phase is CreateRun || self.phase is StartProcesses
                || self.phase is Containment || self.phase is Checks || self.phase is Clean,
        ensures
            r.0.wf(),
            r.1 matches CaseStep::Done(CaseVerdict::Passed) ==> r.0.all_succeeded(),
            match self.phase {
                CasePhase::Prepare => if ok { r.0.phase is CreateRun && r.1 is CreateRun } else { r.1 == CaseStep::Done(CaseVerdict::Failed(CaseStage::Prepare)) },
                CasePhase::CreateRun => if ok { r.0.phase is StartProcesses && r.1 is StartProcesses } else { r.1 == CaseStep::Done(CaseVerdict::Failed(CaseStage::CreateRun)) },
                CasePhase::StartProcesses => if ok { r.0.phase is WatchClient && r.1 is WatchClient } else { r.1 == CaseStep::Done(CaseVerdict::Failed(CaseStage::StartProcesses)) },
                CasePhase::Containment => if ok { r.0.phase is Checks && r.1 is RunChecks } else { r.1 == CaseStep::Done(CaseVerdict::Failed(CaseStage::Containment)) },
                CasePhase::Checks => if ok { r.0.phase is Clean && r.1 is Clean } else { r.1 == CaseStep::Done(CaseVerdict::Failed(CaseStage::Checks)) },
                _ => r.1 == CaseStep::Done(CaseVerdict::Passed),
            },
    {
        let mut next = self;
        let phase = next.phase;
        match phase {
            CasePhase::Prepare => {
                if !ok {
                    next.phase = CasePhase::Finished;
                    return (next, CaseStep::Done(CaseVerdict::Failed(CaseStage::Prepare)));
                }
                next.phase = CasePhase::CreateRun;
                (next, CaseStep::CreateRun)
            },
            CasePhase::CreateRun => {
                if !ok {
                    next.phase = CasePhase::Finished;
                    return (next, CaseStep::Done(CaseVerdict::Failed(CaseStage::CreateRun)));
                }
                next.phase = CasePhase::StartProcesses;
                (next, CaseStep::StartProcesses)
            },
            CasePhase::StartProcesses => {
                if !ok {
                    next.phase = CasePhase::Finished;
                    return (next, CaseStep::Done(CaseVerdict::Failed(CaseStage::StartProcesses)));
                }
                next.phase = CasePhase::WatchClient;
                (next, CaseStep::WatchClient)
            },
            CasePhase::Containment => {
                if !ok {
                    next.phase = CasePhase::Finished;
                    return (next, CaseStep::Done(CaseVerdict::Failed(CaseStage::Containment)));
                }
                next.contained = Ghost(true);
                next.phase = CasePhase::Checks;
                (next, CaseStep::RunChecks)
            },
            CasePhase::Checks => {
                if !ok {
                    next.phase = CasePhase::Finished;
                    return (next, CaseStep::Done(CaseVerdict::Failed(CaseStage::Checks)));
                }
                next.checked = Ghost(true);
                next.phase = CasePhase::Clean;
                (next, CaseStep::Clean)
            },
            _ => {
                next.phase = CasePhase::Finished;
                (next, CaseStep::Done(CaseVerdict::Passed))
            },
        }
    }

    /// Takes how the client ended: after a success the server is waited
    /// for, else it is stopped and the case fails.
    pub fn on_client(self, client: &Result<ProcessOutcome, std::io::Error>) -> (r: (CaseRun, CaseStep))
        requires
            self.wf(),
            self.phase is WatchClient,
        ensures
            r.0.wf(),
            r.0.client_ok@ == (*client matches Ok(ProcessOutcome::Exited(e)) && e.success),
            r.0.client_ok@ ==> r.0.phase is WatchServer && r.1 is WatchServer,
            !r.0.client_ok@ ==> r.0.phase is StopServer && r.1 is StopServer,
    {
        let mut next = self;
        let ok = waits_for_server(client);
        next.client_ok = Ghost(ok);
        if ok {
            next.phase = CasePhase::WatchServer;
            (next, CaseStep::WatchServer)
        } else {
            next.phase = CasePhase::StopServer;
            (next, CaseStep::StopServer)
        }
    }

    /// Takes how the server ended: after a success the entries are checked,
    /// else the case fails.
    pub fn on_server(self, server: &Result<ProcessOutcome, std::io::Error>) -> (r: (CaseRun, CaseStep))
        requires
            self.wf(),
            self.phase is WatchServer,
        ensures
            r.0.wf(),
            r.0.server_ok@ == (*server matches Ok(ProcessOutcome::Exited(e)) && e.success),
            r.0.server_ok@ ==> r.0.phase is Containment && r.1 is VerifyContainment,
            !r.0.server_ok@ ==> r.1 == CaseStep::Done(CaseVerdict::Failed(CaseStage::Processes)),
    {
        let mut next = self;
        let ok = match server {
            Ok(outcome) => outcome.success(),
            Err(_) => false,
        };
        next.server_ok = Ghost(ok);
        if ok {
            next.phase = CasePhase::Containment;
            (next, CaseStep::VerifyContainment)
        } else {
            next.phase = CasePhase::Finished;
            (next, CaseStep::Done(CaseVerdict::Failed(CaseStage::Processes)))
        }
    }

    /// After the server was stopped because the client failed, the case fails.
    pub fn on_server_stopped(self) -> (r: (CaseRun, CaseStep))
        requires
            self.wf(),
            self.phase is StopServer,
        ensures
            r.0.wf(),
            r.1 == CaseStep::Done(CaseVerdict::Failed(CaseStage::Processes)),
    {
        let mut next = self;
        next.phase = CasePhase::Finished;
        (next, CaseStep::Done(CaseVerdict::Failed(CaseStage::Processes)))
    }
}

} // verus!
