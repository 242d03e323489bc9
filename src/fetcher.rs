//! The status snapshot of one pull request, and the sequence of lookups that
//! produces it: pull request, then the runs of its branch, then (for a run in
//! progress) the run's jobs.
use vstd::prelude::*;

use crate::github::{
    text_is, GetPullRequestResponse, GetRunJobsResponse, GetWorkflowRunsQueryArgs,
    GetWorkflowRunsResponse, RunJob, WorkflowRun,
};
use crate::progress::{
    calculate_progress, lemma_completed_bounded, progress_of, total_steps, ProgressResult,
};

verus! {

/// Where a run stands.
#[derive(Debug, Clone, Copy, PartialEq, Eq)]
pub enum Status {
    Queued,
    InProgress(ProgressResult),
    Succeeded,
    Failed,
}

/// The status snapshot of one pull request at one tick.
#[derive(Debug)]
pub struct Pr {
    pub owner: String,
    pub repo: String,
    pub number: u64,
    pub status: Status,
    pub title: String,
    pub description: String,
    pub num_steps: u64,
    pub num_complete_steps: u64,
    pub pr_url: String,
    pub run_url: String,
}

/// Why no snapshot could be made of a pull request.
#[derive(Debug)]
pub enum FetchError {
    /// The branch of the pull request has no run of the workflow.
    NoRuns,
    /// A completed run whose conclusion is neither failure nor success.
    UnhandledConclusion(Option<String>),
    /// A run status outside the known set.
    UnhandledStatus(String),
    /// The jobs of the run hold more steps than a `u64` counts.
    TooManySteps,
    /// A request failed, or its answer could not be decoded.
    Transport(String),
}

/// The pull request to look up, and the workflow whose runs decide its status.
#[derive(Debug)]
pub struct FetchTarget {
    pub owner: String,
    pub repo: String,
    pub workflow_id: u64,
    pub number: u64,
}

/// `i` is the run with the highest run number; among runs that share it, the
/// one that comes last.
pub open spec fn is_latest_run(runs: Seq<WorkflowRun>, i: int) -> bool {
    &&& 0 <= i < runs.len()
    &&& forall|j: int| 0 <= j < runs.len() ==> (#[trigger] runs[j]).run_number <= runs[i].run_number
    &&& forall|j: int| i < j < runs.len() ==> (#[trigger] runs[j]).run_number < runs[i].run_number
}

/// At most one run is the latest.
pub proof fn lemma_latest_run_unique(runs: Seq<WorkflowRun>, i: int, k: int)
    requires
        is_latest_run(runs, i),
        is_latest_run(runs, k),
    ensures
        i == k,
{
    if i < k {
        assert(runs[k].run_number < runs[i].run_number);
        assert(runs[k].run_number <= runs[i].run_number);
        assert(runs[i].run_number <= runs[k].run_number);
    } else if k < i {
        assert(runs[i].run_number < runs[k].run_number);
        assert(runs[k].run_number <= runs[i].run_number);
    }
}

/// The position of the latest run, or `None` when there is no run.
pub fn latest_run(runs: &Vec<WorkflowRun>) -> (r: Option<usize>)
    ensures
        r is None <==> runs@.len() == 0,
        r matches Some(i) ==> is_latest_run(runs@, i as int),
{
    if runs.len() == 0 {
        return None;
    }
    let mut best: usize = 0;
    let mut i: usize = 1;
    while i < runs.len()
        invariant
            1 <= i <= runs@.len(),
            is_latest_run(runs@.take(i as int), best as int),
        decreases runs@.len() - i,
    {
        let ghost prefix = runs@.take(i + 1);
        assert(prefix[i as int] == runs@[i as int]);
        assert forall|j: int| 0 <= j < i implies prefix[j] == runs@.take(i as int)[j] by {}
        if runs[i].run_number >= runs[best].run_number {
            best = i;
        }
        i = i + 1;
    }
    assert(runs@.take(i as int) =~= runs@);
    Some(best)
}

/// The status that a run's status and conclusion give, per the fixed table;
/// every other combination is an error that names what was seen.
pub open spec fn status_of_run(
    status: String,
    conclusion: Option<String>,
    progress: ProgressResult,
) -> Result<Status, FetchError> {
    if status@ == "completed"@ {
        match conclusion {
            Some(c) => if c@ == "failure"@ {
                Ok(Status::Failed)
            } else if c@ == "success"@ {
                Ok(Status::Succeeded)
            } else {
                Err(FetchError::UnhandledConclusion(conclusion))
            },
            None => Err(FetchError::UnhandledConclusion(conclusion)),
        }
    } else if status@ == "queued"@ || status@ == "pending"@ {
        Ok(Status::Queued)
    } else if status@ == "in_progress"@ {
        Ok(Status::InProgress(progress))
    } else {
        Err(FetchError::UnhandledStatus(status))
    }
}

/// Maps a run's status and conclusion to the status of its pull request.
pub fn run_status(
    status: String,
    conclusion: Option<String>,
    progress: ProgressResult,
) -> (r: Result<Status, FetchError>)
    ensures
        r == status_of_run(status, conclusion, progress),
{
    if text_is(&status, "completed") {
        match conclusion {
            Some(c) => {
                if text_is(&c, "failure") {
                    Ok(Status::Failed)
                } else if text_is(&c, "success") {
                    Ok(Status::Succeeded)
                } else {
                    Err(FetchError::UnhandledConclusion(Some(c)))
                }
            },
            None => Err(FetchError::UnhandledConclusion(None)),
        }
    } else if text_is(&status, "queued") || text_is(&status, "pending") {
        Ok(Status::Queued)
    } else if text_is(&status, "in_progress") {
        Ok(Status::InProgress(progress))
    } else {
        Err(FetchError::UnhandledStatus(status))
    }
}

/// `conclusion` is present and reads `word`.
pub open spec fn conclusion_is(conclusion: Option<String>, word: Seq<char>) -> bool {
    conclusion matches Some(c) && c@ == word
}

/// The status table is exhaustive: a completed run that failed or succeeded
/// maps to `Failed` or `Succeeded`, a queued or pending run to `Queued`, a
/// run in progress to `InProgress` with its progress, and every other pair of
/// status and conclusion to an error, never to a default status.
pub proof fn lemma_status_table(
    status: String,
    conclusion: Option<String>,
    progress: ProgressResult,
)
    ensures
        status@ == "completed"@ && conclusion_is(conclusion, "failure"@) ==> status_of_run(
            status,
            conclusion,
            progress,
        ) == Ok::<Status, FetchError>(Status::Failed),
        status@ == "completed"@ && conclusion_is(conclusion, "success"@) ==> status_of_run(
            status,
            conclusion,
            progress,
        ) == Ok::<Status, FetchError>(Status::Succeeded),
        status@ == "queued"@ ==> status_of_run(status, conclusion, progress) == Ok::<
            Status,
            FetchError,
        >(Status::Queued),
        status@ == "pending"@ ==> status_of_run(status, conclusion, progress) == Ok::<
            Status,
            FetchError,
        >(Status::Queued),
        status@ == "in_progress"@ ==> status_of_run(status, conclusion, progress) == Ok::<
            Status,
            FetchError,
        >(Status::InProgress(progress)),
        !(status@ == "completed"@ && conclusion_is(conclusion, "failure"@)) && !(status@
            == "completed"@ && conclusion_is(conclusion, "success"@)) && status@ != "queued"@
            && status@ != "pending"@ && status@ != "in_progress"@ ==> status_of_run(
            status,
            conclusion,
            progress,
        ) is Err,
{
    reveal_strlit("completed");
    reveal_strlit("queued");
    reveal_strlit("pending");
    reveal_strlit("in_progress");
    reveal_strlit("failure");
    reveal_strlit("success");
    assert("completed"@.len() == 9);
    assert("queued"@.len() == 6);
    assert("pending"@.len() == 7);
    assert("in_progress"@.len() == 11);
    assert("failure"@[0] == 'f');
    assert("success"@[0] == 's');
}

/// The text of a pull request's description, empty when there is none.
pub open spec fn description_text(d: Option<String>) -> Seq<char> {
    match d {
        Some(s) => s@,
        None => Seq::empty(),
    }
}

/// `pr` is the snapshot of `target` made from its pull request `info`, its
/// latest `run`, the `progress` of that run and the `status` it maps to.
pub open spec fn is_snapshot(
    pr: Pr,
    target: FetchTarget,
    info: GetPullRequestResponse,
    run: WorkflowRun,
    progress: ProgressResult,
    status: Status,
) -> bool {
    &&& pr.owner == target.owner
    &&& pr.repo == target.repo
    &&& pr.number == target.number
    &&& pr.status == status
    &&& pr.title == info.title
    &&& pr.description@ == description_text(info.description)
    &&& pr.num_steps == progress.total
    &&& pr.num_complete_steps == progress.complete
    &&& pr.pr_url == info.url
    &&& pr.run_url == run.url
}

/// What a lookup ends with once the run and its progress are known.
pub open spec fn finishes_with(
    r: Result<Pr, FetchError>,
    target: FetchTarget,
    info: GetPullRequestResponse,
    run: WorkflowRun,
    progress: ProgressResult,
) -> bool {
    match status_of_run(run.status, run.conclusion, progress) {
        Ok(status) => r matches Ok(pr) && is_snapshot(pr, target, info, run, progress, status),
        Err(e) => r == Err::<Pr, FetchError>(e),
    }
}

/// Builds the snapshot of `target` from what the lookups returned.
pub fn snapshot(
    target: FetchTarget,
    info: GetPullRequestResponse,
    run: WorkflowRun,
    progress: ProgressResult,
) -> (r: Result<Pr, FetchError>)
    ensures
        finishes_with(r, target, info, run, progress),
{
    let WorkflowRun { status, conclusion, url, .. } = run;
    match run_status(status, conclusion, progress) {
        Ok(status) => {
            let description = match info.description {
                Some(d) => d,
                None => String::new(),
            };
            let FetchTarget { owner, repo, number, .. } = target;
            Ok(
                Pr {
                    owner,
                    repo,
                    number,
                    status,
                    title: info.title,
                    description,
                    num_steps: progress.total,
                    num_complete_steps: progress.complete,
                    pr_url: info.url,
                    run_url: url,
                },
            )
        },
        Err(e) => Err(e),
    }
}

/// The number of steps over `jobs`, or `None` where it does not fit in a `u64`.
pub fn count_steps(jobs: &[RunJob]) -> (r: Option<u64>)
    ensures
        r == (if total_steps(jobs@) <= u64::MAX {
            Some(total_steps(jobs@) as u64)
        } else {
            None
        }),
{
    let mut n: u64 = 0;
    let mut i: usize = 0;
    while i < jobs.len()
        invariant
            i <= jobs@.len(),
            n == total_steps(jobs@.take(i as int)),
        decreases jobs@.len() - i,
    {
        assert(jobs@.take(i + 1).drop_last() =~= jobs@.take(i as int));
        match n.checked_add(jobs[i].steps.len() as u64) {
            Some(m) => {
                n = m;
            },
            None => {
                proof {
                    crate::progress::lemma_total_prefix(jobs@, i + 1);
                }
                return None;
            },
        }
        i = i + 1;
    }
    assert(jobs@.take(i as int) =~= jobs@);
    Some(n)
}

/// The lookups still to come for one pull request, with what earlier ones gave.
#[derive(Debug)]
pub enum FetchStage {
    AwaitingPullRequest,
    AwaitingRuns { info: GetPullRequestResponse },
    AwaitingJobs { info: GetPullRequestResponse, run: WorkflowRun },
}

/// The lookup of one pull request's status, between two requests.
#[derive(Debug)]
pub struct FetchSession {
    pub target: FetchTarget,
    pub stage: FetchStage,
}

/// The next request to make for a session.
#[derive(Debug)]
pub enum FetchRequest {
    /// The pull request itself.
    PullRequest,
    /// The runs of the workflow on one branch.
    WorkflowRuns(GetWorkflowRunsQueryArgs),
    /// The jobs of one run.
    RunJobs(u64),
}

/// An answer to a request.
#[derive(Debug)]
pub enum FetchReply {
    PullRequest(GetPullRequestResponse),
    WorkflowRuns(GetWorkflowRunsResponse),
    RunJobs(GetRunJobsResponse),
}

/// What a session does after an answer: make another request, or end.
#[derive(Debug)]
pub enum FetchStep {
    Request(FetchSession, FetchRequest),
    Done(Result<Pr, FetchError>),
}

/// `reply` answers the request that a session in `stage` waits for.
pub open spec fn answers(stage: FetchStage, reply: FetchReply) -> bool {
    match stage {
        FetchStage::AwaitingPullRequest => reply is PullRequest,
        FetchStage::AwaitingRuns { .. } => reply is WorkflowRuns,
        FetchStage::AwaitingJobs { .. } => reply is RunJobs,
    }
}

/// What a session that has the pull request and its latest run does next: a
/// run in progress needs its jobs; any other is decided with no step counted.
pub open spec fn after_latest_run(
    step: FetchStep,
    target: FetchTarget,
    info: GetPullRequestResponse,
    run: WorkflowRun,
) -> bool {
    if run.status@ == "in_progress"@ {
        step == FetchStep::Request(
            FetchSession { target, stage: FetchStage::AwaitingJobs { info, run } },
            FetchRequest::RunJobs(run.id),
        )
    } else {
        step matches FetchStep::Done(r) && finishes_with(
            r,
            target,
            info,
            run,
            ProgressResult { complete: 0, total: 0 },
        )
    }
}

impl FetchSession {
    /// Opens the lookup of `target`, which starts with its pull request.
    pub fn start(target: FetchTarget) -> (r: (FetchSession, FetchRequest))
        ensures
            r.0 == (FetchSession { target, stage: FetchStage::AwaitingPullRequest }),
            r.1 is PullRequest,
    {
        (FetchSession { target, stage: FetchStage::AwaitingPullRequest }, FetchRequest::PullRequest)
    }

    /// Whether `reply` answers the request that this session waits for.
    pub fn accepts(&self, reply: &FetchReply) -> (r: bool)
        ensures
            r == answers(self.stage, *reply),
    {
        match (&self.stage, reply) {
            (FetchStage::AwaitingPullRequest, FetchReply::PullRequest(_)) => true,
            (FetchStage::AwaitingRuns { .. }, FetchReply::WorkflowRuns(_)) => true,
            (FetchStage::AwaitingJobs { .. }, FetchReply::RunJobs(_)) => true,
            _ => false,
        }
    }

    /// Takes the answer to the pending request and says what comes next.
    pub fn advance(self, reply: FetchReply) -> (r: FetchStep)
        requires
            answers(self.stage, reply),
        ensures
            match (self.stage, reply) {
                (FetchStage::AwaitingPullRequest, FetchReply::PullRequest(info)) => r
                    == FetchStep::Request(
                    FetchSession { target: self.target, stage: FetchStage::AwaitingRuns { info } },
                    FetchRequest::WorkflowRuns(GetWorkflowRunsQueryArgs { branch: info.head.branch }),
                ),
                (FetchStage::AwaitingRuns { info }, FetchReply::WorkflowRuns(found)) => {
                    &&& (r == FetchStep::Done(Err(FetchError::NoRuns))) <==> found.workflow_runs@.len() == 0
                    &&& found.workflow_runs@.len() > 0 ==> exists|i: int|
                        is_latest_run(found.workflow_runs@, i) && after_latest_run(
                            r,
                            self.target,
                            info,
                            #[trigger] found.workflow_runs@[i],
                        )
                },
                (FetchStage::AwaitingJobs { info, run }, FetchReply::RunJobs(found)) => if total_steps(
                    found.jobs@,
                ) <= u64::MAX {
                    r matches FetchStep::Done(res) && finishes_with(
                        res,
                        self.target,
                        info,
                        run,
                        progress_of(found.jobs@),
                    )
                } else {
                    r == FetchStep::Done(Err(FetchError::TooManySteps))
                },
                _ => false,
            },
    {
        let FetchSession { target, stage } = self;
        match (stage, reply) {
            (FetchStage::AwaitingPullRequest, FetchReply::PullRequest(info)) => {
                let branch = info.head.branch.clone();
                FetchStep::Request(
                    FetchSession { target, stage: FetchStage::AwaitingRuns { info } },
                    FetchRequest::WorkflowRuns(GetWorkflowRunsQueryArgs { branch }),
                )
            },
            (FetchStage::AwaitingRuns { info }, FetchReply::WorkflowRuns(found)) => {
                let mut runs = found.workflow_runs;
                let ghost all = runs@;
                match latest_run(&runs) {
                    None => FetchStep::Done(Err(FetchError::NoRuns)),
                    Some(i) => {
                        let run = runs.remove(i);
                        assert(run == all[i as int]);
                        if text_is(&run.status, "in_progress") {
                            let id = run.id;
                            FetchStep::Request(
                                FetchSession { target, stage: FetchStage::AwaitingJobs { info, run } },
                                FetchRequest::RunJobs(id),
                            )
                        } else {
                            FetchStep::Done(
                                snapshot(target, info, run, ProgressResult { complete: 0, total: 0 }),
                            )
                        }
                    },
                }
            },
            (FetchStage::AwaitingJobs { info, run }, FetchReply::RunJobs(found)) => {
                match count_steps(found.jobs.as_slice()) {
                    None => FetchStep::Done(Err(FetchError::TooManySteps)),
                    Some(_) => {
                        proof {
                            lemma_completed_bounded(found.jobs@);
                        }
                        let progress = calculate_progress(found.jobs.as_slice());
                        FetchStep::Done(snapshot(target, info, run, progress))
                    },
                }
            },
            // `answers` rules out every other pairing.
            _ => FetchStep::Done(Err(FetchError::NoRuns)),
        }
    }
}

} // verus!
