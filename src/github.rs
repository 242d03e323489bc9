//! Records returned by the repository API, as plain values.
use vstd::prelude::*;

verus! {

#[derive(Debug)]
pub struct Commit {
    pub id: String,
    pub message: String,
    pub timestamp: String,
}

/// The source side of a pull request.
#[derive(Debug)]
pub struct Head {
    pub branch: String,
}

#[derive(Debug)]
pub struct GetPullRequestResponse {
    pub title: String,
    pub head: Head,
    /// The pull request body, absent when the author left it empty.
    pub description: Option<String>,
    pub url: String,
}

/// One workflow defined in a repository.
#[derive(Debug)]
pub struct WorkflowDetails {
    pub id: u64,
    pub name: String,
    pub filename: String,
}

impl Clone for WorkflowDetails {
    fn clone(&self) -> (r: Self)
        ensures
            r == *self,
    {
        WorkflowDetails { id: self.id, name: self.name.clone(), filename: self.filename.clone() }
    }
}

#[derive(Debug)]
pub struct GetWorkflowsResponse {
    pub workflows: Vec<WorkflowDetails>,
}

/// One execution of a workflow.
#[derive(Debug)]
pub struct WorkflowRun {
    pub id: u64,
    pub name: String,
    pub status: String,
    pub conclusion: Option<String>,
    pub display_title: String,
    pub run_attempt: u64,
    pub run_number: u64,
    pub run_started_at: String,
    pub head_commit: Commit,
    pub url: String,
}

#[derive(Debug)]
pub struct GetWorkflowRunsResponse {
    pub workflow_runs: Vec<WorkflowRun>,
}

/// Query of a workflow-runs request: the runs of one branch.
#[derive(Debug)]
pub struct GetWorkflowRunsQueryArgs {
    pub branch: String,
}

#[derive(Debug)]
pub struct JobStep {
    pub name: String,
    pub status: String,
    pub conclusion: Option<String>,
    pub started_at: Option<String>,
    pub completed_at: Option<String>,
}

#[derive(Debug)]
pub struct RunJob {
    pub id: u64,
    pub name: String,
    pub status: String,
    pub conclusion: Option<String>,
    pub started_at: String,
    pub completed_at: Option<String>,
    pub steps: Vec<JobStep>,
}

#[derive(Debug)]
pub struct GetRunJobsResponse {
    pub jobs: Vec<RunJob>,
}

/// The status word that the API gives a finished run, job or step.
pub open spec fn completed_word() -> Seq<char> {
    "completed"@
}

/// Whether the text of `s` is `word`.
pub fn text_is(s: &String, word: &str) -> (r: bool)
    ensures
        r == (s@ == word@),
{
    *s == word.to_owned()
}

/// Whether `s` is the status word of a finished run, job or step.
pub fn is_completed(s: &String) -> (r: bool)
    ensures
        r == (s@ == completed_word()),
{
    text_is(s, "completed")
}

} // verus!
