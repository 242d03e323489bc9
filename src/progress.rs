//! Progress of a run, counted over the steps of its jobs.
use vstd::prelude::*;

use crate::github::{completed_word, is_completed, JobStep, RunJob};

verus! {

/// Steps counted over a run's jobs: how many are done, out of how many.
/// The completion ratio is `complete / total`, read as zero when `total` is zero.
#[derive(Debug, Clone, Copy, PartialEq, Eq)]
pub struct ProgressResult {
    pub complete: u64,
    pub total: u64,
}

/// Number of steps in `steps` whose own status is the completed word.
pub open spec fn completed_in_steps(steps: Seq<JobStep>) -> nat
    decreases steps.len(),
{
    if steps.len() == 0 {
        0
    } else {
        completed_in_steps(steps.drop_last()) + if steps.last().status@ == completed_word() {
            1nat
        } else {
            0nat
        }
    }
}

/// Steps of one job that count as done: all of them once the job itself has
/// completed, else those that report completion one by one.
pub open spec fn job_completed_steps(job: RunJob) -> nat {
    if job.status@ == completed_word() {
        job.steps@.len()
    } else {
        completed_in_steps(job.steps@)
    }
}

/// Number of steps over all jobs.
pub open spec fn total_steps(jobs: Seq<RunJob>) -> nat
    decreases jobs.len(),
{
    if jobs.len() == 0 {
        0
    } else {
        total_steps(jobs.drop_last()) + jobs.last().steps@.len()
    }
}

/// Number of steps over all jobs that count as done.
pub open spec fn completed_steps(jobs: Seq<RunJob>) -> nat
    decreases jobs.len(),
{
    if jobs.len() == 0 {
        0
    } else {
        completed_steps(jobs.drop_last()) + job_completed_steps(jobs.last())
    }
}

/// The progress that a list of jobs shows.
pub open spec fn progress_of(jobs: Seq<RunJob>) -> ProgressResult {
    ProgressResult { complete: completed_steps(jobs) as u64, total: total_steps(jobs) as u64 }
}

proof fn lemma_completed_in_steps_bounded(steps: Seq<JobStep>)
    ensures
        completed_in_steps(steps) <= steps.len(),
    decreases steps.len(),
{
    if steps.len() > 0 {
        lemma_completed_in_steps_bounded(steps.drop_last());
    }
}

/// No more steps are done than there are.
pub proof fn lemma_completed_bounded(jobs: Seq<RunJob>)
    ensures
        completed_steps(jobs) <= total_steps(jobs),
    decreases jobs.len(),
{
    if jobs.len() > 0 {
        lemma_completed_bounded(jobs.drop_last());
        lemma_completed_in_steps_bounded(jobs.last().steps@);
    }
}

pub(crate) proof fn lemma_total_prefix(jobs: Seq<RunJob>, i: int)
    requires
        0 <= i <= jobs.len(),
    ensures
        total_steps(jobs.take(i)) <= total_steps(jobs),
    decreases jobs.len(),
{
    if i < jobs.len() {
        assert(jobs.drop_last().take(i) =~= jobs.take(i));
        lemma_total_prefix(jobs.drop_last(), i);
    } else {
        assert(jobs.take(i) =~= jobs);
    }
}

/// Counts the steps of `jobs` and those of them that are done. A job whose own
/// status is completed has all its steps counted as done, whatever they report.
pub fn calculate_progress(jobs: &[RunJob]) -> (r: ProgressResult)
    requires
        total_steps(jobs@) <= u64::MAX,
    ensures
        r.total == total_steps(jobs@),
        r.complete == completed_steps(jobs@),
        r.complete <= r.total,
{
    let mut n_steps_total: u64 = 0;
    let mut completed: u64 = 0;
    let mut i: usize = 0;
    while i < jobs.len()
        invariant
            i <= jobs@.len(),
            total_steps(jobs@) <= u64::MAX,
            n_steps_total == total_steps(jobs@.take(i as int)),
            completed == completed_steps(jobs@.take(i as int)),
            completed <= n_steps_total,
        decreases jobs@.len() - i,
    {
        let job = &jobs[i];
        proof {
            assert(jobs@.take(i + 1).drop_last() =~= jobs@.take(i as int));
            lemma_total_prefix(jobs@, i + 1);
            lemma_completed_in_steps_bounded(job.steps@);
        }
        let n_steps = job.steps.len() as u64;
        if is_completed(&job.status) {
            n_steps_total = n_steps_total + n_steps;
            completed = completed + n_steps;
        } else {
            let mut k: usize = 0;
            while k < job.steps.len()
                invariant
                    k <= job.steps@.len(),
                    n_steps_total == total_steps(jobs@.take(i as int)) + k,
                    total_steps(jobs@.take(i as int)) + job.steps@.len() <= u64::MAX,
                    completed == completed_steps(jobs@.take(i as int)) + completed_in_steps(
                        job.steps@.take(k as int),
                    ),
                    completed <= n_steps_total,
                decreases job.steps@.len() - k,
            {
                proof {
                    assert(job.steps@.take(k + 1).drop_last() =~= job.steps@.take(k as int));
                }
                n_steps_total = n_steps_total + 1;
                if is_completed(&job.steps[k].status) {
                    completed = completed + 1;
                }
                k = k + 1;
            }
            proof {
                assert(job.steps@.take(k as int) =~= job.steps@);
            }
        }
        i = i + 1;
    }
    proof {
        assert(jobs@.take(i as int) =~= jobs@);
    }
    ProgressResult { complete: completed, total: n_steps_total }
}

/// When every job has completed, every step counts as done: the ratio is one
/// whenever there is a step at all.
pub proof fn lemma_all_jobs_completed(jobs: Seq<RunJob>)
    requires
        forall|i: int| 0 <= i < jobs.len() ==> (#[trigger] jobs[i]).status@ == completed_word(),
    ensures
        completed_steps(jobs) == total_steps(jobs),
    decreases jobs.len(),
{
    if jobs.len() > 0 {
        let rest = jobs.drop_last();
        assert forall|i: int| 0 <= i < rest.len() implies (#[trigger] rest[i]).status@
            == completed_word() by {
            assert(rest[i] == jobs[i]);
        }
        lemma_all_jobs_completed(rest);
        assert(jobs.last() == jobs[jobs.len() - 1]);
    }
}

proof fn lemma_no_step_completed(steps: Seq<JobStep>)
    requires
        forall|k: int| 0 <= k < steps.len() ==> (#[trigger] steps[k]).status@ != completed_word(),
    ensures
        completed_in_steps(steps) == 0,
    decreases steps.len(),
{
    if steps.len() > 0 {
        let rest = steps.drop_last();
        assert forall|k: int| 0 <= k < rest.len() implies (#[trigger] rest[k]).status@
            != completed_word() by {
            assert(rest[k] == steps[k]);
        }
        lemma_no_step_completed(rest);
        assert(steps.last() == steps[steps.len() - 1]);
    }
}

/// When no job and no step has completed, no step counts as done: the ratio
/// is zero.
pub proof fn lemma_nothing_completed(jobs: Seq<RunJob>)
    requires
        forall|i: int| 0 <= i < jobs.len() ==> (#[trigger] jobs[i]).status@ != completed_word(),
        forall|i: int, k: int|
            0 <= i < jobs.len() && 0 <= k < jobs[i].steps@.len() ==> (
            #[trigger] jobs[i].steps@[k]).status@ != completed_word(),
    ensures
        completed_steps(jobs) == 0,
    decreases jobs.len(),
{
    if jobs.len() > 0 {
        let rest = jobs.drop_last();
        assert forall|i: int| 0 <= i < rest.len() implies (#[trigger] rest[i]).status@
            != completed_word() by {
            assert(rest[i] == jobs[i]);
        }
        assert forall|i: int, k: int|
            0 <= i < rest.len() && 0 <= k < rest[i].steps@.len() implies (
            #[trigger] rest[i].steps@[k]).status@ != completed_word() by {
            assert(rest[i] == jobs[i]);
        }
        lemma_nothing_completed(rest);
        let last = jobs[jobs.len() - 1];
        assert(jobs.last() == last);
        assert forall|k: int| 0 <= k < last.steps@.len() implies (
        #[trigger] last.steps@[k]).status@ != completed_word() by {
            assert(jobs[jobs.len() - 1].steps@[k] == last.steps@[k]);
        }
        lemma_no_step_completed(last.steps@);
    }
}

} // verus!
