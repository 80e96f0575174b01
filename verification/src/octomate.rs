//! The batch hierarchy and its execution engine.
//!
//! A [`Batch`] owns jobs, a [`Job`] owns steps and target repositories, a
//! [`Step`] owns commands. Execution threads an immutable [`Context`] down
//! through the hierarchy and fans work out at every level; the result tree
//! mirrors the shape of the input document, preserving declaration order at
//! every level regardless of how the embedding program schedules the calls.

use vstd::prelude::*;

use crate::command::{
    command_calls, command_results, outcomes_view, requests_view, Command, CommandView, Outcome,
    OutcomeView, RemoteRequest, RemoteRequestView,
};

verus! {

// ---------------------------------------------------------------------------
// The data model
// ---------------------------------------------------------------------------

/// A single target repository, identified by owner and name. A value type
/// with no identity beyond its fields.
#[derive(Debug, PartialEq, Eq)]
pub struct Repository {
    pub owner: String,
    pub name: String,
}

/// A named ordered group of commands within a job.
#[derive(Debug, PartialEq, Eq)]
pub struct Step {
    pub name: Option<String>,
    pub runs: Vec<Command>,
}

/// A named grouping of steps scoped to a set of target repositories. A job
/// with zero targets still runs its steps, but their targeted commands then
/// perform zero remote calls.
#[derive(Debug, PartialEq, Eq)]
pub struct Job {
    pub name: Option<String>,
    pub on_repositories: Vec<Repository>,
    pub steps: Vec<Step>,
}

/// The root declarative document: metadata plus an ordered sequence of
/// jobs. Immutable once built; never mutated by a run.
#[derive(Debug, PartialEq, Eq)]
pub struct Batch {
    pub version: String,
    pub name: Option<String>,
    pub jobs: Vec<Job>,
}

// ---------------------------------------------------------------------------
// Mathematical abstractions
// ---------------------------------------------------------------------------

pub ghost struct RepositoryView {
    pub owner: Seq<char>,
    pub name: Seq<char>,
}

pub ghost struct StepView {
    pub name: Option<Seq<char>>,
    pub runs: Seq<CommandView>,
}

pub ghost struct JobView {
    pub name: Option<Seq<char>>,
    pub on_repositories: Seq<RepositoryView>,
    pub steps: Seq<StepView>,
}

pub ghost struct BatchView {
    pub version: Seq<char>,
    pub name: Option<Seq<char>>,
    pub jobs: Seq<JobView>,
}

impl View for Repository {
    type V = RepositoryView;

    open spec fn view(&self) -> RepositoryView {
        RepositoryView { owner: self.owner@, name: self.name@ }
    }
}

impl View for Step {
    type V = StepView;

    open spec fn view(&self) -> StepView {
        StepView {
            name: self.name.deep_view(),
            runs: Seq::new(self.runs@.len(), |i: int| self.runs@[i]@),
        }
    }
}

impl View for Job {
    type V = JobView;

    open spec fn view(&self) -> JobView {
        JobView {
            name: self.name.deep_view(),
            on_repositories: Seq::new(self.on_repositories@.len(), |i: int| self.on_repositories@[i]@),
            steps: Seq::new(self.steps@.len(), |i: int| self.steps@[i]@),
        }
    }
}

impl View for Batch {
    type V = BatchView;

    open spec fn view(&self) -> BatchView {
        BatchView {
            version: self.version@,
            name: self.name.deep_view(),
            jobs: Seq::new(self.jobs@.len(), |i: int| self.jobs@[i]@),
        }
    }
}

// ---------------------------------------------------------------------------
// Context: the read-only ancestry view of a running unit
// ---------------------------------------------------------------------------

/// The immutable, chained view a running unit holds of its ancestry: the
/// enclosing batch, and the enclosing job and step once execution has
/// entered them. Every nesting level is produced by taking the parent
/// context and replacing exactly one field, never by mutating the parent,
/// so concurrent siblings never observe each other's context.
#[derive(Clone, Copy)]
pub struct Context<'a> {
    pub batch: &'a Batch,
    pub job: Option<&'a Job>,
    pub step: Option<&'a Step>,
}

pub ghost struct ContextView {
    pub batch: BatchView,
    pub job: Option<JobView>,
    pub step: Option<StepView>,
}

impl<'a> View for Context<'a> {
    type V = ContextView;

    open spec fn view(&self) -> ContextView {
        ContextView {
            batch: self.batch@,
            job: match self.job {
                Some(j) => Some(j@),
                None => None,
            },
            step: match self.step {
                Some(s) => Some(s@),
                None => None,
            },
        }
    }
}

impl<'a> Context<'a> {
    /// A fresh context. Construction cannot fail.
    pub fn new(batch: &'a Batch, job: Option<&'a Job>, step: Option<&'a Step>) -> (ctx: Self)
        ensures
            ctx@.batch == batch@,
            ctx@.job == match job {
                Some(j) => Some(j@),
                None => None::<JobView>,
            },
            ctx@.step == match step {
                Some(s) => Some(s@),
                None => None::<StepView>,
            },
    {
        Context { batch, job, step }
    }

    /// The context seen below the given job: the same batch and step, with
    /// the job field replaced. The receiver is left untouched.
    pub fn update_from_job(&self, job: &'a Job) -> (ctx: Self)
        ensures
            ctx@.batch == self@.batch,
            ctx@.job == Some(job@),
            ctx@.step == self@.step,
    {
        Context { batch: self.batch, job: Some(job), step: self.step }
    }

    /// The context seen below the given step: the same batch and job, with
    /// the step field replaced. The receiver is left untouched.
    pub fn update_from_step(&self, step: &'a Step) -> (ctx: Self)
        ensures
            ctx@.batch == self@.batch,
            ctx@.job == self@.job,
            ctx@.step == Some(step@),
    {
        Context { batch: self.batch, job: self.job, step: Some(step) }
    }
}

// ---------------------------------------------------------------------------
// The calls and results of whole steps, jobs and batches
// ---------------------------------------------------------------------------

/// The remote calls of a step's commands under the given enclosing job,
/// concatenated in declaration order.
pub open spec fn runs_calls(runs: Seq<CommandView>, job: Option<JobView>) -> Seq<
    RemoteRequestView,
>
    decreases runs.len(),
{
    if runs.len() == 0 {
        Seq::empty()
    } else {
        runs_calls(runs.drop_last(), job) + command_calls(runs.last(), job)
    }
}

/// The results of a step's commands, one sequence per command in
/// declaration order, given the outcomes of exactly the step's calls.
pub open spec fn runs_results(
    runs: Seq<CommandView>,
    job: Option<JobView>,
    outs: Seq<OutcomeView>,
) -> Seq<Seq<OutcomeView>>
    decreases runs.len(),
{
    if runs.len() == 0 {
        Seq::empty()
    } else {
        let split = runs_calls(runs.drop_last(), job).len() as int;
        runs_results(runs.drop_last(), job, outs.take(split)).push(
            command_results(runs.last(), job, outs.skip(split)),
        )
    }
}

/// The remote calls of a job's steps under that job, concatenated in
/// declaration order.
pub open spec fn steps_calls(steps: Seq<StepView>, job: JobView) -> Seq<RemoteRequestView>
    decreases steps.len(),
{
    if steps.len() == 0 {
        Seq::empty()
    } else {
        steps_calls(steps.drop_last(), job) + runs_calls(steps.last().runs, Some(job))
    }
}

/// The results of a job's steps, one nested sequence per step in
/// declaration order, given the outcomes of exactly the job's calls.
pub open spec fn steps_results(
    steps: Seq<StepView>,
    job: JobView,
    outs: Seq<OutcomeView>,
) -> Seq<Seq<Seq<OutcomeView>>>
    decreases steps.len(),
{
    if steps.len() == 0 {
        Seq::empty()
    } else {
        let split = steps_calls(steps.drop_last(), job).len() as int;
        steps_results(steps.drop_last(), job, outs.take(split)).push(
            runs_results(steps.last().runs, Some(job), outs.skip(split)),
        )
    }
}

/// The remote calls of a sequence of jobs, concatenated in declaration
/// order.
pub open spec fn jobs_calls(jobs: Seq<JobView>) -> Seq<RemoteRequestView>
    decreases jobs.len(),
{
    if jobs.len() == 0 {
        Seq::empty()
    } else {
        jobs_calls(jobs.drop_last()) + steps_calls(jobs.last().steps, jobs.last())
    }
}

/// The results of a sequence of jobs, one nested sequence per job in
/// declaration order, given the outcomes of exactly their calls.
pub open spec fn jobs_results(jobs: Seq<JobView>, outs: Seq<OutcomeView>) -> Seq<
    Seq<Seq<Seq<OutcomeView>>>,
>
    decreases jobs.len(),
{
    if jobs.len() == 0 {
        Seq::empty()
    } else {
        let split = jobs_calls(jobs.drop_last()).len() as int;
        jobs_results(jobs.drop_last(), outs.take(split)).push(
            steps_results(jobs.last().steps, jobs.last(), outs.skip(split)),
        )
    }
}

/// Every remote call a whole batch performs, in declaration order: jobs
/// outermost, then steps, commands and targets.
pub open spec fn batch_calls(b: BatchView) -> Seq<RemoteRequestView> {
    jobs_calls(b.jobs)
}

/// The whole result tree of a batch, given the outcomes of exactly its
/// calls, in declaration order.
pub open spec fn batch_results(b: BatchView, outs: Seq<OutcomeView>) -> Seq<
    Seq<Seq<Seq<OutcomeView>>>,
> {
    jobs_results(b.jobs, outs)
}

// ---------------------------------------------------------------------------
// Result containers and their views
// ---------------------------------------------------------------------------

/// The results of one step: one sequence of outcomes per command.
pub type StepResult = Vec<Vec<Outcome>>;

/// The results of a whole batch: one element per job, each with one
/// element per step.
pub type BatchResult = Vec<Vec<StepResult>>;

pub open spec fn step_result_view(v: Seq<Vec<Outcome>>) -> Seq<Seq<OutcomeView>> {
    Seq::new(v.len(), |i: int| outcomes_view(v[i]@))
}

pub open spec fn job_result_view(v: Seq<StepResult>) -> Seq<Seq<Seq<OutcomeView>>> {
    Seq::new(v.len(), |i: int| step_result_view(v[i]@))
}

pub open spec fn batch_result_view(v: Seq<Vec<StepResult>>) -> Seq<Seq<Seq<Seq<OutcomeView>>>> {
    Seq::new(v.len(), |i: int| job_result_view(v[i]@))
}

// ---------------------------------------------------------------------------
// Prefixes of the call plan
// ---------------------------------------------------------------------------

/// Extending a prefix of a step's commands by one command appends exactly
/// that command's calls.
pub proof fn lemma_runs_calls_take_succ(runs: Seq<CommandView>, job: Option<JobView>, i: int)
    requires
        0 <= i < runs.len(),
    ensures
        runs_calls(runs.take(i + 1), job) == runs_calls(runs.take(i), job) + command_calls(
            runs[i],
            job,
        ),
{
    assert(runs.take(i + 1).drop_last() =~= runs.take(i));
    assert(runs.take(i + 1).last() == runs[i]);
}

/// A prefix of a step's commands plans no more calls than the whole step.
pub proof fn lemma_runs_calls_take_len(runs: Seq<CommandView>, job: Option<JobView>, i: int)
    requires
        0 <= i <= runs.len(),
    ensures
        runs_calls(runs.take(i), job).len() <= runs_calls(runs, job).len(),
    decreases runs.len(),
{
    if i == runs.len() {
        assert(runs.take(i) =~= runs);
    } else {
        assert(runs.drop_last().take(i) =~= runs.take(i));
        lemma_runs_calls_take_len(runs.drop_last(), job, i);
    }
}

/// Extending a prefix of a job's steps by one step appends exactly that
/// step's calls.
pub proof fn lemma_steps_calls_take_succ(steps: Seq<StepView>, job: JobView, i: int)
    requires
        0 <= i < steps.len(),
    ensures
        steps_calls(steps.take(i + 1), job) == steps_calls(steps.take(i), job) + runs_calls(
            steps[i].runs,
            Some(job),
        ),
{
    assert(steps.take(i + 1).drop_last() =~= steps.take(i));
    assert(steps.take(i + 1).last() == steps[i]);
}

/// A prefix of a job's steps plans no more calls than the whole job.
pub proof fn lemma_steps_calls_take_len(steps: Seq<StepView>, job: JobView, i: int)
    requires
        0 <= i <= steps.len(),
    ensures
        steps_calls(steps.take(i), job).len() <= steps_calls(steps, job).len(),
    decreases steps.len(),
{
    if i == steps.len() {
        assert(steps.take(i) =~= steps);
    } else {
        assert(steps.drop_last().take(i) =~= steps.take(i));
        lemma_steps_calls_take_len(steps.drop_last(), job, i);
    }
}

/// Extending a prefix of a batch's jobs by one job appends exactly that
/// job's calls.
pub proof fn lemma_jobs_calls_take_succ(jobs: Seq<JobView>, i: int)
    requires
        0 <= i < jobs.len(),
    ensures
        jobs_calls(jobs.take(i + 1)) == jobs_calls(jobs.take(i)) + steps_calls(
            jobs[i].steps,
            jobs[i],
        ),
{
    assert(jobs.take(i + 1).drop_last() =~= jobs.take(i));
    assert(jobs.take(i + 1).last() == jobs[i]);
}

/// A prefix of a batch's jobs plans no more calls than the whole batch.
pub proof fn lemma_jobs_calls_take_len(jobs: Seq<JobView>, i: int)
    requires
        0 <= i <= jobs.len(),
    ensures
        jobs_calls(jobs.take(i)).len() <= jobs_calls(jobs).len(),
    decreases jobs.len(),
{
    if i == jobs.len() {
        assert(jobs.take(i) =~= jobs);
    } else {
        assert(jobs.drop_last().take(i) =~= jobs.take(i));
        lemma_jobs_calls_take_len(jobs.drop_last(), i);
    }
}

// ---------------------------------------------------------------------------
// Executing steps, jobs and batches
// ---------------------------------------------------------------------------

impl Step {
    /// Appends the remote calls of this step's commands to `out`, in
    /// declaration order, under a context extended with this step.
    #[verifier::loop_isolation(false)]
    pub fn plan(&self, ctx: &Context, out: &mut Vec<RemoteRequest>)
        ensures
            requests_view(final(out)@) == requests_view(old(out)@) + runs_calls(
                self@.runs,
                ctx@.job,
            ),
    {
        let ctx2 = ctx.update_from_step(self);
        let ghost job = ctx@.job;
        let ghost runsv = self@.runs;
        proof {
            assert(runsv.take(0) =~= Seq::<CommandView>::empty());
            assert(requests_view(out@) =~= requests_view(out@) + runs_calls(runsv.take(0), job));
        }
        let mut r: usize = 0;
        while r < self.runs.len()
            invariant
                r <= runsv.len(),
                requests_view(out@) == requests_view(old(out)@) + runs_calls(
                    runsv.take(r as int),
                    job,
                ),
            decreases runsv.len() - r,
        {
            self.runs[r].plan(&ctx2, out);
            proof {
                lemma_runs_calls_take_succ(runsv, job, r as int);
                assert(requests_view(out@) =~= requests_view(old(out)@) + runs_calls(
                    runsv.take(r as int + 1),
                    job,
                ));
            }
            r = r + 1;
        }
        proof {
            assert(runsv.take(runsv.len() as int) =~= runsv);
        }
    }

    /// Collects the results of this step's commands from the outcomes of
    /// their planned calls, which stand at the front of `pending`: one
    /// sequence of outcomes per command, in declaration order.
    #[verifier::loop_isolation(false)]
    pub fn run(&self, ctx: &Context, pending: &mut Vec<Outcome>) -> (res: StepResult)
        requires
            runs_calls(self@.runs, ctx@.job).len() <= old(pending)@.len(),
        ensures
            final(pending)@ == old(pending)@.skip(runs_calls(self@.runs, ctx@.job).len() as int),
            step_result_view(res@) == runs_results(
                self@.runs,
                ctx@.job,
                outcomes_view(
                    old(pending)@.take(runs_calls(self@.runs, ctx@.job).len() as int),
                ),
            ),
    {
        let ctx2 = ctx.update_from_step(self);
        let ghost job = ctx@.job;
        let ghost runsv = self@.runs;
        let ghost outs0 = old(pending)@;
        let mut res: StepResult = Vec::new();
        proof {
            assert(runsv.take(0) =~= Seq::<CommandView>::empty());
            assert(outs0.skip(0) =~= outs0);
            assert(step_result_view(res@) =~= runs_results(
                runsv.take(0),
                job,
                outcomes_view(outs0.take(0)),
            ));
        }
        let mut r: usize = 0;
        while r < self.runs.len()
            invariant
                r <= runsv.len(),
                pending@ == outs0.skip(runs_calls(runsv.take(r as int), job).len() as int),
                step_result_view(res@) == runs_results(
                    runsv.take(r as int),
                    job,
                    outcomes_view(outs0.take(runs_calls(runsv.take(r as int), job).len() as int)),
                ),
            decreases runsv.len() - r,
        {
            let ghost k = runs_calls(runsv.take(r as int), job).len() as int;
            let ghost c = command_calls(runsv[r as int], job).len() as int;
            proof {
                lemma_runs_calls_take_succ(runsv, job, r as int);
                lemma_runs_calls_take_len(runsv, job, r as int + 1);
            }
            let cr = self.runs[r].run(&ctx2, pending);
            let ghost resb = res@;
            res.push(cr);
            proof {
                assert(res@ == resb.push(cr));
                assert(outs0.skip(k).skip(c) =~= outs0.skip(k + c));
                let full = outcomes_view(outs0.take(k + c));
                assert(full.take(k) =~= outcomes_view(outs0.take(k)));
                assert(full.skip(k) =~= outcomes_view(outs0.skip(k).take(c)));
                assert(runsv.take(r as int + 1).drop_last() =~= runsv.take(r as int));
                assert(runsv.take(r as int + 1).last() == runsv[r as int]);
                assert(runs_results(runsv.take(r as int + 1), job, full) == runs_results(
                    runsv.take(r as int),
                    job,
                    full.take(k),
                ).push(command_results(runsv[r as int], job, full.skip(k))));
                assert(step_result_view(res@) =~= step_result_view(resb).push(
                    outcomes_view(cr@),
                ));
                assert(step_result_view(res@) =~= runs_results(
                    runsv.take(r as int + 1),
                    job,
                    full,
                ));
            }
            r = r + 1;
        }
        proof {
            assert(runsv.take(runsv.len() as int) =~= runsv);
        }
        res
    }
}

impl Job {
    /// Appends the remote calls of this job's steps to `out`, in
    /// declaration order, under a context extended with this job.
    #[verifier::loop_isolation(false)]
    pub fn plan(&self, ctx: &Context, out: &mut Vec<RemoteRequest>)
        ensures
            requests_view(final(out)@) == requests_view(old(out)@) + steps_calls(
                self@.steps,
                self@,
            ),
    {
        let ctx2 = ctx.update_from_job(self);
        let ghost jv = self@;
        let ghost stepsv = self@.steps;
        proof {
            assert(stepsv.take(0) =~= Seq::<StepView>::empty());
            assert(requests_view(out@) =~= requests_view(out@) + steps_calls(stepsv.take(0), jv));
        }
        let mut s: usize = 0;
        while s < self.steps.len()
            invariant
                s <= stepsv.len(),
                requests_view(out@) == requests_view(old(out)@) + steps_calls(
                    stepsv.take(s as int),
                    jv,
                ),
            decreases stepsv.len() - s,
        {
            self.steps[s].plan(&ctx2, out);
            proof {
                lemma_steps_calls_take_succ(stepsv, jv, s as int);
                assert(requests_view(out@) =~= requests_view(old(out)@) + steps_calls(
                    stepsv.take(s as int + 1),
                    jv,
                ));
            }
            s = s + 1;
        }
        proof {
            assert(stepsv.take(stepsv.len() as int) =~= stepsv);
        }
    }

    /// Collects the results of this job's steps from the outcomes of their
    /// planned calls, which stand at the front of `pending`: one step
    /// result per step, in declaration order.
    #[verifier::loop_isolation(false)]
    pub fn run(&self, ctx: &Context, pending: &mut Vec<Outcome>) -> (res: Vec<StepResult>)
        requires
            steps_calls(self@.steps, self@).len() <= old(pending)@.len(),
        ensures
            final(pending)@ == old(pending)@.skip(steps_calls(self@.steps, self@).len() as int),
            job_result_view(res@) == steps_results(
                self@.steps,
                self@,
                outcomes_view(
                    old(pending)@.take(steps_calls(self@.steps, self@).len() as int),
                ),
            ),
    {
        let ctx2 = ctx.update_from_job(self);
        let ghost jv = self@;
        let ghost stepsv = self@.steps;
        let ghost outs0 = old(pending)@;
        let mut res: Vec<StepResult> = Vec::new();
        proof {
            assert(stepsv.take(0) =~= Seq::<StepView>::empty());
            assert(outs0.skip(0) =~= outs0);
            assert(job_result_view(res@) =~= steps_results(
                stepsv.take(0),
                jv,
                outcomes_view(outs0.take(0)),
            ));
        }
        let mut s: usize = 0;
        while s < self.steps.len()
            invariant
                s <= stepsv.len(),
                pending@ == outs0.skip(steps_calls(stepsv.take(s as int), jv).len() as int),
                job_result_view(res@) == steps_results(
                    stepsv.take(s as int),
                    jv,
                    outcomes_view(outs0.take(steps_calls(stepsv.take(s as int), jv).len() as int)),
                ),
            decreases stepsv.len() - s,
        {
            let ghost k = steps_calls(stepsv.take(s as int), jv).len() as int;
            let ghost c = runs_calls(stepsv[s as int].runs, Some(jv)).len() as int;
            proof {
                lemma_steps_calls_take_succ(stepsv, jv, s as int);
                lemma_steps_calls_take_len(stepsv, jv, s as int + 1);
            }
            let sr = self.steps[s].run(&ctx2, pending);
            let ghost resb = res@;
            res.push(sr);
            proof {
                assert(res@ == resb.push(sr));
                assert(outs0.skip(k).skip(c) =~= outs0.skip(k + c));
                let full = outcomes_view(outs0.take(k + c));
                assert(full.take(k) =~= outcomes_view(outs0.take(k)));
                assert(full.skip(k) =~= outcomes_view(outs0.skip(k).take(c)));
                assert(stepsv.take(s as int + 1).drop_last() =~= stepsv.take(s as int));
                assert(stepsv.take(s as int + 1).last() == stepsv[s as int]);
                assert(steps_results(stepsv.take(s as int + 1), jv, full) == steps_results(
                    stepsv.take(s as int),
                    jv,
                    full.take(k),
                ).push(runs_results(stepsv[s as int].runs, Some(jv), full.skip(k))));
                assert(job_result_view(res@) =~= job_result_view(resb).push(
                    step_result_view(sr@),
                ));
                assert(job_result_view(res@) =~= steps_results(
                    stepsv.take(s as int + 1),
                    jv,
                    full,
                ));
            }
            s = s + 1;
        }
        proof {
            assert(stepsv.take(stepsv.len() as int) =~= stepsv);
        }
        res
    }
}

impl Batch {
    /// Plans every remote call this batch performs, in declaration order:
    /// jobs outermost, then steps, commands and targets. The embedding
    /// program performs these calls (concurrently if it wishes) and hands
    /// the outcomes, positionally, to [`Batch::run`].
    #[verifier::loop_isolation(false)]
    pub fn plan(&self) -> (r: Vec<RemoteRequest>)
        ensures
            requests_view(r@) == batch_calls(self@),
    {
        let ghost jobsv = self@.jobs;
        let mut out: Vec<RemoteRequest> = Vec::new();
        proof {
            assert(jobsv.take(0) =~= Seq::<JobView>::empty());
            assert(requests_view(out@) =~= jobs_calls(jobsv.take(0)));
        }
        let mut j: usize = 0;
        while j < self.jobs.len()
            invariant
                j <= jobsv.len(),
                requests_view(out@) == jobs_calls(jobsv.take(j as int)),
            decreases jobsv.len() - j,
        {
            let ctx = Context::new(self, None, None);
            self.jobs[j].plan(&ctx, &mut out);
            proof {
                lemma_jobs_calls_take_succ(jobsv, j as int);
                assert(requests_view(out@) =~= jobs_calls(jobsv.take(j as int + 1)));
            }
            j = j + 1;
        }
        proof {
            assert(jobsv.take(jobsv.len() as int) =~= jobsv);
        }
        out
    }

    /// Collects the whole result tree of this batch from the outcomes of
    /// its planned calls, given positionally in plan order: one element per
    /// job, each with one element per step, each with one sequence per
    /// command holding that command's leaf results in target order. The
    /// tree mirrors the shape of the batch document whatever the outcomes
    /// hold; a failed call never displaces or cancels a sibling's result.
    #[verifier::loop_isolation(false)]
    pub fn run(&self, outcomes: Vec<Outcome>) -> (res: BatchResult)
        requires
            outcomes@.len() == batch_calls(self@).len(),
        ensures
            batch_result_view(res@) == batch_results(self@, outcomes_view(outcomes@)),
    {
        let ghost jobsv = self@.jobs;
        let ghost outs0 = outcomes@;
        let mut pending = outcomes;
        let mut res: BatchResult = Vec::new();
        proof {
            assert(jobsv.take(0) =~= Seq::<JobView>::empty());
            assert(outs0.skip(0) =~= outs0);
            assert(batch_result_view(res@) =~= jobs_results(
                jobsv.take(0),
                outcomes_view(outs0.take(0)),
            ));
        }
        let mut j: usize = 0;
        while j < self.jobs.len()
            invariant
                j <= jobsv.len(),
                pending@ == outs0.skip(jobs_calls(jobsv.take(j as int)).len() as int),
                batch_result_view(res@) == jobs_results(
                    jobsv.take(j as int),
                    outcomes_view(outs0.take(jobs_calls(jobsv.take(j as int)).len() as int)),
                ),
            decreases jobsv.len() - j,
        {
            let ghost k = jobs_calls(jobsv.take(j as int)).len() as int;
            let ghost c = steps_calls(jobsv[j as int].steps, jobsv[j as int]).len() as int;
            proof {
                lemma_jobs_calls_take_succ(jobsv, j as int);
                lemma_jobs_calls_take_len(jobsv, j as int + 1);
            }
            let ctx = Context::new(self, None, None);
            let jr = self.jobs[j].run(&ctx, &mut pending);
            let ghost resb = res@;
            res.push(jr);
            proof {
                assert(res@ == resb.push(jr));
                assert(outs0.skip(k).skip(c) =~= outs0.skip(k + c));
                let full = outcomes_view(outs0.take(k + c));
                assert(full.take(k) =~= outcomes_view(outs0.take(k)));
                assert(full.skip(k) =~= outcomes_view(outs0.skip(k).take(c)));
                assert(jobsv.take(j as int + 1).drop_last() =~= jobsv.take(j as int));
                assert(jobsv.take(j as int + 1).last() == jobsv[j as int]);
                assert(jobs_results(jobsv.take(j as int + 1), full) == jobs_results(
                    jobsv.take(j as int),
                    full.take(k),
                ).push(steps_results(jobsv[j as int].steps, jobsv[j as int], full.skip(k))));
                assert(batch_result_view(res@) =~= batch_result_view(resb).push(
                    job_result_view(jr@),
                ));
                assert(batch_result_view(res@) =~= jobs_results(jobsv.take(j as int + 1), full));
            }
            j = j + 1;
        }
        proof {
            assert(jobsv.take(jobsv.len() as int) =~= jobsv);
            assert(outs0.take(jobs_calls(jobsv).len() as int) =~= outs0);
        }
        res
    }
}

} // verus!
