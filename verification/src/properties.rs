//! Global guarantees of the execution engine, stated and proved once.
//!
//! The engine's contracts pin the result tree down as a function of the
//! batch and the call outcomes; the lemmas here spell out what that
//! function guarantees: the tree mirrors the shape of the document, every
//! leaf holds the outcome of its own call in declaration order, a command's
//! calls are built from its own enclosing job alone, a job-scoped command
//! outside any job performs no call and reports one no-op response, and one
//! call's failure never touches a sibling's result.

use vstd::prelude::*;

use crate::command::{
    command_calls, command_result_count, command_results, is_job_scoped, CommandView, OutcomeView,
    ResponseView,
};
use crate::error::ErrorView;
use crate::octomate::{
    batch_calls, batch_results, jobs_calls, jobs_results, lemma_jobs_calls_take_len,
    lemma_jobs_calls_take_succ, lemma_runs_calls_take_len, lemma_runs_calls_take_succ,
    lemma_steps_calls_take_len, lemma_steps_calls_take_succ, runs_calls, runs_results,
    steps_calls, steps_results, BatchView, JobView, StepView,
};

verus! {

/// Where, in the flat declaration-order call plan of a batch, the calls of
/// the command at job `j`, step `s`, run `r` begin.
pub open spec fn call_offset(b: BatchView, j: int, s: int, r: int) -> int {
    jobs_calls(b.jobs.take(j)).len() as int + steps_calls(
        b.jobs[j].steps.take(s),
        b.jobs[j],
    ).len() as int + runs_calls(b.jobs[j].steps[s].runs.take(r), Some(b.jobs[j])).len() as int
}

// ---------------------------------------------------------------------------
// One command inside one step
// ---------------------------------------------------------------------------

proof fn lemma_runs_calls_slice(runs: Seq<CommandView>, job: Option<JobView>, r: int)
    requires
        0 <= r < runs.len(),
    ensures
        ({
            let off = runs_calls(runs.take(r), job).len() as int;
            let c = command_calls(runs[r], job).len() as int;
            &&& off + c <= runs_calls(runs, job).len()
            &&& runs_calls(runs, job).subrange(off, off + c) == command_calls(runs[r], job)
        }),
    decreases runs.len(),
{
    let off = runs_calls(runs.take(r), job).len() as int;
    let c = command_calls(runs[r], job).len() as int;
    if r == runs.len() - 1 {
        assert(runs.take(r) =~= runs.drop_last());
        assert(runs_calls(runs, job).subrange(off, off + c) =~= command_calls(runs[r], job));
    } else {
        let prev = runs.drop_last();
        assert(prev.take(r) =~= runs.take(r));
        lemma_runs_calls_slice(prev, job, r);
        assert(runs_calls(runs, job).subrange(off, off + c) =~= runs_calls(
            prev,
            job,
        ).subrange(off, off + c));
    }
}

proof fn lemma_runs_results_len(runs: Seq<CommandView>, job: Option<JobView>, outs: Seq<OutcomeView>)
    ensures
        runs_results(runs, job, outs).len() == runs.len(),
    decreases runs.len(),
{
    if runs.len() > 0 {
        let split = runs_calls(runs.drop_last(), job).len() as int;
        lemma_runs_results_len(runs.drop_last(), job, outs.take(split));
    }
}

proof fn lemma_runs_results_index(
    runs: Seq<CommandView>,
    job: Option<JobView>,
    outs: Seq<OutcomeView>,
    r: int,
)
    requires
        outs.len() == runs_calls(runs, job).len(),
        0 <= r < runs.len(),
    ensures
        ({
            let off = runs_calls(runs.take(r), job).len() as int;
            let c = command_calls(runs[r], job).len() as int;
            runs_results(runs, job, outs)[r] == command_results(
                runs[r],
                job,
                outs.subrange(off, off + c),
            )
        }),
    decreases runs.len(),
{
    let off = runs_calls(runs.take(r), job).len() as int;
    let c = command_calls(runs[r], job).len() as int;
    let prev = runs.drop_last();
    let split = runs_calls(prev, job).len() as int;
    lemma_runs_results_len(prev, job, outs.take(split));
    if r == runs.len() - 1 {
        assert(runs.take(r) =~= prev);
        assert(outs.skip(split) =~= outs.subrange(off, off + c));
    } else {
        assert(prev.take(r) =~= runs.take(r));
        assert(prev[r] == runs[r]);
        lemma_runs_calls_take_succ(prev, job, r);
        lemma_runs_calls_take_len(prev, job, r + 1);
        lemma_runs_results_index(prev, job, outs.take(split), r);
        assert(outs.take(split).subrange(off, off + c) =~= outs.subrange(off, off + c));
    }
}

// ---------------------------------------------------------------------------
// One step inside one job
// ---------------------------------------------------------------------------

proof fn lemma_steps_calls_slice(steps: Seq<StepView>, job: JobView, s: int)
    requires
        0 <= s < steps.len(),
    ensures
        ({
            let off = steps_calls(steps.take(s), job).len() as int;
            let c = runs_calls(steps[s].runs, Some(job)).len() as int;
            &&& off + c <= steps_calls(steps, job).len()
            &&& steps_calls(steps, job).subrange(off, off + c) == runs_calls(
                steps[s].runs,
                Some(job),
            )
        }),
    decreases steps.len(),
{
    let off = steps_calls(steps.take(s), job).len() as int;
    let c = runs_calls(steps[s].runs, Some(job)).len() as int;
    if s == steps.len() - 1 {
        assert(steps.take(s) =~= steps.drop_last());
        assert(steps_calls(steps, job).subrange(off, off + c) =~= runs_calls(
            steps[s].runs,
            Some(job),
        ));
    } else {
        let prev = steps.drop_last();
        assert(prev.take(s) =~= steps.take(s));
        lemma_steps_calls_slice(prev, job, s);
        assert(steps_calls(steps, job).subrange(off, off + c) =~= steps_calls(
            prev,
            job,
        ).subrange(off, off + c));
    }
}

proof fn lemma_steps_results_len(steps: Seq<StepView>, job: JobView, outs: Seq<OutcomeView>)
    ensures
        steps_results(steps, job, outs).len() == steps.len(),
    decreases steps.len(),
{
    if steps.len() > 0 {
        let split = steps_calls(steps.drop_last(), job).len() as int;
        lemma_steps_results_len(steps.drop_last(), job, outs.take(split));
    }
}

proof fn lemma_steps_results_index(
    steps: Seq<StepView>,
    job: JobView,
    outs: Seq<OutcomeView>,
    s: int,
)
    requires
        outs.len() == steps_calls(steps, job).len(),
        0 <= s < steps.len(),
    ensures
        ({
            let off = steps_calls(steps.take(s), job).len() as int;
            let c = runs_calls(steps[s].runs, Some(job)).len() as int;
            steps_results(steps, job, outs)[s] == runs_results(
                steps[s].runs,
                Some(job),
                outs.subrange(off, off + c),
            )
        }),
    decreases steps.len(),
{
    let off = steps_calls(steps.take(s), job).len() as int;
    let c = runs_calls(steps[s].runs, Some(job)).len() as int;
    let prev = steps.drop_last();
    let split = steps_calls(prev, job).len() as int;
    lemma_steps_results_len(prev, job, outs.take(split));
    if s == steps.len() - 1 {
        assert(steps.take(s) =~= prev);
        assert(outs.skip(split) =~= outs.subrange(off, off + c));
    } else {
        assert(prev.take(s) =~= steps.take(s));
        assert(prev[s] == steps[s]);
        lemma_steps_calls_take_succ(prev, job, s);
        lemma_steps_calls_take_len(prev, job, s + 1);
        lemma_steps_results_index(prev, job, outs.take(split), s);
        assert(outs.take(split).subrange(off, off + c) =~= outs.subrange(off, off + c));
    }
}

// ---------------------------------------------------------------------------
// One job inside one batch
// ---------------------------------------------------------------------------

proof fn lemma_jobs_calls_slice(jobs: Seq<JobView>, j: int)
    requires
        0 <= j < jobs.len(),
    ensures
        ({
            let off = jobs_calls(jobs.take(j)).len() as int;
            let c = steps_calls(jobs[j].steps, jobs[j]).len() as int;
            &&& off + c <= jobs_calls(jobs).len()
            &&& jobs_calls(jobs).subrange(off, off + c) == steps_calls(jobs[j].steps, jobs[j])
        }),
    decreases jobs.len(),
{
    let off = jobs_calls(jobs.take(j)).len() as int;
    let c = steps_calls(jobs[j].steps, jobs[j]).len() as int;
    if j == jobs.len() - 1 {
        assert(jobs.take(j) =~= jobs.drop_last());
        assert(jobs_calls(jobs).subrange(off, off + c) =~= steps_calls(
            jobs[j].steps,
            jobs[j],
        ));
    } else {
        let prev = jobs.drop_last();
        assert(prev.take(j) =~= jobs.take(j));
        lemma_jobs_calls_slice(prev, j);
        assert(jobs_calls(jobs).subrange(off, off + c) =~= jobs_calls(prev).subrange(
            off,
            off + c,
        ));
    }
}

proof fn lemma_jobs_results_len(jobs: Seq<JobView>, outs: Seq<OutcomeView>)
    ensures
        jobs_results(jobs, outs).len() == jobs.len(),
    decreases jobs.len(),
{
    if jobs.len() > 0 {
        let split = jobs_calls(jobs.drop_last()).len() as int;
        lemma_jobs_results_len(jobs.drop_last(), outs.take(split));
    }
}

proof fn lemma_jobs_results_index(jobs: Seq<JobView>, outs: Seq<OutcomeView>, j: int)
    requires
        outs.len() == jobs_calls(jobs).len(),
        0 <= j < jobs.len(),
    ensures
        ({
            let off = jobs_calls(jobs.take(j)).len() as int;
            let c = steps_calls(jobs[j].steps, jobs[j]).len() as int;
            jobs_results(jobs, outs)[j] == steps_results(
                jobs[j].steps,
                jobs[j],
                outs.subrange(off, off + c),
            )
        }),
    decreases jobs.len(),
{
    let off = jobs_calls(jobs.take(j)).len() as int;
    let c = steps_calls(jobs[j].steps, jobs[j]).len() as int;
    let prev = jobs.drop_last();
    let split = jobs_calls(prev).len() as int;
    lemma_jobs_results_len(prev, outs.take(split));
    if j == jobs.len() - 1 {
        assert(jobs.take(j) =~= prev);
        assert(outs.skip(split) =~= outs.subrange(off, off + c));
    } else {
        assert(prev.take(j) =~= jobs.take(j));
        assert(prev[j] == jobs[j]);
        lemma_jobs_calls_take_succ(prev, j);
        lemma_jobs_calls_take_len(prev, j + 1);
        lemma_jobs_results_index(prev, outs.take(split), j);
        assert(outs.take(split).subrange(off, off + c) =~= outs.subrange(off, off + c));
    }
}

// ---------------------------------------------------------------------------
// One leaf slot of the whole batch
// ---------------------------------------------------------------------------

/// The results one command gives: as many as its result count says.
proof fn lemma_command_results_len(c: CommandView, job: Option<JobView>, outs: Seq<OutcomeView>)
    requires
        outs.len() == command_calls(c, job).len(),
    ensures
        command_results(c, job, outs).len() == command_result_count(c, job),
{
}

/// The whole chain from the batch root down to one command's slot: the
/// nested lengths, and the slot's contents as a function of the outcomes
/// of exactly that command's calls.
proof fn lemma_batch_slot(b: BatchView, outs: Seq<OutcomeView>, j: int, s: int, r: int)
    requires
        outs.len() == batch_calls(b).len(),
        0 <= j < b.jobs.len(),
        0 <= s < b.jobs[j].steps.len(),
        0 <= r < b.jobs[j].steps[s].runs.len(),
    ensures
        batch_results(b, outs).len() == b.jobs.len(),
        batch_results(b, outs)[j].len() == b.jobs[j].steps.len(),
        batch_results(b, outs)[j][s].len() == b.jobs[j].steps[s].runs.len(),
        ({
            let off = call_offset(b, j, s, r);
            let c = command_calls(b.jobs[j].steps[s].runs[r], Some(b.jobs[j])).len() as int;
            &&& 0 <= off
            &&& off + c <= outs.len()
            &&& batch_results(b, outs)[j][s][r] == command_results(
                b.jobs[j].steps[s].runs[r],
                Some(b.jobs[j]),
                outs.subrange(off, off + c),
            )
        }),
{
    let jobs = b.jobs;
    let jobv = jobs[j];
    let steps = jobv.steps;
    let runs = steps[s].runs;
    let cmd = runs[r];
    let offj = jobs_calls(jobs.take(j)).len() as int;
    let cj = steps_calls(steps, jobv).len() as int;
    let offs = steps_calls(steps.take(s), jobv).len() as int;
    let cs = runs_calls(steps[s].runs, Some(jobv)).len() as int;
    let offr = runs_calls(runs.take(r), Some(jobv)).len() as int;
    let cr = command_calls(cmd, Some(jobv)).len() as int;

    lemma_jobs_results_len(jobs, outs);
    lemma_jobs_calls_slice(jobs, j);
    lemma_jobs_results_index(jobs, outs, j);
    let outs_j = outs.subrange(offj, offj + cj);

    lemma_steps_results_len(steps, jobv, outs_j);
    lemma_steps_calls_slice(steps, jobv, s);
    lemma_steps_results_index(steps, jobv, outs_j, s);
    let outs_s = outs_j.subrange(offs, offs + cs);

    lemma_runs_results_len(runs, Some(jobv), outs_s);
    lemma_runs_calls_slice(runs, Some(jobv), r);
    lemma_runs_results_index(runs, Some(jobv), outs_s, r);
    let outs_r = outs_s.subrange(offr, offr + cr);

    assert(outs_s =~= outs.subrange(offj + offs, offj + offs + cs));
    assert(outs_r =~= outs.subrange(offj + offs + offr, offj + offs + offr + cr));
}

// ---------------------------------------------------------------------------
// The guarantees themselves
// ---------------------------------------------------------------------------

/// Shape preservation: the result tree of a batch has one element per job,
/// each with one element per step, each with one sequence per command
/// whose length follows the targeting rule: one result per target
/// repository for a targeted command, and exactly one otherwise.
pub proof fn lemma_shape_preservation(b: BatchView, outs: Seq<OutcomeView>)
    requires
        outs.len() == batch_calls(b).len(),
    ensures
        batch_results(b, outs).len() == b.jobs.len(),
        forall|j: int|
            0 <= j < b.jobs.len() ==> (#[trigger] batch_results(b, outs)[j]).len()
                == b.jobs[j].steps.len(),
        forall|j: int, s: int|
            0 <= j < b.jobs.len() && 0 <= s < b.jobs[j].steps.len() ==> (#[trigger] batch_results(
                b,
                outs,
            )[j][s]).len() == b.jobs[j].steps[s].runs.len(),
        forall|j: int, s: int, r: int|
            0 <= j < b.jobs.len() && 0 <= s < b.jobs[j].steps.len() && 0 <= r
                < b.jobs[j].steps[s].runs.len() ==> (#[trigger] batch_results(
                b,
                outs,
            )[j][s][r]).len() == command_result_count(
                b.jobs[j].steps[s].runs[r],
                Some(b.jobs[j]),
            ),
{
    lemma_jobs_results_len(b.jobs, outs);
    assert forall|j: int| 0 <= j < b.jobs.len() implies (#[trigger] batch_results(
        b,
        outs,
    )[j]).len() == b.jobs[j].steps.len() by {
        lemma_jobs_calls_slice(b.jobs, j);
        lemma_jobs_results_index(b.jobs, outs, j);
        let offj = jobs_calls(b.jobs.take(j)).len() as int;
        let cj = steps_calls(b.jobs[j].steps, b.jobs[j]).len() as int;
        lemma_steps_results_len(b.jobs[j].steps, b.jobs[j], outs.subrange(offj, offj + cj));
    }
    assert forall|j: int, s: int|
        0 <= j < b.jobs.len() && 0 <= s < b.jobs[j].steps.len() implies (
    #[trigger] batch_results(b, outs)[j][s]).len() == b.jobs[j].steps[s].runs.len() by {
        let jobv = b.jobs[j];
        let steps = jobv.steps;
        lemma_jobs_calls_slice(b.jobs, j);
        lemma_jobs_results_index(b.jobs, outs, j);
        let offj = jobs_calls(b.jobs.take(j)).len() as int;
        let cj = steps_calls(steps, jobv).len() as int;
        let outs_j = outs.subrange(offj, offj + cj);
        lemma_steps_calls_slice(steps, jobv, s);
        lemma_steps_results_index(steps, jobv, outs_j, s);
        let offs = steps_calls(steps.take(s), jobv).len() as int;
        let cs = runs_calls(steps[s].runs, Some(jobv)).len() as int;
        lemma_runs_results_len(steps[s].runs, Some(jobv), outs_j.subrange(offs, offs + cs));
    }
    assert forall|j: int, s: int, r: int|
        0 <= j < b.jobs.len() && 0 <= s < b.jobs[j].steps.len() && 0 <= r
            < b.jobs[j].steps[s].runs.len() implies (#[trigger] batch_results(
        b,
        outs,
    )[j][s][r]).len() == command_result_count(b.jobs[j].steps[s].runs[r], Some(b.jobs[j])) by {
        lemma_batch_slot(b, outs, j, s, r);
        let off = call_offset(b, j, s, r);
        let c = command_calls(b.jobs[j].steps[s].runs[r], Some(b.jobs[j])).len() as int;
        lemma_command_results_len(
            b.jobs[j].steps[s].runs[r],
            Some(b.jobs[j]),
            outs.subrange(off, off + c),
        );
    }
}

/// Order preservation: whatever order the embedding program completed the
/// calls in, every leaf slot of the result tree holds the outcome of its
/// own call, positionally matched to declaration order.
pub proof fn lemma_order_preservation(
    b: BatchView,
    outs: Seq<OutcomeView>,
    j: int,
    s: int,
    r: int,
    t: int,
)
    requires
        outs.len() == batch_calls(b).len(),
        0 <= j < b.jobs.len(),
        0 <= s < b.jobs[j].steps.len(),
        0 <= r < b.jobs[j].steps[s].runs.len(),
        0 <= t < command_calls(b.jobs[j].steps[s].runs[r], Some(b.jobs[j])).len(),
    ensures
        batch_results(b, outs)[j][s][r][t] == outs[call_offset(b, j, s, r) + t],
{
    lemma_batch_slot(b, outs, j, s, r);
}

/// No cross-contamination: the calls planned for the command at job `j`,
/// step `s`, run `r` are computed from that command's parameters and its
/// own enclosing job alone — the slice they occupy in the batch's flat
/// call plan equals the command's own calls under its own job, so another
/// job's name or repositories never reach them.
pub proof fn lemma_no_cross_contamination(b: BatchView, j: int, s: int, r: int)
    requires
        0 <= j < b.jobs.len(),
        0 <= s < b.jobs[j].steps.len(),
        0 <= r < b.jobs[j].steps[s].runs.len(),
    ensures
        ({
            let off = call_offset(b, j, s, r);
            let c = command_calls(b.jobs[j].steps[s].runs[r], Some(b.jobs[j])).len() as int;
            &&& 0 <= off
            &&& off + c <= batch_calls(b).len()
            &&& batch_calls(b).subrange(off, off + c) == command_calls(
                b.jobs[j].steps[s].runs[r],
                Some(b.jobs[j]),
            )
        }),
{
    let jobs = b.jobs;
    let jobv = jobs[j];
    let steps = jobv.steps;
    let runs = steps[s].runs;
    let offj = jobs_calls(jobs.take(j)).len() as int;
    let cj = steps_calls(steps, jobv).len() as int;
    let offs = steps_calls(steps.take(s), jobv).len() as int;
    let cs = runs_calls(steps[s].runs, Some(jobv)).len() as int;
    let offr = runs_calls(runs.take(r), Some(jobv)).len() as int;
    let cr = command_calls(runs[r], Some(jobv)).len() as int;
    lemma_jobs_calls_slice(jobs, j);
    lemma_steps_calls_slice(steps, jobv, s);
    lemma_runs_calls_slice(runs, Some(jobv), r);
    assert(steps_calls(steps, jobv).subrange(offs, offs + cs) == runs_calls(
        steps[s].runs,
        Some(jobv),
    ));
    assert(batch_calls(b).subrange(offj + offs, offj + offs + cs) =~= steps_calls(
        steps,
        jobv,
    ).subrange(offs, offs + cs));
    assert(batch_calls(b).subrange(offj + offs + offr, offj + offs + offr + cr)
        =~= runs_calls(runs, Some(jobv)).subrange(offr, offr + cr));
}

/// The no-op rule: a job-scoped command outside any job performs zero
/// remote calls and reports exactly one no-op response, whatever outcomes
/// are offered to it.
pub proof fn lemma_no_op_rule(c: CommandView, outs: Seq<OutcomeView>)
    requires
        is_job_scoped(c),
    ensures
        command_calls(c, None).len() == 0,
        command_results(c, None, outs) == seq![
            Ok::<ResponseView, ErrorView>(ResponseView::NoOp),
        ],
{
}

/// Isolation of failure: a command's slot in the result tree depends on
/// the outcomes of its own calls alone. If two outcome assignments agree
/// on those calls — however the others succeeded or failed — the slot is
/// the same, so one call's failure neither displaces nor changes any
/// sibling's result.
pub proof fn lemma_failure_isolation(
    b: BatchView,
    outs1: Seq<OutcomeView>,
    outs2: Seq<OutcomeView>,
    j: int,
    s: int,
    r: int,
)
    requires
        outs1.len() == batch_calls(b).len(),
        outs2.len() == batch_calls(b).len(),
        0 <= j < b.jobs.len(),
        0 <= s < b.jobs[j].steps.len(),
        0 <= r < b.jobs[j].steps[s].runs.len(),
        forall|t: int|
            0 <= t < command_calls(b.jobs[j].steps[s].runs[r], Some(b.jobs[j])).len() ==> #[trigger] outs1[call_offset(b, j, s, r) + t] == outs2[call_offset(b, j, s, r) + t],
    ensures
        batch_results(b, outs1)[j][s][r] == batch_results(b, outs2)[j][s][r],
{
    lemma_batch_slot(b, outs1, j, s, r);
    lemma_batch_slot(b, outs2, j, s, r);
    let off = call_offset(b, j, s, r);
    let c = command_calls(b.jobs[j].steps[s].runs[r], Some(b.jobs[j])).len() as int;
    assert forall|t: int| 0 <= t < c implies #[trigger] outs1.subrange(off, off + c)[t]
        == outs2.subrange(off, off + c)[t] by {
        assert(outs1[call_offset(b, j, s, r) + t] == outs2[call_offset(b, j, s, r) + t]);
    }
    assert(outs1.subrange(off, off + c) =~= outs2.subrange(off, off + c));
}

} // verus!
