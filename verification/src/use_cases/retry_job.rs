//! Explicit retry of a job: what is kept, what is done again.
use vstd::prelude::*;
use vstd::string::*;

use crate::contracts::{AppResult, ApplicationError, ApplicationErrorView};
use crate::identity::{BatchId, JobId, UlidStr};
use crate::json::{
    array, array_text, json_quoted, member, number_text, object, object_text, push_member, quoted,
};
use crate::ports::OutboxEvent;
use crate::text::{decimal, text_views};
use crate::workflow::batch::Batch;
use crate::workflow::job::{kind_at, retry_position, Job, JobView};
use crate::workflow::laws::{law_every_stage_is_found, law_retry_keeps_prerequisites, sound};
use crate::workflow::stage::{JobStatus, StageKind, StageState, StageStatus};
use crate::workflow::work_unit::{WorkUnit, WorkUnitStatus, WorkUnitView};

use super::cancel_job::job_view;
use super::job_ops::all_stages;
use super::run_batch::{about_job, job_error};

verus! {

/// What a retry does.
#[derive(Debug, PartialEq, Eq)]
pub struct RetryPlan {
    pub job_id: JobId,
    pub batch_id: Option<BatchId>,
    pub start_stage: StageKind,
    /// Stages whose artifacts are kept.
    pub reused_artifacts: Vec<StageKind>,
    /// Stages that are done again.
    pub invalidated_stages: Vec<StageKind>,
    pub work_units_to_reset: Vec<String>,
    pub output_path: String,
    pub needs_runtime: bool,
    pub dry_run: bool,
}

/// Why a job cannot be retried, if so.
pub open spec fn retry_refusal(job_id: Seq<char>, job: Option<JobView>) -> Option<
    ApplicationErrorView,
> {
    match job {
        None => Some(about_job(job_id, " not found"@)),
        Some(job) => if !job.retryable() {
            Some(
                about_job(
                    job_id,
                    " is "@ + job.status.name_text()
                        + "; only Failed/DoneDegraded/Cancelled Jobs can be retried"@,
                ),
            )
        } else if job.execution_snapshot_id is None {
            Some(about_job(job_id, " has no execution snapshot and cannot be retried"@))
        } else {
            None
        },
    }
}

/// The job that is to be retried, and the record of what it was asked to do.
pub fn admit_retry(job_id: &JobId, job: Option<Job>) -> (result: AppResult<(Job, UlidStr)>)
    ensures
        match result {
            Ok((admitted, snapshot_id)) => retry_refusal(job_id@, job_view(job)) is None && job
                == Some(admitted) && admitted@.execution_snapshot_id == Some(snapshot_id),
            Err(error) => retry_refusal(job_id@, job_view(job)) == Some(error@),
        },
{
    let job = match job {
        Some(job) => job,
        None => {
            return Err(job_error(job_id.as_str(), " not found"));
        },
    };
    if !matches!(
        job.status(),
        JobStatus::Failed | JobStatus::DoneDegraded | JobStatus::Cancelled
    ) {
        let mut what = " is ".to_owned();
        what.append(job.status().name());
        what.append("; only Failed/DoneDegraded/Cancelled Jobs can be retried");
        return Err(job_error(job_id.as_str(), what.as_str()));
    }
    let snapshot_id = match job.execution_snapshot_id() {
        Some(id) => id.clone(),
        None => {
            return Err(
                job_error(job_id.as_str(), " has no execution snapshot and cannot be retried"),
            );
        },
    };
    Ok((job, snapshot_id))
}

/// The error of a job whose record is not stored.
pub fn missing_snapshot(snapshot_id: &UlidStr, job_id: &JobId) -> (error: ApplicationError)
    ensures
        error@ == ApplicationErrorView::Invalid(
            "execution snapshot "@ + snapshot_id@ + " not found for Job "@ + job_id@,
        ),
{
    let mut text = "execution snapshot ".to_owned();
    text.append(snapshot_id.as_str());
    text.append(" not found for Job ");
    text.append(job_id.as_str());
    ApplicationError::invalid(text.as_str())
}

/// Where a retry begins: at the chosen stage, or at the first that needs one.
pub open spec fn start_stage(job: JobView, from_stage: Option<StageKind>) -> Result<
    StageKind,
    ApplicationErrorView,
> {
    match from_stage {
        Some(kind) => Ok(kind),
        None => match retry_position(job.stages, 0) {
            Some(p) => Ok(job.stages[p].kind),
            None => Err(
                ApplicationErrorView::Invalid(
                    "prepare_retry requires from_stage when no failed stage is present"@,
                ),
            ),
        },
    }
}

pub fn resolve_start_stage(job: &Job, from_stage: Option<StageKind>) -> (result: AppResult<StageKind>)
    ensures
        match result {
            Ok(kind) => start_stage(job@, from_stage) == Ok::<StageKind, ApplicationErrorView>(
                kind,
            ),
            Err(error) => start_stage(job@, from_stage) == Err::<StageKind, ApplicationErrorView>(
                error@,
            ),
        },
{
    if let Some(kind) = from_stage {
        return Ok(kind);
    }
    let stages = job.stages();
    let mut i: usize = 0;
    while i < stages.len()
        invariant
            i <= stages@.len(),
            stages@ == job@.stages,
            from_stage is None,
            retry_position(job@.stages, 0) == retry_position(job@.stages, i as int),
        decreases stages@.len() - i,
    {
        if stages[i].status.is_retry_start() {
            return Ok(stages[i].kind);
        }
        i += 1;
    }
    Err(
        ApplicationError::invalid(
            "prepare_retry requires from_stage when no failed stage is present",
        ),
    )
}

/// The place of a stage in the pipeline.
pub fn stage_rank(kind: StageKind) -> (rank: u8)
    ensures
        rank == kind.position(),
{
    match kind {
        StageKind::Probe => 0,
        StageKind::ExtractAudio => 1,
        StageKind::Asr => 2,
        StageKind::Split => 3,
        StageKind::Correct => 4,
        StageKind::Translate => 5,
        StageKind::Export => 6,
    }
}

/// The first `n` stages that are complete and stand in front of `start`.
pub open spec fn kept_stages(stages: Seq<StageState>, start: StageKind, n: int) -> Seq<StageKind>
    decreases n,
{
    if n <= 0 {
        seq![]
    } else {
        let front = kept_stages(stages, start, n - 1);
        let stage = stages[n - 1];
        if stage.kind.position() < start.position() && stage.status.satisfied() {
            front.push(stage.kind)
        } else {
            front
        }
    }
}

/// Those of the first `n` stages that do not stand in front of `start`.
pub open spec fn redone_stages(stages: Seq<StageState>, start: StageKind, n: int) -> Seq<StageKind>
    decreases n,
{
    if n <= 0 {
        seq![]
    } else {
        let front = redone_stages(stages, start, n - 1);
        let stage = stages[n - 1];
        if stage.kind.position() >= start.position() {
            front.push(stage.kind)
        } else {
            front
        }
    }
}

/// The stages that are kept, and those that are done again.
pub fn partition_stages(job: &Job, start: StageKind) -> (parts: (Vec<StageKind>, Vec<StageKind>))
    ensures
        parts.0@ == kept_stages(job@.stages, start, job@.stages.len() as int),
        parts.1@ == redone_stages(job@.stages, start, job@.stages.len() as int),
{
    let stages = job.stages();
    let mut kept: Vec<StageKind> = Vec::new();
    let mut redone: Vec<StageKind> = Vec::new();
    let rank: u8 = stage_rank(start);
    let mut i: usize = 0;
    while i < stages.len()
        invariant
            i <= stages@.len(),
            stages@ == job@.stages,
            rank == start.position(),
            kept@ == kept_stages(job@.stages, start, i as int),
            redone@ == redone_stages(job@.stages, start, i as int),
        decreases stages@.len() - i,
    {
        let own: u8 = stage_rank(stages[i].kind);
        if own < rank && stages[i].status.prerequisite_satisfied() {
            kept.push(stages[i].kind);
        } else if own >= rank {
            redone.push(stages[i].kind);
        }
        i += 1;
    }
    (kept, redone)
}

/// A unit of a stage that is done again: it waits once more, whatever it has
/// come to. A unit that is at work stands in the way.
pub open spec fn unit_after_retry(unit: WorkUnitView) -> Result<WorkUnitView, ApplicationErrorView> {
    match unit.status {
        WorkUnitStatus::Failed => match unit.retried() {
            Ok(after) => Ok(after),
            Err(error) => Err(ApplicationErrorView::Domain(error)),
        },
        WorkUnitStatus::Cancelled => match unit.retried() {
            Ok(after) => Ok(after),
            Err(error) => Err(ApplicationErrorView::Domain(error)),
        },
        WorkUnitStatus::Done => Ok(unit.invalidated("RETRY_INVALIDATED"@)),
        WorkUnitStatus::Pending => Ok(unit),
        WorkUnitStatus::Running => Err(
            ApplicationErrorView::Invalid(
                "WorkUnit "@ + unit.id@ + " is still Running; recover leases before retry"@,
            ),
        ),
    }
}

fn reset_unit(unit: &mut WorkUnit) -> (result: AppResult<()>)
    ensures
        match unit_after_retry(old(unit)@) {
            Ok(after) => result is Ok && final(unit)@ == after,
            Err(e) => result matches Err(error) && error@ == e && final(unit)@ == old(unit)@,
        },
{
    match unit.status() {
        WorkUnitStatus::Failed | WorkUnitStatus::Cancelled => match unit.retry() {
            Ok(_) => Ok(()),
            Err(error) => Err(ApplicationError::Domain(error)),
        },
        WorkUnitStatus::Done => {
            let invalidated = unit.invalidate_artifact_for_recovery("RETRY_INVALIDATED");
            assert(invalidated is Ok);
            Ok(())
        },
        WorkUnitStatus::Pending => Ok(()),
        WorkUnitStatus::Running => {
            let mut text = "WorkUnit ".to_owned();
            text.append(unit.id().as_str());
            text.append(" is still Running; recover leases before retry");
            assert(text@ =~= "WorkUnit "@ + unit@.id@
                + " is still Running; recover leases before retry"@);
            Err(ApplicationError::invalid(text.as_str()))
        },
    }
}

pub open spec fn unit_views(units: Seq<WorkUnit>) -> Seq<WorkUnitView> {
    Seq::new(units.len(), |i: int| units[i]@)
}

/// The first `n` units, those of the stages that are done again put back.
pub open spec fn reset_units(units: Seq<WorkUnitView>, start: StageKind, n: int) -> Result<
    Seq<WorkUnitView>,
    ApplicationErrorView,
>
    decreases n,
{
    if n <= 0 {
        Ok(seq![])
    } else {
        match reset_units(units, start, n - 1) {
            Err(error) => Err(error),
            Ok(front) => if units[n - 1].stage.position() < start.position() {
                Ok(front)
            } else {
                match unit_after_retry(units[n - 1]) {
                    Ok(after) => Ok(front.push(after)),
                    Err(error) => Err(error),
                }
            },
        }
    }
}

proof fn lemma_reset_fails(units: Seq<WorkUnitView>, start: StageKind, m: int, n: int)
    requires
        m <= n,
        reset_units(units, start, m) is Err,
    ensures
        reset_units(units, start, n) == reset_units(units, start, m),
    decreases n - m,
{
    if m < n {
        lemma_reset_fails(units, start, m, n - 1);
    }
}

/// Put back the units of the stages that are done again. The others are left
/// out.
pub fn units_to_reset(units: &Vec<WorkUnit>, start: StageKind) -> (result: AppResult<Vec<WorkUnit>>)
    ensures
        match result {
            Ok(reset) => reset_units(unit_views(units@), start, units@.len() as int) == Ok::<
                Seq<WorkUnitView>,
                ApplicationErrorView,
            >(unit_views(reset@)),
            Err(error) => reset_units(unit_views(units@), start, units@.len() as int) == Err::<
                Seq<WorkUnitView>,
                ApplicationErrorView,
            >(error@),
        },
{
    let mut reset: Vec<WorkUnit> = Vec::new();
    let ghost all = unit_views(units@);
    let mut i: usize = 0;
    assert(unit_views(reset@) =~= seq![]);
    while i < units.len()
        invariant
            i <= units.len(),
            all == unit_views(units@),
            reset_units(all, start, i as int) == Ok::<Seq<WorkUnitView>, ApplicationErrorView>(
                unit_views(reset@),
            ),
        decreases units.len() - i,
    {
        assert(all[i as int] == units@[i as int]@);
        if stage_rank(units[i].stage()) >= stage_rank(start) {
            let mut unit = units[i].clone();
            match reset_unit(&mut unit) {
                Ok(_) => {
                    let ghost before = reset@;
                    reset.push(unit);
                    assert(unit_views(reset@) =~= unit_views(before).push(unit@));
                },
                Err(error) => {
                    proof {
                        lemma_reset_fails(all, start, i + 1, all.len() as int);
                    }
                    return Err(error);
                },
            }
        }
        i += 1;
    }
    Ok(reset)
}

pub open spec fn unit_ids(units: Seq<WorkUnitView>) -> Seq<Seq<char>> {
    Seq::new(units.len(), |i: int| units[i].id@)
}

fn ids_of(units: &Vec<WorkUnit>) -> (ids: Vec<String>)
    ensures
        text_views(ids@) == unit_ids(unit_views(units@)),
{
    let mut ids: Vec<String> = Vec::new();
    let ghost wanted = unit_ids(unit_views(units@));
    let mut i: usize = 0;
    while i < units.len()
        invariant
            i <= units.len(),
            wanted == unit_ids(unit_views(units@)),
            text_views(ids@) == wanted.take(i as int),
        decreases units.len() - i,
    {
        let ghost before = ids@;
        ids.push(units[i].id().as_str().to_owned());
        i += 1;
        assert(text_views(ids@) =~= text_views(before).push(units@[i - 1]@.id@));
        assert(text_views(ids@) =~= wanted.take(i as int));
    }
    assert(text_views(ids@) =~= wanted);
    ids
}

/// `plan` is the retry of a job from a stage on.
pub open spec fn is_retry_plan(
    job: JobView,
    start: StageKind,
    reset: Seq<WorkUnitView>,
    output_path: Seq<char>,
    dry_run: bool,
    plan: RetryPlan,
) -> bool {
    &&& plan.job_id == job.id
    &&& plan.batch_id == job.batch_id
    &&& plan.start_stage == start
    &&& plan.reused_artifacts@ == kept_stages(job.stages, start, job.stages.len() as int)
    &&& plan.invalidated_stages@ == redone_stages(job.stages, start, job.stages.len() as int)
    &&& text_views(plan.work_units_to_reset@) == unit_ids(reset)
    &&& plan.output_path@ == output_path
    &&& plan.needs_runtime
    &&& plan.dry_run == dry_run
}

/// Plan a retry: where it begins, what it keeps, and which units it puts back.
/// Nothing of the job is changed.
pub fn plan_retry(
    job: &Job,
    from_stage: Option<StageKind>,
    units: &Vec<WorkUnit>,
    output_path: &str,
    dry_run: bool,
) -> (result: AppResult<(RetryPlan, Vec<WorkUnit>)>)
    ensures
        match start_stage(job@, from_stage) {
            Err(e) => result matches Err(error) && error@ == e,
            Ok(start) => match reset_units(unit_views(units@), start, units@.len() as int) {
                Err(e) => result matches Err(error) && error@ == e,
                Ok(reset) => result matches Ok((plan, put_back)) && unit_views(put_back@) == reset
                    && is_retry_plan(job@, start, reset, output_path@, dry_run, plan),
            },
        },
{
    let start = resolve_start_stage(job, from_stage)?;
    let (reused, invalidated) = partition_stages(job, start);
    let reset = units_to_reset(units, start)?;
    let batch_id = match job.batch_id() {
        Some(id) => Some(id.clone()),
        None => None,
    };
    let plan = RetryPlan {
        job_id: job.id().clone(),
        batch_id,
        start_stage: start,
        reused_artifacts: reused,
        invalidated_stages: invalidated,
        work_units_to_reset: ids_of(&reset),
        output_path: output_path.to_owned(),
        needs_runtime: true,
        dry_run,
    };
    Ok((plan, reset))
}

/// Check that a job can be retried, without changing it.
pub fn preview_retry(job: &Job, from_stage: Option<StageKind>) -> (result: AppResult<()>)
    ensures
        match result {
            Ok(_) => job@.retried(from_stage) is Ok,
            Err(error) => job@.retried(from_stage) matches Err(e) && error@
                == ApplicationErrorView::Domain(e),
        },
{
    let mut preview = job.clone();
    match preview.prepare_retry(from_stage) {
        Ok(_) => Ok(()),
        Err(error) => Err(ApplicationError::Domain(error)),
    }
}

/// The error of a job whose batch is not stored.
pub fn missing_batch(batch_id: &BatchId, job_id: &JobId) -> (error: ApplicationError)
    ensures
        error@ == ApplicationErrorView::Invalid(
            "Batch "@ + batch_id@ + " not found for Job "@ + job_id@,
        ),
{
    let mut text = "Batch ".to_owned();
    text.append(batch_id.as_str());
    text.append(" not found for Job ");
    text.append(job_id.as_str());
    ApplicationError::invalid(text.as_str())
}

/// Make a job ready to run again from a stage on.
pub fn prepare_job(job: &mut Job, from_stage: Option<StageKind>) -> (result: AppResult<StageKind>)
    ensures
        match old(job)@.retried(from_stage) {
            Ok((after, kind)) => result == Ok::<StageKind, ApplicationError>(kind) && final(job)@
                == after,
            Err(e) => result matches Err(error) && error@ == ApplicationErrorView::Domain(e)
                && final(job)@ == old(job)@,
        },
{
    match job.prepare_retry(from_stage) {
        Ok(kind) => Ok(kind),
        Err(error) => Err(ApplicationError::Domain(error)),
    }
}

/// Open the batch of a job that is retried.
pub fn prepare_batch(batch: &mut Batch, job_id: &JobId) -> (result: AppResult<()>)
    ensures
        match old(batch)@.reopened(job_id@) {
            Ok(after) => result is Ok && final(batch)@ == after,
            Err(e) => result matches Err(error) && error@ == ApplicationErrorView::Domain(e)
                && final(batch)@ == old(batch)@,
        },
{
    match batch.prepare_retry(job_id) {
        Ok(_) => Ok(()),
        Err(error) => Err(ApplicationError::Domain(error)),
    }
}

pub open spec fn stage_literals(stages: Seq<StageKind>) -> Seq<Seq<char>> {
    Seq::new(stages.len(), |i: int| json_quoted(stages[i].text()))
}

/// What is told of a retry that has been prepared.
pub open spec fn retry_payload(
    job_id: Seq<char>,
    start: StageKind,
    retry_generation: u32,
    invalidated: Seq<StageKind>,
) -> Seq<char> {
    object(
        seq![
            member("invalidated_stages"@, array(stage_literals(invalidated))),
            member("job_id"@, json_quoted(job_id)),
            member("retry_generation"@, decimal(retry_generation as nat)),
            member("start_stage"@, json_quoted(start.text())),
        ],
    )
}

/// The note that a retry has been prepared.
pub fn retry_event(job: &Job, plan: &RetryPlan, created_at: &str) -> (event: OutboxEvent)
    ensures
        event.aggregate_type@ == "Job"@,
        event.aggregate_id@ == plan.job_id@,
        event.event_type@ == "job_retry_prepared"@,
        event.payload_json@ == retry_payload(
            plan.job_id@,
            plan.start_stage,
            job@.retry_generation,
            plan.invalidated_stages@,
        ),
        event.created_at@ == created_at@,
{
    let mut literals: Vec<String> = Vec::new();
    let ghost wanted = stage_literals(plan.invalidated_stages@);
    let mut i: usize = 0;
    while i < plan.invalidated_stages.len()
        invariant
            i <= plan.invalidated_stages.len(),
            wanted == stage_literals(plan.invalidated_stages@),
            text_views(literals@) == wanted.take(i as int),
        decreases plan.invalidated_stages.len() - i,
    {
        let ghost before = literals@;
        literals.push(quoted(plan.invalidated_stages[i].as_str()));
        i += 1;
        assert(text_views(literals@) =~= text_views(before).push(wanted[i - 1]));
        assert(text_views(literals@) =~= wanted.take(i as int));
    }
    assert(text_views(literals@) =~= wanted);
    let mut members: Vec<String> = Vec::new();
    assert(text_views(members@) =~= seq![]);
    push_member(&mut members, "invalidated_stages", array_text(&literals).as_str());
    push_member(&mut members, "job_id", quoted(plan.job_id.as_str()).as_str());
    push_member(
        &mut members,
        "retry_generation",
        number_text(job.retry_generation() as u64).as_str(),
    );
    push_member(&mut members, "start_stage", quoted(plan.start_stage.as_str()).as_str());
    assert(text_views(members@) =~= seq![
        member("invalidated_stages"@, array(stage_literals(plan.invalidated_stages@))),
        member("job_id"@, json_quoted(plan.job_id@)),
        member("retry_generation"@, decimal(job@.retry_generation as nat)),
        member("start_stage"@, json_quoted(plan.start_stage.text())),
    ]);
    OutboxEvent {
        aggregate_type: "Job".to_owned(),
        aggregate_id: plan.job_id.as_str().to_owned(),
        event_type: "job_retry_prepared".to_owned(),
        payload_json: object_text(&members),
        created_at: created_at.to_owned(),
    }
}

proof fn lemma_redone(stages: Seq<StageState>, start: StageKind, n: int)
    requires
        stages.len() == 7,
        forall|i: int| 0 <= i < 7 ==> (#[trigger] stages[i]).kind == kind_at(i),
        0 <= n <= 7,
    ensures
        redone_stages(stages, start, n).len() == (if n <= start.position() {
            0
        } else {
            n - start.position()
        }),
        forall|k: int|
            0 <= k < redone_stages(stages, start, n).len() ==> #[trigger] redone_stages(
                stages,
                start,
                n,
            )[k] == kind_at(start.position() + k),
    decreases n,
{
    if n > 0 {
        lemma_redone(stages, start, n - 1);
        assert(stages[n - 1].kind == kind_at(n - 1));
    }
}

/// The plan of a retry and the retry itself agree: they begin at the same
/// stage, and the stages that the plan lists as done again are those that the
/// job has as pending without an artifact afterwards.
pub proof fn law_plans_tell_the_truth(job: JobView, from_stage: Option<StageKind>)
    requires
        sound(job),
    ensures
        job.retried(from_stage) matches Ok((after, kind)) ==> {
            &&& start_stage(job, from_stage) == Ok::<StageKind, ApplicationErrorView>(kind)
            &&& redone_stages(job.stages, kind, 7).len() == 7 - kind.position()
            &&& forall|k: int|
                0 <= k < 7 - kind.position() ==> {
                    let i = kind.position() + k;
                    &&& #[trigger] redone_stages(job.stages, kind, 7)[k] == after.stages[i].kind
                    &&& after.stages[i].status == StageStatus::Pending
                    &&& after.stages[i].artifact is None
                }
        },
{
    if let Ok((after, kind)) = job.retried(from_stage) {
        law_retry_keeps_prerequisites(job, from_stage);
        lemma_redone(job.stages, kind, 7);
        if let Some(chosen) = from_stage {
            law_every_stage_is_found(job, chosen);
        }
        assert forall|k: int| 0 <= k < 7 - kind.position() implies {
            let i = kind.position() + k;
            &&& #[trigger] redone_stages(job.stages, kind, 7)[k] == after.stages[i].kind
            &&& after.stages[i].status == StageStatus::Pending
            &&& after.stages[i].artifact is None
        } by {
            let i = kind.position() + k;
            assert(after.stages[i] == crate::workflow::job::fresh_stage(kind_at(i)));
        }
    }
}

/// Units that a retry puts back all wait, without an artifact of the stage that
/// is done again unless they never had left the queue.
pub proof fn law_reset_units_wait(unit: WorkUnitView)
    ensures
        unit_after_retry(unit) matches Ok(after) ==> after.status == WorkUnitStatus::Pending && (
        unit.status != WorkUnitStatus::Pending ==> after.artifact is None),
        unit_after_retry(unit) is Err <==> unit.status == WorkUnitStatus::Running,
{
}

proof fn lemma_first_to_retry(stages: Seq<StageState>, p: int, from: int)
    requires
        0 <= from <= p < stages.len(),
        stages[p].status == StageStatus::Failed || stages[p].status == StageStatus::Cancelled
            || stages[p].status == StageStatus::WaitingProvider,
        forall|i: int|
            0 <= i < p ==> (#[trigger] stages[i]).status != StageStatus::Failed && stages[i].status
                != StageStatus::Cancelled && stages[i].status != StageStatus::WaitingProvider,
    ensures
        retry_position(stages, from) == Some(p),
    decreases p - from,
{
    if from < p {
        assert(stages[from].status != StageStatus::Failed);
        lemma_first_to_retry(stages, p, from + 1);
    }
}

/// A retry begins at the stage that is asked for, else at the first that failed,
/// was cancelled or waits for a provider.
pub proof fn law_retries_begin_where_it_failed(job: JobView, kind: StageKind, p: int)
    ensures
        start_stage(job, Some(kind)) == Ok::<StageKind, ApplicationErrorView>(kind),
        0 <= p < job.stages.len() && (job.stages[p].status == StageStatus::Failed
            || job.stages[p].status == StageStatus::Cancelled || job.stages[p].status
            == StageStatus::WaitingProvider) && (forall|i: int|
            0 <= i < p ==> (#[trigger] job.stages[i]).status != StageStatus::Failed
                && job.stages[i].status != StageStatus::Cancelled && job.stages[i].status
                != StageStatus::WaitingProvider) ==> start_stage(job, None) == Ok::<
            StageKind,
            ApplicationErrorView,
        >(job.stages[p].kind),
{
    if 0 <= p < job.stages.len() && (job.stages[p].status == StageStatus::Failed
        || job.stages[p].status == StageStatus::Cancelled || job.stages[p].status
        == StageStatus::WaitingProvider) && (forall|i: int|
        0 <= i < p ==> (#[trigger] job.stages[i]).status != StageStatus::Failed
            && job.stages[i].status != StageStatus::Cancelled && job.stages[i].status
            != StageStatus::WaitingProvider) {
        lemma_first_to_retry(job.stages, p, 0);
    }
}

proof fn lemma_kept(stages: Seq<StageState>, p: int, n: int)
    requires
        all_stages(stages),
        0 <= p < 7,
        0 <= n <= 7,
    ensures
        forall|i: int|
            0 <= i < n ==> (kept_stages(stages, stages[p].kind, n).contains(
                (#[trigger] stages[i]).kind,
            ) <==> i < p && (stages[i].status == StageStatus::Done || stages[i].status
                == StageStatus::DoneDegraded || stages[i].status == StageStatus::Skipped)),
        forall|x: StageKind| #[trigger]
            kept_stages(stages, stages[p].kind, n).contains(x) ==> x.position() < n,
        redone_stages(stages, stages[p].kind, n) == Seq::new(
            if n <= p {
                0
            } else {
                (n - p) as nat
            },
            |i: int| stages[p + i].kind,
        ),
    decreases n,
{
    let start = stages[p].kind;
    if n > 0 {
        lemma_kept(stages, p, n - 1);
        let front = kept_stages(stages, start, n - 1);
        let all = kept_stages(stages, start, n);
        let kind = stages[n - 1].kind;
        assert(kind.position() == n - 1);
        assert(start.position() == p);
        assert(all == front || all == front.push(kind));
        assert forall|x: StageKind| #[trigger] all.contains(x) implies front.contains(x) || (all
            == front.push(kind) && x == kind) by {
            let k = choose|k: int| 0 <= k < all.len() && all[k] == x;
            if all == front.push(kind) && k < front.len() {
                assert(front[k] == x);
            }
        }
        assert forall|x: StageKind| #[trigger] front.contains(x) implies all.contains(x) by {
            let k = choose|k: int| 0 <= k < front.len() && front[k] == x;
            assert(all[k] == x);
        }
        if all == front.push(kind) {
            assert(all[front.len() as int] == kind);
        }
        assert forall|i: int| 0 <= i < n implies (all.contains((#[trigger] stages[i]).kind) <==> i
            < p && (stages[i].status == StageStatus::Done || stages[i].status
            == StageStatus::DoneDegraded || stages[i].status == StageStatus::Skipped)) by {
            assert(stages[i].kind.position() == i);
            if i == n - 1 {
                assert(!front.contains(kind));
            }
        }
        assert(redone_stages(stages, start, n) =~= Seq::new(
            if n <= p {
                0
            } else {
                (n - p) as nat
            },
            |i: int| stages[p + i].kind,
        ));
    } else {
        assert(redone_stages(stages, start, n) =~= Seq::new(0, |i: int| stages[p + i].kind));
    }
}

/// What a retry does again is the stage where it begins and all behind it, in
/// their order. What it keeps is every stage before it that is done, done with
/// losses, or skipped.
pub proof fn law_retries_keep_what_is_complete(stages: Seq<StageState>, p: int)
    requires
        all_stages(stages),
        0 <= p < 7,
    ensures
        redone_stages(stages, stages[p].kind, 7) == Seq::new(
            (7 - p) as nat,
            |i: int| stages[p + i].kind,
        ),
        forall|i: int|
            0 <= i < 7 ==> (kept_stages(stages, stages[p].kind, 7).contains(
                (#[trigger] stages[i]).kind,
            ) <==> i < p && (stages[i].status == StageStatus::Done || stages[i].status
                == StageStatus::DoneDegraded || stages[i].status == StageStatus::Skipped)),
{
    lemma_kept(stages, p, 7);
}

/// A retry puts the units of the stages that are done again back to the queue
/// and leaves those of earlier stages alone. A unit still in work refuses it.
pub proof fn law_units_of_redone_stages_are_reset(
    units: Seq<WorkUnitView>,
    start: StageKind,
    next: WorkUnitView,
    front: Seq<WorkUnitView>,
)
    requires
        reset_units(units, start, units.len() as int) == Ok::<
            Seq<WorkUnitView>,
            ApplicationErrorView,
        >(front),
    ensures
        ({
            let all = reset_units(units.push(next), start, units.len() as int + 1);
            &&& next.stage.position() < start.position() ==> all == Ok::<
                Seq<WorkUnitView>,
                ApplicationErrorView,
            >(front)
            &&& next.stage.position() >= start.position() ==> {
                &&& all is Err <==> next.status == WorkUnitStatus::Running
                &&& all matches Ok(reset) ==> {
                    &&& reset.len() == front.len() + 1
                    &&& reset.drop_last() == front
                    &&& reset.last().id == next.id && reset.last().status
                        == WorkUnitStatus::Pending
                    &&& next.status == WorkUnitStatus::Pending ==> reset.last() == next
                    &&& next.status == WorkUnitStatus::Done ==> reset.last().artifact is None
                        && reset.last().error_code == Some("RETRY_INVALIDATED"@)
                        && reset.last().attempt == next.attempt
                    &&& (next.status == WorkUnitStatus::Failed || next.status
                        == WorkUnitStatus::Cancelled) && next.attempt < u32::MAX
                        ==> reset.last().attempt == next.attempt + 1
                        && reset.last().error_code is None && reset.last().artifact is None
                }
            }
        }),
{
    lemma_reset_prefix(units, units.push(next), start, units.len() as int);
    if let Ok(after) = unit_after_retry(next) {
        assert(front.push(after).drop_last() =~= front);
    }
}

proof fn lemma_reset_prefix(
    a: Seq<WorkUnitView>,
    b: Seq<WorkUnitView>,
    start: StageKind,
    n: int,
)
    requires
        n <= a.len() <= b.len(),
        forall|i: int| 0 <= i < a.len() ==> a[i] == b[i],
    ensures
        reset_units(a, start, n) == reset_units(b, start, n),
    decreases n,
{
    if n > 0 {
        lemma_reset_prefix(a, b, start, n - 1);
    }
}

/// Only jobs that failed, lost something or were cancelled are tried again, and
/// only with the settings that they were started with.
pub proof fn law_ended_jobs_are_admitted(id: Seq<char>, job: JobView)
    ensures
        retry_refusal(id, None) is Some,
        retry_refusal(id, Some(job)) is None <==> job.execution_snapshot_id is Some && (job.status
            == JobStatus::Failed || job.status == JobStatus::DoneDegraded || job.status
            == JobStatus::Cancelled),
{
}

/// The plan of a retry tells which job is tried again, from where, what is kept
/// and done again, and which units are put back.
pub proof fn law_plans_tell_what_is_done(
    job: JobView,
    start: StageKind,
    reset: Seq<WorkUnitView>,
    output_path: Seq<char>,
    dry_run: bool,
    plan: RetryPlan,
    i: int,
)
    requires
        is_retry_plan(job, start, reset, output_path, dry_run, plan),
    ensures
        plan.job_id == job.id && plan.batch_id == job.batch_id && plan.start_stage == start,
        plan.reused_artifacts@ == kept_stages(job.stages, start, job.stages.len() as int),
        plan.invalidated_stages@ == redone_stages(job.stages, start, job.stages.len() as int),
        plan.work_units_to_reset@.len() == reset.len(),
        0 <= i < reset.len() ==> plan.work_units_to_reset@[i]@ == reset[i].id@,
        plan.output_path@ == output_path && plan.needs_runtime && plan.dry_run == dry_run,
{
    assert(text_views(plan.work_units_to_reset@).len() == unit_ids(reset).len());
    if 0 <= i < reset.len() {
        assert(text_views(plan.work_units_to_reset@)[i] == unit_ids(reset)[i]);
    }
}

/// The event of a retry names the job, where it begins, what is done again and
/// which try it is.
pub proof fn law_retries_are_announced(
    job_id: Seq<char>,
    start: StageKind,
    generation: u32,
    redone: Seq<StageKind>,
    i: int,
)
    ensures
        retry_payload(job_id, start, generation, redone) == object(
            seq![
                member("invalidated_stages"@, array(stage_literals(redone))),
                member("job_id"@, json_quoted(job_id)),
                member("retry_generation"@, decimal(generation as nat)),
                member("start_stage"@, json_quoted(start.text())),
            ],
        ),
        stage_literals(redone).len() == redone.len(),
        0 <= i < redone.len() ==> stage_literals(redone)[i] == json_quoted(redone[i].text()),
{
}

/// A refused retry tells why.
pub proof fn law_refused_retries_tell_why(id: Seq<char>, job: JobView)
    ensures
        retry_refusal(id, None) == Some(ApplicationErrorView::Invalid("Job "@ + id + " not found"@)),
        job.status == JobStatus::Running ==> retry_refusal(id, Some(job)) == Some(
            ApplicationErrorView::Invalid(
                "Job "@ + id + (" is "@ + "Running"@
                    + "; only Failed/DoneDegraded/Cancelled Jobs can be retried"@),
            ),
        ),
        job.status == JobStatus::Failed && job.execution_snapshot_id is None ==> retry_refusal(
            id,
            Some(job),
        ) == Some(
            ApplicationErrorView::Invalid(
                "Job "@ + id + " has no execution snapshot and cannot be retried"@,
            ),
        ),
{
}

} // verus!
