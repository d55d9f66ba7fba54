//! Edits of a transcript by its user. An edit names the revision that it was
//! made on, and is written to a file of its own.
use vstd::prelude::*;
use vstd::string::*;

use crate::contracts::{AppResult, ApplicationError, ApplicationErrorView};
use crate::error::DomainErrorView;
use crate::identity::JobId;
use crate::paths::{below, join_path};
use crate::subtitle::revision::edit_outcome;
use crate::subtitle::transcript::{LlmTextField, Transcript, TranscriptView};
use crate::text::{chars_of, decimal, push_decimal, string_of};
use crate::workflow::job::{Job, JobView};
use crate::workflow::stage::{ArtifactRef, StageKind, StageStatus};

use super::job_ops::all_stages;
use super::run_batch::{about_job, job_error};
use super::transcribe_job::commit::{
    artifact_of, is_done, lemma_position_is_in_range, stage_artifact, stage_is_done,
};

verus! {

/// What the user wants to be written.
#[derive(Debug, PartialEq, Eq)]
pub struct EditTranscriptCommand {
    pub job_id: JobId,
    pub cue_id: u32,
    pub expected_transcript_revision: u64,
    pub field: LlmTextField,
    pub value: String,
}

/// What was written.
#[derive(Debug)]
pub struct EditTranscriptResponse {
    pub transcript: Transcript,
    pub stage: StageKind,
}

/// The job whose transcript is edited.
pub fn edited_job(job: Option<Job>, job_id: &JobId) -> (result: AppResult<Job>)
    ensures
        match job {
            Some(job) => result == Ok::<Job, ApplicationError>(job),
            None => result matches Err(error) && error@ == about_job(job_id@, " not found"@),
        },
{
    match job {
        Some(job) => Ok(job),
        None => Err(job_error(job_id.as_str(), " not found")),
    }
}

/// The stage is complete and has left a file.
pub open spec fn has_result(job: JobView, kind: StageKind) -> bool {
    is_done(job, kind) && artifact_of(job, kind) is Ok
}

/// The stage whose transcript counts: the last one that is complete.
pub open spec fn latest_stage(job: JobView) -> Option<StageKind> {
    if has_result(job, StageKind::Translate) {
        Some(StageKind::Translate)
    } else if has_result(job, StageKind::Correct) {
        Some(StageKind::Correct)
    } else if has_result(job, StageKind::Split) {
        Some(StageKind::Split)
    } else if has_result(job, StageKind::Asr) {
        Some(StageKind::Asr)
    } else {
        None
    }
}

/// The transcript that counts, with its stage.
pub open spec fn latest(job: JobView) -> Result<(StageKind, ArtifactRef), ApplicationErrorView> {
    match latest_stage(job) {
        Some(kind) => Ok((kind, artifact_of(job, kind)->Ok_0)),
        None => Err(about_job(job.id@, " has no committed transcript artifact"@)),
    }
}

fn result_of(job: &Job, kind: StageKind) -> (artifact: Option<ArtifactRef>)
    ensures
        match artifact {
            Some(artifact) => has_result(job@, kind) && artifact_of(job@, kind) == Ok::<
                ArtifactRef,
                ApplicationErrorView,
            >(artifact),
            None => !has_result(job@, kind),
        },
{
    if !stage_is_done(job, kind) {
        return None;
    }
    match stage_artifact(job, kind) {
        Ok(artifact) => Some(artifact),
        Err(_) => None,
    }
}

pub fn latest_transcript_artifact(job: &Job) -> (result: AppResult<(StageKind, ArtifactRef)>)
    ensures
        match result {
            Ok(found) => latest(job@) == Ok::<(StageKind, ArtifactRef), ApplicationErrorView>(found),
            Err(error) => latest(job@) == Err::<(StageKind, ArtifactRef), ApplicationErrorView>(
                error@,
            ),
        },
{
    if let Some(artifact) = result_of(job, StageKind::Translate) {
        return Ok((StageKind::Translate, artifact));
    }
    if let Some(artifact) = result_of(job, StageKind::Correct) {
        return Ok((StageKind::Correct, artifact));
    }
    if let Some(artifact) = result_of(job, StageKind::Split) {
        return Ok((StageKind::Split, artifact));
    }
    if let Some(artifact) = result_of(job, StageKind::Asr) {
        return Ok((StageKind::Asr, artifact));
    }
    Err(job_error(job.id().as_str(), " has no committed transcript artifact"))
}

/// The transcript with the edit, or why the edit is refused.
pub fn edit(transcript: &Transcript, command: EditTranscriptCommand) -> (result: AppResult<
    Transcript,
>)
    ensures
        ({
            let expected = edit_outcome(
                transcript@,
                command.cue_id,
                command.expected_transcript_revision,
                command.field,
                command.value,
            );
            match result {
                Ok(edited) => expected == Ok::<TranscriptView, DomainErrorView>(edited@),
                Err(error) => error@ matches ApplicationErrorView::Domain(e) && expected == Err::<
                    TranscriptView,
                    DomainErrorView,
                >(e),
            }
        }),
{
    let edited = match command.field {
        LlmTextField::Source => transcript.edit_text(
            command.cue_id,
            command.expected_transcript_revision,
            command.value,
        ),
        LlmTextField::Translation => transcript.edit_translation(
            command.cue_id,
            command.expected_transcript_revision,
            command.value,
        ),
    };
    match edited {
        Ok(transcript) => Ok(transcript),
        Err(error) => Err(ApplicationError::Domain(error)),
    }
}

/// Let the job speak of the file of an edit.
pub fn record_edit(job: &mut Job, stage: StageKind, artifact: ArtifactRef) -> (result: AppResult<()>)
    ensures
        match old(job)@.revision_recorded(stage, artifact) {
            Ok(after) => result is Ok && final(job)@ == after,
            Err(expected) => result matches Err(error) && error@ == ApplicationErrorView::Domain(
                expected,
            ) && final(job)@ == old(job)@,
        },
{
    match job.record_transcript_revision(stage, artifact) {
        Ok(_) => Ok(()),
        Err(error) => Err(ApplicationError::Domain(error)),
    }
}

/// A path without what stands for nothing at its end: slashes, and dots behind a
/// slash. The root stays.
pub open spec fn cut(path: Seq<char>) -> Seq<char>
    decreases path.len(),
{
    if path.len() > 1 && path.last() == '/' {
        cut(path.drop_last())
    } else if path.len() > 1 && path.last() == '.' && path[path.len() - 2] == '/' {
        cut(path.drop_last())
    } else {
        path
    }
}

/// Where the last part of a path begins, in front of `upto`.
pub open spec fn part_start(path: Seq<char>, upto: int) -> int
    decreases upto,
{
    if upto <= 0 || path[upto - 1] == '/' {
        upto
    } else {
        part_start(path, upto - 1)
    }
}

/// The name of the file at a path, if it names one.
pub open spec fn name_at(path: Seq<char>) -> Option<Seq<char>> {
    let whole = cut(path);
    let name = whole.subrange(part_start(whole, whole.len() as int), whole.len() as int);
    if name.len() == 0 || name == "."@ || name == ".."@ {
        None
    } else {
        Some(name)
    }
}

/// The directory of the file at a path; the current one where there is none.
pub open spec fn dir_at(path: Seq<char>) -> Seq<char> {
    let whole = cut(path);
    if whole.len() == 0 || whole == "/"@ {
        "."@
    } else {
        cut(whole.subrange(0, part_start(whole, whole.len() as int)))
    }
}

/// The position of the last dot in front of `upto` that has something before it.
pub open spec fn dot_at(name: Seq<char>, upto: int) -> Option<int>
    decreases upto,
{
    if upto <= 1 {
        None
    } else if name[upto - 1] == '.' {
        Some(upto - 1)
    } else {
        dot_at(name, upto - 1)
    }
}

/// The stem and the ending of a file name. One that begins with its only dot has
/// no ending.
pub open spec fn stem_and_ending(name: Seq<char>) -> (Seq<char>, Option<Seq<char>>) {
    match dot_at(name, name.len() as int) {
        Some(d) => (name.subrange(0, d), Some(name.subrange(d + 1, name.len() as int))),
        None => (name, None),
    }
}

/// The name of the file of a revision.
pub open spec fn revision_name(path: Seq<char>, revision: u64) -> Seq<char> {
    let (stem, ending) = match name_at(path) {
        Some(name) => stem_and_ending(name),
        None => ("transcript"@, None),
    };
    let ending = match ending {
        Some(ending) => ending,
        None => "json"@,
    };
    stem + ".user-r"@ + decimal(revision as nat) + "."@ + ending
}

/// The path of the file of a revision, beside the file before it.
pub open spec fn revision_path(path: Seq<char>, revision: u64) -> Seq<char> {
    below(dir_at(path), revision_name(path, revision))
}

fn cut_end(chars: &Vec<char>, upto: usize) -> (end: usize)
    requires
        upto <= chars@.len(),
    ensures
        end <= upto,
        cut(chars@.subrange(0, upto as int)) == chars@.subrange(0, end as int),
{
    let mut end: usize = upto;
    while end > 1 && (chars[end - 1] == '/' || (chars[end - 1] == '.' && chars[end - 2] == '/'))
        invariant
            end <= upto <= chars@.len(),
            cut(chars@.subrange(0, upto as int)) == cut(chars@.subrange(0, end as int)),
        decreases end,
    {
        end -= 1;
        assert(chars@.subrange(0, end as int) =~= chars@.subrange(0, end + 1).drop_last());
    }
    end
}

proof fn lemma_part_start_of_prefix(path: Seq<char>, end: int, upto: int)
    requires
        0 <= upto <= end <= path.len(),
    ensures
        part_start(path.subrange(0, end), upto) == part_start(path, upto),
        0 <= part_start(path, upto) <= upto,
    decreases upto,
{
    if upto > 0 && path[upto - 1] != '/' {
        lemma_part_start_of_prefix(path, end, upto - 1);
    }
}

fn find_part_start(chars: &Vec<char>, end: usize) -> (start: usize)
    requires
        end <= chars@.len(),
    ensures
        start <= end,
        start == part_start(chars@.subrange(0, end as int), end as int),
{
    let mut start: usize = end;
    while start > 0 && chars[start - 1] != '/'
        invariant
            start <= end <= chars@.len(),
            part_start(chars@, end as int) == part_start(chars@, start as int),
        decreases start,
    {
        start -= 1;
    }
    proof {
        lemma_part_start_of_prefix(chars@, end as int, end as int);
    }
    start
}

proof fn lemma_dot_of_part(path: Seq<char>, from: int, end: int, upto: int)
    requires
        0 <= from <= end <= path.len(),
        0 <= upto <= end - from,
    ensures
        match dot_at(path.subrange(from, end), upto) {
            Some(d) => 0 < d < upto,
            None => true,
        },
    decreases upto,
{
    if upto > 1 && path[from + upto - 1] != '.' {
        lemma_dot_of_part(path, from, end, upto - 1);
    }
}

/// The path of the file of a revision, beside the file before it.
pub fn next_revision_path(path: &str, revision: u64) -> (next: String)
    ensures
        next@ == revision_path(path@, revision),
{
    let chars = chars_of(path);
    let end: usize = cut_end(&chars, chars.len());
    let start: usize = find_part_start(&chars, end);
    let ghost whole = cut(path@);
    let ghost name = chars@.subrange(start as int, end as int);
    assert(chars@.subrange(0, chars@.len() as int) =~= path@);
    assert(whole.subrange(start as int, end as int) =~= name);
    proof {
        reveal_strlit(".");
        reveal_strlit("..");
        reveal_strlit("/");
    }
    let nothing = end == start;
    let dot = end - start == 1 && chars[start] == '.';
    let dots = end - start == 2 && chars[start] == '.' && chars[start + 1] == '.';
    proof {
        assert("."@.len() == 1 && "."@[0] == '.');
        assert(".."@.len() == 2 && ".."@[0] == '.' && ".."@[1] == '.');
        if end - start == 1 {
            assert(name[0] == chars@[start as int]);
        }
        if end - start == 2 {
            assert(name[0] == chars@[start as int] && name[1] == chars@[start + 1]);
        }
        if dot {
            assert(name =~= "."@);
        }
        if dots {
            assert(name =~= ".."@);
        }
    }
    let mut file = String::new();
    if nothing || dot || dots {
        file.append("transcript.user-r");
        push_decimal(&mut file, revision);
        file.append(".json");
        proof {
            reveal_strlit("transcript.user-r");
            reveal_strlit("transcript");
            reveal_strlit(".user-r");
            reveal_strlit(".json");
            reveal_strlit("json");
            assert("transcript.user-r"@ =~= "transcript"@ + ".user-r"@);
            assert(".json"@ =~= "."@ + "json"@);
            assert(file@ =~= revision_name(path@, revision));
        }
    } else {
        let mut d: usize = end - start;
        while d > 1 && chars[start + d - 1] != '.'
            invariant
                start + d <= end <= chars@.len(),
                name == chars@.subrange(start as int, end as int),
                dot_at(name, name.len() as int) == dot_at(name, d as int),
            decreases d,
        {
            d -= 1;
        }
        if d > 1 {
            let stem = string_of(&chars, start, start + d - 1);
            let ending = string_of(&chars, start + d, end);
            assert(stem@ =~= name.subrange(0, d - 1));
            assert(ending@ =~= name.subrange(d as int, name.len() as int));
            file.append(stem.as_str());
            file.append(".user-r");
            push_decimal(&mut file, revision);
            file.append(".");
            file.append(ending.as_str());
        } else {
            let stem = string_of(&chars, start, end);
            assert(stem@ =~= name);
            file.append(stem.as_str());
            file.append(".user-r");
            push_decimal(&mut file, revision);
            file.append(".");
            file.append("json");
        }
        assert(file@ =~= revision_name(path@, revision));
    }
    let root = end == 1 && chars[0] == '/';
    assert(root == (whole =~= "/"@));
    let dir = if end == 0 || root {
        ".".to_owned()
    } else {
        let dir_end: usize = cut_end(&chars, start);
        assert(whole.subrange(0, start as int) =~= chars@.subrange(0, start as int));
        string_of(&chars, 0, dir_end)
    };
    assert(dir@ =~= dir_at(path@));
    join_path(dir.as_str(), file.as_str())
}

/// After an edit was recorded, its file is the one that readers get.
pub proof fn law_edits_reach_the_next_reader(
    job: JobView,
    stage: StageKind,
    before: ArtifactRef,
    artifact: ArtifactRef,
)
    requires
        latest(job) == Ok::<(StageKind, ArtifactRef), ApplicationErrorView>((stage, before)),
        artifact.stage == stage,
    ensures
        job.revision_recorded(stage, artifact) matches Ok(after) && latest(after) == Ok::<
            (StageKind, ArtifactRef),
            ApplicationErrorView,
        >((stage, artifact)),
{
    lemma_position_is_in_range(job.stages, stage, 0);
    if let Ok(after) = job.revision_recorded(stage, artifact) {
        lemma_same_positions(job, after, StageKind::Translate);
        lemma_same_positions(job, after, StageKind::Correct);
        lemma_same_positions(job, after, StageKind::Split);
        lemma_same_positions(job, after, StageKind::Asr);
        lemma_position_is_in_range(job.stages, StageKind::Translate, 0);
        lemma_position_is_in_range(job.stages, StageKind::Correct, 0);
        lemma_position_is_in_range(job.stages, StageKind::Split, 0);
        lemma_position_is_in_range(job.stages, StageKind::Asr, 0);
    }
}

proof fn lemma_same_positions(a: JobView, b: JobView, kind: StageKind)
    requires
        a.stages.len() == b.stages.len(),
        forall|i: int| 0 <= i < a.stages.len() ==> (#[trigger] a.stages[i]).kind == b.stages[i].kind,
    ensures
        a.position(kind) == b.position(kind),
{
    lemma_same_positions_from(a, b, kind, 0);
}

proof fn lemma_same_positions_from(a: JobView, b: JobView, kind: StageKind, from: int)
    requires
        0 <= from,
        a.stages.len() == b.stages.len(),
        forall|i: int| 0 <= i < a.stages.len() ==> (#[trigger] a.stages[i]).kind == b.stages[i].kind,
    ensures
        crate::workflow::job::stage_position(a.stages, kind, from)
            == crate::workflow::job::stage_position(b.stages, kind, from),
    decreases a.stages.len() - from,
{
    if from < a.stages.len() && a.stages[from].kind != kind {
        lemma_same_positions_from(a, b, kind, from + 1);
    }
}

/// The file of an edit has a name of its own: the file before it stays.
pub proof fn law_edits_keep_the_file_before(path: Seq<char>, revision: u64)
    ensures
        name_at(path) != Some(revision_name(path, revision)),
{
    reveal_strlit(".user-r");
    reveal_strlit(".");
    if let Some(name) = name_at(path) {
        lemma_dot_of_part(name, 0, name.len() as int, name.len() as int);
        assert(name.subrange(0, name.len() as int) =~= name);
        assert(revision_name(path, revision).len() > name.len());
    }
}

/// The transcript that is shown and edited is the translation where that stage
/// is complete and has one, else the corrected transcript, else the split one,
/// else what was recognized. A job without any is refused.
pub proof fn law_the_furthest_transcript_is_edited(job: JobView)
    requires
        all_stages(job.stages),
    ensures
        complete_with_artifact(job, 5) ==> latest(job) == Ok::<
            (StageKind, ArtifactRef),
            ApplicationErrorView,
        >((StageKind::Translate, job.stages[5].artifact->0)),
        !complete_with_artifact(job, 5) && complete_with_artifact(job, 4) ==> latest(job) == Ok::<
            (StageKind, ArtifactRef),
            ApplicationErrorView,
        >((StageKind::Correct, job.stages[4].artifact->0)),
        !complete_with_artifact(job, 5) && !complete_with_artifact(job, 4)
            && complete_with_artifact(job, 3) ==> latest(job) == Ok::<
            (StageKind, ArtifactRef),
            ApplicationErrorView,
        >((StageKind::Split, job.stages[3].artifact->0)),
        !complete_with_artifact(job, 5) && !complete_with_artifact(job, 4)
            && !complete_with_artifact(job, 3) && complete_with_artifact(job, 2) ==> latest(job)
            == Ok::<(StageKind, ArtifactRef), ApplicationErrorView>(
            (StageKind::Asr, job.stages[2].artifact->0),
        ),
        !complete_with_artifact(job, 5) && !complete_with_artifact(job, 4)
            && !complete_with_artifact(job, 3) && !complete_with_artifact(job, 2) ==> latest(
            job,
        ) is Err,
{
    reveal_with_fuel(crate::workflow::job::stage_position, 8);
}

/// The stage at `p` is done, with or without losses, and has left an artifact.
pub open spec fn complete_with_artifact(job: JobView, p: int) -> bool {
    &&& job.stages[p].status == StageStatus::Done || job.stages[p].status
        == StageStatus::DoneDegraded
    &&& job.stages[p].artifact is Some
}

proof fn lemma_part_begins(path: Seq<char>, at: int, upto: int)
    requires
        0 < at <= upto <= path.len(),
        path[at - 1] == '/',
        forall|i: int| at <= i < upto ==> #[trigger] path[i] != '/',
    ensures
        part_start(path, upto) == at,
    decreases upto - at,
{
    if upto > at {
        assert(path[upto - 1] != '/');
        lemma_part_begins(path, at, upto - 1);
    }
}

proof fn lemma_last_dot(name: Seq<char>, at: int, upto: int)
    requires
        0 < at < upto <= name.len(),
        name[at] == '.',
        forall|i: int| at < i < upto ==> #[trigger] name[i] != '.',
    ensures
        dot_at(name, upto) == Some(at),
    decreases upto - at,
{
    if upto > at + 1 {
        assert(name[upto - 1] != '.');
        lemma_last_dot(name, at, upto - 1);
    }
}

/// An edit is written beside the file before it: in the same directory, under
/// the same name with the number of the revision in front of the ending.
pub proof fn law_edits_are_written_beside_the_file(
    dir: Seq<char>,
    stem: Seq<char>,
    ending: Seq<char>,
    revision: u64,
)
    requires
        dir.len() > 0,
        dir.last() != '/' && dir.last() != '.',
        stem.len() > 0,
        ending.len() > 0,
        forall|i: int| 0 <= i < stem.len() ==> #[trigger] stem[i] != '/',
        forall|i: int| 0 <= i < ending.len() ==> #[trigger] ending[i] != '/' && ending[i] != '.',
    ensures
        revision_path(dir + "/"@ + stem + "."@ + ending, revision) == dir + "/"@ + stem + ".user-r"@
            + decimal(revision as nat) + "."@ + ending,
{
    reveal_strlit("/");
    reveal_strlit(".");
    reveal_strlit("..");
    reveal_strlit(".user-r");
    let path = dir + "/"@ + stem + "."@ + ending;
    let name = stem + "."@ + ending;
    let at = dir.len() as int + 1;
    assert(path.last() == ending.last());
    assert(ending[ending.len() - 1] != '/' && ending[ending.len() - 1] != '.');
    assert(cut(path) == path);
    assert forall|i: int| at <= i < path.len() implies #[trigger] path[i] != '/' by {
        if i < at + stem.len() {
            assert(path[i] == stem[i - at]);
        } else if i > at + stem.len() {
            assert(path[i] == ending[i - at - stem.len() - 1]);
        }
    }
    lemma_part_begins(path, at, path.len() as int);
    assert(path.subrange(at, path.len() as int) =~= name);
    assert(name.last() == ending.last());
    assert(name != "."@ && name != ".."@) by {
        assert(name.last() != '.');
        assert("."@.last() == '.' && ".."@.last() == '.');
    }
    let s = stem.len() as int;
    assert forall|i: int| s < i < name.len() implies #[trigger] name[i] != '.' by {
        assert(name[i] == ending[i - s - 1]);
    }
    lemma_last_dot(name, s, name.len() as int);
    assert(name.subrange(0, s) =~= stem);
    assert(name.subrange(s + 1, name.len() as int) =~= ending);
    let whole = path.subrange(0, at);
    assert(whole.last() == '/');
    assert(whole.drop_last() =~= dir);
    assert(cut(dir) == dir);
    assert(cut(whole) == dir);
    assert(path[0] == dir[0]);
    assert(path.len() > 1);
    assert(dir_at(path) == dir);
    let file = stem + ".user-r"@ + decimal(revision as nat) + "."@ + ending;
    assert(revision_name(path, revision) == file);
    assert(file[0] == stem[0]);
    assert(below(dir, file) =~= dir + "/"@ + stem + ".user-r"@ + decimal(revision as nat) + "."@
        + ending);
}

} // verus!
