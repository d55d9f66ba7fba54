//! Stages of a job, their states and the artifacts they leave.
use vstd::prelude::*;
use vstd::string::*;

use crate::identity::UlidStr;
use crate::text::{lower, same_text, to_lower, trim, trimmed};

verus! {

#[derive(Debug, Clone, Copy, PartialEq, Eq, Structural)]
pub enum JobStatus {
    Pending,
    Running,
    Done,
    DoneDegraded,
    Failed,
    Cancelled,
}

impl JobStatus {
    pub open spec fn terminal(self) -> bool {
        self != JobStatus::Pending && self != JobStatus::Running
    }

    pub fn is_terminal(self) -> (answer: bool)
        ensures
            answer == self.terminal(),
    {
        matches!(
            self,
            JobStatus::Done | JobStatus::DoneDegraded | JobStatus::Failed | JobStatus::Cancelled
        )
    }

    /// The name of the variant.
    pub open spec fn name_text(self) -> Seq<char> {
        match self {
            JobStatus::Pending => "Pending"@,
            JobStatus::Running => "Running"@,
            JobStatus::Done => "Done"@,
            JobStatus::DoneDegraded => "DoneDegraded"@,
            JobStatus::Failed => "Failed"@,
            JobStatus::Cancelled => "Cancelled"@,
        }
    }

    pub fn name(self) -> (name: &'static str)
        ensures
            name@ == self.name_text(),
    {
        match self {
            JobStatus::Pending => "Pending",
            JobStatus::Running => "Running",
            JobStatus::Done => "Done",
            JobStatus::DoneDegraded => "DoneDegraded",
            JobStatus::Failed => "Failed",
            JobStatus::Cancelled => "Cancelled",
        }
    }

    /// The name under which the status is written to event payloads.
    pub open spec fn wire_text(self) -> Seq<char> {
        match self {
            JobStatus::Pending => "pending"@,
            JobStatus::Running => "running"@,
            JobStatus::Done => "done"@,
            JobStatus::DoneDegraded => "done_degraded"@,
            JobStatus::Failed => "failed"@,
            JobStatus::Cancelled => "cancelled"@,
        }
    }

    pub fn wire_name(self) -> (name: &'static str)
        ensures
            name@ == self.wire_text(),
    {
        match self {
            JobStatus::Pending => "pending",
            JobStatus::Running => "running",
            JobStatus::Done => "done",
            JobStatus::DoneDegraded => "done_degraded",
            JobStatus::Failed => "failed",
            JobStatus::Cancelled => "cancelled",
        }
    }
}

#[derive(Debug, Clone, Copy, PartialEq, Eq, Structural)]
pub enum StageKind {
    Probe,
    ExtractAudio,
    Asr,
    Split,
    Correct,
    Translate,
    Export,
}

impl StageKind {
    /// The name of the stage in stored records.
    pub open spec fn text(self) -> Seq<char> {
        match self {
            StageKind::Probe => "probe"@,
            StageKind::ExtractAudio => "extract_audio"@,
            StageKind::Asr => "asr"@,
            StageKind::Split => "split"@,
            StageKind::Correct => "correct"@,
            StageKind::Translate => "translate"@,
            StageKind::Export => "export"@,
        }
    }

    pub fn as_str(self) -> (name: &'static str)
        ensures
            name@ == self.text(),
    {
        match self {
            StageKind::Probe => "probe",
            StageKind::ExtractAudio => "extract_audio",
            StageKind::Asr => "asr",
            StageKind::Split => "split",
            StageKind::Correct => "correct",
            StageKind::Translate => "translate",
            StageKind::Export => "export",
        }
    }

    /// The stage that `key` names exactly.
    pub open spec fn named(key: Seq<char>) -> Option<StageKind> {
        if key == "probe"@ {
            Some(StageKind::Probe)
        } else if key == "extract_audio"@ || key == "extract-audio"@ {
            Some(StageKind::ExtractAudio)
        } else if key == "asr"@ {
            Some(StageKind::Asr)
        } else if key == "split"@ {
            Some(StageKind::Split)
        } else if key == "correct"@ {
            Some(StageKind::Correct)
        } else if key == "translate"@ {
            Some(StageKind::Translate)
        } else if key == "export"@ {
            Some(StageKind::Export)
        } else {
            None
        }
    }

    /// Read a stage name, whatever its case and the white space around it.
    pub fn parse(value: &str) -> (kind: Option<Self>)
        ensures
            kind == Self::named(lower(trimmed(value@))),
    {
        let trimmed_value = trim(value);
        let lowered = to_lower(trimmed_value.as_str());
        let key = lowered.as_str();
        if same_text(key, "probe") {
            Some(StageKind::Probe)
        } else if same_text(key, "extract_audio") || same_text(key, "extract-audio") {
            Some(StageKind::ExtractAudio)
        } else if same_text(key, "asr") {
            Some(StageKind::Asr)
        } else if same_text(key, "split") {
            Some(StageKind::Split)
        } else if same_text(key, "correct") {
            Some(StageKind::Correct)
        } else if same_text(key, "translate") {
            Some(StageKind::Translate)
        } else if same_text(key, "export") {
            Some(StageKind::Export)
        } else {
            None
        }
    }

    /// The name of the variant.
    pub open spec fn name_text(self) -> Seq<char> {
        match self {
            StageKind::Probe => "Probe"@,
            StageKind::ExtractAudio => "ExtractAudio"@,
            StageKind::Asr => "Asr"@,
            StageKind::Split => "Split"@,
            StageKind::Correct => "Correct"@,
            StageKind::Translate => "Translate"@,
            StageKind::Export => "Export"@,
        }
    }

    pub fn name(self) -> (name: &'static str)
        ensures
            name@ == self.name_text(),
    {
        match self {
            StageKind::Probe => "Probe",
            StageKind::ExtractAudio => "ExtractAudio",
            StageKind::Asr => "Asr",
            StageKind::Split => "Split",
            StageKind::Correct => "Correct",
            StageKind::Translate => "Translate",
            StageKind::Export => "Export",
        }
    }

    /// The position of the stage in the pipeline.
    pub open spec fn position(self) -> int {
        match self {
            StageKind::Probe => 0,
            StageKind::ExtractAudio => 1,
            StageKind::Asr => 2,
            StageKind::Split => 3,
            StageKind::Correct => 4,
            StageKind::Translate => 5,
            StageKind::Export => 6,
        }
    }
}

/// Reading back the name of a stage gives the stage.
pub proof fn law_parse_reads_stage_names(kind: StageKind)
    ensures
        StageKind::named(lower(trimmed(kind.text()))) == Some(kind),
{
    reveal_strlit("probe");
    reveal_strlit("extract_audio");
    reveal_strlit("extract-audio");
    reveal_strlit("asr");
    reveal_strlit("split");
    reveal_strlit("correct");
    reveal_strlit("translate");
    reveal_strlit("export");
    assert(lower(trimmed(kind.text())) =~= kind.text());
    assert("asr"@.len() == 3 && "extract_audio"@.len() == 13 && "export"@.len() == 6);
    assert("probe"@[0] == 'p' && "split"@[0] == 's' && "translate"@[0] == 't' && "correct"@[0]
        == 'c' && "export"@[0] == 'e' && "asr"@[0] == 'a' && "extract_audio"@[0] == 'e'
        && "extract-audio"@[0] == 'e');
    assert("extract-audio"@.len() == 13);
}

#[derive(Debug, Clone, Copy, PartialEq, Eq, Structural)]
pub enum StageStatus {
    Pending,
    WaitingResource,
    Running,
    Retrying,
    Done,
    DoneDegraded,
    Failed,
    Skipped,
    Cancelled,
    WaitingProvider,
}

impl StageStatus {
    pub open spec fn terminal(self) -> bool {
        ||| self == StageStatus::Done
        ||| self == StageStatus::DoneDegraded
        ||| self == StageStatus::Failed
        ||| self == StageStatus::Skipped
        ||| self == StageStatus::Cancelled
    }

    pub fn is_terminal(self) -> (answer: bool)
        ensures
            answer == self.terminal(),
    {
        matches!(
            self,
            StageStatus::Done | StageStatus::DoneDegraded | StageStatus::Failed
                | StageStatus::Skipped | StageStatus::Cancelled
        )
    }

    /// A stage behind this one may start.
    pub open spec fn satisfied(self) -> bool {
        ||| self == StageStatus::Done
        ||| self == StageStatus::DoneDegraded
        ||| self == StageStatus::Skipped
    }

    pub(crate) fn prerequisite_satisfied(self) -> (answer: bool)
        ensures
            answer == self.satisfied(),
    {
        matches!(self, StageStatus::Done | StageStatus::DoneDegraded | StageStatus::Skipped)
    }

    /// The stage is being worked on.
    pub open spec fn in_flight(self) -> bool {
        self == StageStatus::Running || self == StageStatus::Retrying
    }

    pub(crate) fn is_in_flight(self) -> (answer: bool)
        ensures
            answer == self.in_flight(),
    {
        matches!(self, StageStatus::Running | StageStatus::Retrying)
    }

    /// A retry without a chosen stage begins at such a stage.
    pub open spec fn needs_retry(self) -> bool {
        ||| self == StageStatus::Failed
        ||| self == StageStatus::Cancelled
        ||| self == StageStatus::WaitingProvider
    }

    pub(crate) fn is_retry_start(self) -> (answer: bool)
        ensures
            answer == self.needs_retry(),
    {
        matches!(self, StageStatus::Failed | StageStatus::Cancelled | StageStatus::WaitingProvider)
    }

    /// The name of the variant.
    pub open spec fn name_text(self) -> Seq<char> {
        match self {
            StageStatus::Pending => "Pending"@,
            StageStatus::WaitingResource => "WaitingResource"@,
            StageStatus::Running => "Running"@,
            StageStatus::Retrying => "Retrying"@,
            StageStatus::Done => "Done"@,
            StageStatus::DoneDegraded => "DoneDegraded"@,
            StageStatus::Failed => "Failed"@,
            StageStatus::Skipped => "Skipped"@,
            StageStatus::Cancelled => "Cancelled"@,
            StageStatus::WaitingProvider => "WaitingProvider"@,
        }
    }

    pub fn name(self) -> (name: &'static str)
        ensures
            name@ == self.name_text(),
    {
        match self {
            StageStatus::Pending => "Pending",
            StageStatus::WaitingResource => "WaitingResource",
            StageStatus::Running => "Running",
            StageStatus::Retrying => "Retrying",
            StageStatus::Done => "Done",
            StageStatus::DoneDegraded => "DoneDegraded",
            StageStatus::Failed => "Failed",
            StageStatus::Skipped => "Skipped",
            StageStatus::Cancelled => "Cancelled",
            StageStatus::WaitingProvider => "WaitingProvider",
        }
    }
}

/// A committed file and what it was made from.
#[derive(Debug, PartialEq, Eq)]
pub struct ArtifactRef {
    pub id: UlidStr,
    pub stage: StageKind,
    pub path: String,
    pub content_hash: String,
    pub schema_version: u32,
    pub producer_fingerprint: String,
}

impl Clone for ArtifactRef {
    fn clone(&self) -> (copy: Self)
        ensures
            copy == *self,
    {
        ArtifactRef {
            id: self.id.clone(),
            stage: self.stage,
            path: self.path.clone(),
            content_hash: self.content_hash.clone(),
            schema_version: self.schema_version,
            producer_fingerprint: self.producer_fingerprint.clone(),
        }
    }
}

#[derive(Debug, PartialEq, Eq)]
pub struct StageState {
    pub kind: StageKind,
    pub status: StageStatus,
    pub artifact: Option<ArtifactRef>,
}

impl Clone for StageState {
    fn clone(&self) -> (copy: Self)
        ensures
            copy == *self,
    {
        StageState { kind: self.kind, status: self.status, artifact: self.artifact.clone() }
    }
}

} // verus!
