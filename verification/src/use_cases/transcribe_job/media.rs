//! The media file of a job: that it is the one that was asked for, and what is
//! kept of it and of its sound.
use vstd::prelude::*;
use vstd::string::*;

use crate::contracts::{
    AppResult, ApplicationError, ApplicationErrorView, ErrorCode, VcError, VcErrorView,
};
use crate::execution_snapshot::{JobExecutionSnapshot, SourceStatSnapshot};
use crate::identity::UlidStr;
use crate::text::same_text;
use crate::workflow::job::Job;
use crate::workflow::stage::{ArtifactRef, StageKind};

use super::commit::{artifact_of, stage_artifact};

verus! {

/// Version of the layout of stored records of a media file.
pub const PROBE_MANIFEST_SCHEMA_VERSION: u32 = 1;

/// Version of the layout of stored records of extracted sound.
pub const EXTRACT_MANIFEST_SCHEMA_VERSION: u32 = 1;

pub open spec fn source_changed(text: Seq<char>) -> ApplicationErrorView {
    ApplicationErrorView::Adapter(VcErrorView::plain(ErrorCode::SourceChanged, text))
}

/// Why a media file is not the one that was frozen, if so. Its size and time
/// are looked at only where the path is right.
pub open spec fn source_error(
    path: Seq<char>,
    current: Result<SourceStatSnapshot, ApplicationErrorView>,
    snapshot: JobExecutionSnapshot,
) -> Option<ApplicationErrorView> {
    if path != snapshot.canonical_source_path@ {
        Some(
            source_changed(
                "source path changed: expected "@ + snapshot.canonical_source_path@ + ", got "@
                    + path,
            ),
        )
    } else {
        match current {
            Err(error) => Some(error),
            Ok(stat) => if stat != snapshot.source_stat {
                Some(
                    source_changed(
                        "source size/mtime changed for "@ + snapshot.canonical_source_path@,
                    ),
                )
            } else {
                None
            },
        }
    }
}

/// Whether a media file is still the one that was frozen, given its size and
/// time.
pub fn validate_source_against_snapshot(
    path: &str,
    current: AppResult<SourceStatSnapshot>,
    snapshot: &JobExecutionSnapshot,
) -> (result: AppResult<()>)
    ensures
        ({
            let expected = source_error(
                path@,
                match current {
                    Ok(stat) => Ok(stat),
                    Err(error) => Err(error@),
                },
                *snapshot,
            );
            match result {
                Ok(_) => expected is None,
                Err(error) => expected == Some(error@),
            }
        }),
{
    if !same_text(path, snapshot.canonical_source_path.as_str()) {
        let mut text = "source path changed: expected ".to_owned();
        text.append(snapshot.canonical_source_path.as_str());
        text.append(", got ");
        text.append(path);
        return Err(ApplicationError::adapter(ErrorCode::SourceChanged, text.as_str()));
    }
    match current {
        Err(error) => Err(error),
        Ok(stat) => {
            if stat.size != snapshot.source_stat.size || stat.modified_at_ms
                != snapshot.source_stat.modified_at_ms {
                let mut text = "source size/mtime changed for ".to_owned();
                text.append(snapshot.canonical_source_path.as_str());
                return Err(ApplicationError::adapter(ErrorCode::SourceChanged, text.as_str()));
            }
            Ok(())
        },
    }
}

/// One sound track of a media file.
#[derive(Debug, PartialEq, Eq)]
pub struct AudioStream {
    pub stream_index: u32,
    pub codec: String,
    pub language: Option<String>,
    pub title: Option<String>,
    pub channels: u32,
    pub sample_rate: u32,
    pub is_default: bool,
}

/// What was found in a media file.
#[derive(Debug, PartialEq, Eq)]
pub struct MediaProbe {
    pub schema_version: u32,
    pub input_size: u64,
    pub container: Option<String>,
    pub duration_ms: u64,
    pub audio_streams: Vec<AudioStream>,
}

/// What is kept of a media file.
#[derive(Debug, PartialEq, Eq)]
pub struct ProbeManifest {
    pub schema_version: u32,
    pub source_path: String,
    pub source_stat: SourceStatSnapshot,
    pub source_hash: String,
    pub probe: MediaProbe,
    pub selected_stream_index: u32,
    pub producer: String,
}

pub open spec fn no_stream(text: Seq<char>) -> ApplicationErrorView {
    ApplicationErrorView::Adapter(VcErrorView::plain(ErrorCode::AudioStreamNotFound, text))
}

/// The sound track to use: the one that was chosen by its language, or else the
/// one that the file names as its default.
pub open spec fn selection(tracks: nat, chosen: Option<u32>, default: Option<u32>) -> Result<
    u32,
    ApplicationErrorView,
> {
    if tracks == 0 {
        Err(no_stream("no audio streams"@))
    } else {
        match chosen {
            Some(index) => Ok(index),
            None => match default {
                Some(index) => Ok(index),
                None => Err(no_stream("no selectable audio stream"@)),
            },
        }
    }
}

/// What is kept of a media file, or that it has no sound to work on. `chosen`
/// and `default` are the tracks that suit best.
pub fn probe_manifest(
    source_path: &str,
    source_stat: SourceStatSnapshot,
    source_hash: String,
    probe: MediaProbe,
    chosen: Option<u32>,
    default: Option<u32>,
    producer: String,
) -> (result: AppResult<ProbeManifest>)
    ensures
        match result {
            Ok(manifest) => {
                &&& selection(probe.audio_streams@.len(), chosen, default) == Ok::<
                    u32,
                    ApplicationErrorView,
                >(manifest.selected_stream_index)
                &&& manifest.schema_version == PROBE_MANIFEST_SCHEMA_VERSION
                &&& manifest.source_path@ == source_path@
                &&& manifest.source_stat == source_stat
                &&& manifest.source_hash == source_hash
                &&& manifest.probe == probe
                &&& manifest.producer == producer
            },
            Err(error) => selection(probe.audio_streams@.len(), chosen, default) == Err::<
                u32,
                ApplicationErrorView,
            >(error@),
        },
{
    if probe.audio_streams.len() == 0 {
        return Err(ApplicationError::adapter(ErrorCode::AudioStreamNotFound, "no audio streams"));
    }
    let selected_stream_index: u32 = match chosen {
        Some(index) => index,
        None => match default {
            Some(index) => index,
            None => {
                return Err(
                    ApplicationError::adapter(
                        ErrorCode::AudioStreamNotFound,
                        "no selectable audio stream",
                    ),
                );
            },
        },
    };
    Ok(
        ProbeManifest {
            schema_version: PROBE_MANIFEST_SCHEMA_VERSION,
            source_path: source_path.to_owned(),
            source_stat,
            source_hash,
            probe,
            selected_stream_index,
            producer,
        },
    )
}

/// Whether the media file still holds what it held when it was looked at.
pub fn check_source_hash(manifest: &ProbeManifest, current_hash: &str, path: &str) -> (result:
    AppResult<()>)
    ensures
        match result {
            Ok(_) => current_hash@ == manifest.source_hash@,
            Err(error) => current_hash@ != manifest.source_hash@ && error@ == source_changed(
                "source content hash changed for "@ + path@,
            ),
        },
{
    if !same_text(current_hash, manifest.source_hash.as_str()) {
        let mut text = "source content hash changed for ".to_owned();
        text.append(path);
        return Err(ApplicationError::adapter(ErrorCode::SourceChanged, text.as_str()));
    }
    Ok(())
}

/// What is kept of the sound of a media file.
#[derive(Debug, PartialEq, Eq)]
pub struct ExtractManifest {
    pub schema_version: u32,
    pub probe_artifact_id: UlidStr,
    pub stream_index: u32,
    pub wav_path: String,
    pub wav_content_hash: String,
    pub pcm_hash: String,
    pub sample_rate: u32,
    pub channels: u32,
    pub duration_ms: u64,
    pub producer: String,
}

/// Sound that has been written to a file.
#[derive(Debug, PartialEq, Eq)]
pub struct AudioExtraction {
    pub wav_path: String,
    pub wav_content_hash: String,
    pub pcm_hash: String,
    pub producer: String,
}

/// The position of the first track with the index, from `from` on.
pub open spec fn track_position(tracks: Seq<AudioStream>, index: u32, from: int) -> Option<int>
    decreases tracks.len() - from,
{
    if from < 0 || from >= tracks.len() {
        None
    } else if tracks[from].stream_index == index {
        Some(from)
    } else {
        track_position(tracks, index, from + 1)
    }
}

fn find_track(tracks: &Vec<AudioStream>, index: u32) -> (found: Option<usize>)
    ensures
        match found {
            Some(p) => p < tracks@.len() && track_position(tracks@, index, 0) == Some(p as int),
            None => track_position(tracks@, index, 0) is None,
        },
{
    let mut i: usize = 0;
    while i < tracks.len()
        invariant
            i <= tracks.len(),
            track_position(tracks@, index, 0) == track_position(tracks@, index, i as int),
        decreases tracks.len() - i,
    {
        if tracks[i].stream_index == index {
            return Some(i);
        }
        i += 1;
    }
    None
}

/// `manifest` says what is kept of the sound that was taken from the track.
pub open spec fn is_extract_of(
    manifest: ExtractManifest,
    extracted: AudioExtraction,
    probe: ProbeManifest,
    track: AudioStream,
    probe_artifact: ArtifactRef,
) -> bool {
    &&& manifest.schema_version == EXTRACT_MANIFEST_SCHEMA_VERSION
    &&& manifest.probe_artifact_id == probe_artifact.id
    &&& manifest.stream_index == probe.selected_stream_index
    &&& manifest.wav_path == extracted.wav_path
    &&& manifest.wav_content_hash == extracted.wav_content_hash
    &&& manifest.pcm_hash == extracted.pcm_hash
    &&& manifest.sample_rate == track.sample_rate
    &&& manifest.channels == track.channels
    &&& manifest.duration_ms == probe.probe.duration_ms
    &&& manifest.producer == extracted.producer
}

/// What is kept of the sound of a media file that was looked at before.
pub fn extract_manifest(job: &Job, probe: &ProbeManifest, extracted: AudioExtraction) -> (result:
    AppResult<ExtractManifest>)
    ensures
        match track_position(probe.probe.audio_streams@, probe.selected_stream_index, 0) {
            None => result matches Err(error) && error@ == no_stream(
                "selected stream missing from probe manifest"@,
            ),
            Some(p) => match artifact_of(job@, StageKind::Probe) {
                Err(expected) => result matches Err(error) && error@ == expected,
                Ok(probe_artifact) => result matches Ok(manifest) && is_extract_of(
                    manifest,
                    extracted,
                    *probe,
                    probe.probe.audio_streams@[p],
                    probe_artifact,
                ),
            },
        },
{
    let Some(p) = find_track(&probe.probe.audio_streams, probe.selected_stream_index) else {
        return Err(
            ApplicationError::adapter(
                ErrorCode::AudioStreamNotFound,
                "selected stream missing from probe manifest",
            ),
        );
    };
    let track = &probe.probe.audio_streams[p];
    let probe_artifact = stage_artifact(job, StageKind::Probe)?;
    Ok(
        ExtractManifest {
            schema_version: EXTRACT_MANIFEST_SCHEMA_VERSION,
            probe_artifact_id: probe_artifact.id,
            stream_index: probe.selected_stream_index,
            wav_path: extracted.wav_path,
            wav_content_hash: extracted.wav_content_hash,
            pcm_hash: extracted.pcm_hash,
            sample_rate: track.sample_rate,
            channels: track.channels,
            duration_ms: probe.probe.duration_ms,
            producer: extracted.producer,
        },
    )
}

/// The sound file that a stored record speaks of, to be checked against its
/// hash.
pub fn wav_artifact(artifact: &ArtifactRef, manifest: &ExtractManifest) -> (wav: ArtifactRef)
    ensures
        wav.id == artifact.id,
        wav.stage == StageKind::ExtractAudio,
        wav.path@ == manifest.wav_path@,
        wav.content_hash@ == manifest.wav_content_hash@,
        wav.schema_version == artifact.schema_version,
        wav.producer_fingerprint@ == artifact.producer_fingerprint@,
{
    ArtifactRef {
        id: artifact.id.clone(),
        stage: StageKind::ExtractAudio,
        path: manifest.wav_path.clone(),
        content_hash: manifest.wav_content_hash.clone(),
        schema_version: artifact.schema_version,
        producer_fingerprint: artifact.producer_fingerprint.clone(),
    }
}

/// The error of a stored file that could not be used: whatever came, the file
/// is reported as corrupt.
pub open spec fn corrupt(error: ApplicationErrorView, message: Seq<char>) -> ApplicationErrorView {
    let reported = error.reported();
    if reported.code == ErrorCode::ArtifactCorrupt {
        ApplicationErrorView::Adapter(reported)
    } else {
        ApplicationErrorView::Adapter(
            VcErrorView {
                detail: Some(reported.message),
                ..VcErrorView::plain(ErrorCode::ArtifactCorrupt, message)
            },
        )
    }
}

pub fn map_corrupt(error: ApplicationError, message: &str) -> (mapped: ApplicationError)
    ensures
        mapped@ == corrupt(error@, message@),
{
    let reported = error.into_vc_error();
    if reported.code == ErrorCode::ArtifactCorrupt {
        ApplicationError::Adapter(reported)
    } else {
        ApplicationError::Adapter(
            VcError::new(ErrorCode::ArtifactCorrupt, message).with_detail(
                reported.message.as_str(),
            ),
        )
    }
}

/// What is said of a stored transcript that could not be read.
pub open spec fn corrupt_transcript(kind: StageKind) -> Seq<char> {
    kind.name_text() + " transcript is corrupt"@
}

/// The error of a stored transcript that could not be read.
pub fn transcript_corrupt(error: ApplicationError, kind: StageKind) -> (mapped: ApplicationError)
    ensures
        mapped@ == corrupt(error@, corrupt_transcript(kind)),
{
    let mut text = kind.name().to_owned();
    text.append(" transcript is corrupt");
    map_corrupt(error, text.as_str())
}

/// A file that cannot be used is never passed over in silence: the error says
/// that it is corrupt.
pub proof fn law_unusable_files_are_reported_as_corrupt(
    error: ApplicationErrorView,
    message: Seq<char>,
)
    ensures
        corrupt(error, message).code() == ErrorCode::ArtifactCorrupt,
{
}

/// A media file that is accepted has the path, the size and the time that were
/// frozen.
pub proof fn law_accepted_sources_are_unchanged(
    path: Seq<char>,
    current: Result<SourceStatSnapshot, ApplicationErrorView>,
    snapshot: JobExecutionSnapshot,
)
    ensures
        source_error(path, current, snapshot) is None <==> path == snapshot.canonical_source_path@
            && current == Ok::<SourceStatSnapshot, ApplicationErrorView>(snapshot.source_stat),
{
}

/// A source is refused where its path, its size or its time is another than
/// when the job was made.
pub proof fn law_changed_sources_are_refused(
    path: Seq<char>,
    stat: SourceStatSnapshot,
    snapshot: JobExecutionSnapshot,
)
    ensures
        source_error(path, Ok(stat), snapshot) is None <==> path == snapshot.canonical_source_path@
            && stat.size == snapshot.source_stat.size && stat.modified_at_ms
            == snapshot.source_stat.modified_at_ms,
        source_error(path, Ok(stat), snapshot) matches Some(error) ==> error.code()
            == ErrorCode::SourceChanged,
{
}

/// The chosen audio track is used, else the one that suits best. A file without
/// audio has none.
pub proof fn law_the_chosen_track_is_used(tracks: nat, chosen: Option<u32>, default: Option<u32>)
    ensures
        tracks == 0 ==> selection(tracks, chosen, default) is Err,
        tracks > 0 ==> (chosen matches Some(index) ==> selection(tracks, chosen, default) == Ok::<
            u32,
            ApplicationErrorView,
        >(index)),
        tracks > 0 && chosen is None ==> (default matches Some(index) ==> selection(
            tracks,
            chosen,
            default,
        ) == Ok::<u32, ApplicationErrorView>(index)),
        tracks > 0 && chosen is None && default is None ==> selection(tracks, chosen, default) is Err,
        selection(tracks, chosen, default) matches Err(error) ==> error.code()
            == ErrorCode::AudioStreamNotFound,
{
}

proof fn lemma_track_found(tracks: Seq<AudioStream>, index: u32, p: int, from: int)
    requires
        0 <= from <= p < tracks.len(),
        tracks[p].stream_index == index,
        forall|i: int| 0 <= i < p ==> (#[trigger] tracks[i]).stream_index != index,
    ensures
        track_position(tracks, index, from) == Some(p),
    decreases p - from,
{
    if from < p {
        assert(tracks[from].stream_index != index);
        lemma_track_found(tracks, index, p, from + 1);
    }
}

/// What is noted of the extracted audio is what was extracted from the track
/// that the probe had selected.
pub proof fn law_extracts_describe_the_selected_track(
    manifest: ExtractManifest,
    extracted: AudioExtraction,
    probe: ProbeManifest,
    p: int,
    probe_artifact: ArtifactRef,
)
    requires
        0 <= p < probe.probe.audio_streams@.len(),
        probe.probe.audio_streams@[p].stream_index == probe.selected_stream_index,
        forall|i: int|
            0 <= i < p ==> (#[trigger] probe.probe.audio_streams@[i]).stream_index
                != probe.selected_stream_index,
        is_extract_of(manifest, extracted, probe, probe.probe.audio_streams@[p], probe_artifact),
    ensures
        track_position(probe.probe.audio_streams@, probe.selected_stream_index, 0) == Some(p),
        manifest.schema_version == 1 && manifest.probe_artifact_id == probe_artifact.id,
        manifest.stream_index == probe.selected_stream_index,
        manifest.sample_rate == probe.probe.audio_streams@[p].sample_rate && manifest.channels
            == probe.probe.audio_streams@[p].channels,
        manifest.duration_ms == probe.probe.duration_ms,
        manifest.wav_path == extracted.wav_path && manifest.wav_content_hash
            == extracted.wav_content_hash && manifest.pcm_hash == extracted.pcm_hash
            && manifest.producer == extracted.producer,
{
    lemma_track_found(probe.probe.audio_streams@, probe.selected_stream_index, p, 0);
}

} // verus!
