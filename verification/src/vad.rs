//! Where a recording is silent. Samples and thresholds are single-precision
//! numbers, given as their bits.
use vstd::prelude::*;
use vstd::string::*;

use crate::contracts::{AppResult, ApplicationError, ApplicationErrorView, ErrorCode, VcErrorView};

verus! {

/// The threshold `0.4`.
pub const VAD_DEFAULT_THRESHOLD: u32 = 0x3ECC_CCCD;

pub const VAD_DEFAULT_MIN_SILENCE_MS: u64 = 500;

pub const VAD_DEFAULT_SPEECH_PAD_MS: u64 = 200;

/// How speech is told from silence.
#[derive(Debug, PartialEq, Eq)]
pub struct VadOptions {
    pub enabled: bool,
    /// Bits of a single-precision number.
    pub threshold: u32,
    pub min_silence_ms: u64,
    pub speech_pad_ms: u64,
    /// The file of the model. Without it there is no detection by model.
    pub model_path: Option<String>,
}

impl Default for VadOptions {
    fn default() -> (options: Self)
        ensures
            options.enabled,
            options.threshold == VAD_DEFAULT_THRESHOLD,
            options.min_silence_ms == VAD_DEFAULT_MIN_SILENCE_MS,
            options.speech_pad_ms == VAD_DEFAULT_SPEECH_PAD_MS,
            options.model_path is None,
    {
        VadOptions {
            enabled: true,
            threshold: VAD_DEFAULT_THRESHOLD,
            min_silence_ms: VAD_DEFAULT_MIN_SILENCE_MS,
            speech_pad_ms: VAD_DEFAULT_SPEECH_PAD_MS,
            model_path: None,
        }
    }
}

/// Who can tell speech from silence.
#[derive(Debug, Clone, Copy, PartialEq, Eq, Structural)]
pub enum VadCapability {
    EngineNative,
    RustSileroFallback,
    Unavailable,
}

/// A stretch of silence.
#[derive(Debug, Clone, Copy, PartialEq, Eq, Structural)]
pub struct SilenceRegion {
    pub start_ms: u64,
    pub end_ms: u64,
}

/// Whether the model can be used, given whether its path leads to a file.
pub fn silero_capability(model_path: Option<&str>, is_file: bool) -> (capability: VadCapability)
    ensures
        capability == (if model_path is Some && is_file {
            VadCapability::RustSileroFallback
        } else {
            VadCapability::Unavailable
        }),
{
    match model_path {
        Some(_) if is_file => VadCapability::RustSileroFallback,
        _ => VadCapability::Unavailable,
    }
}

pub open spec fn vad_unavailable(text: Seq<char>) -> ApplicationErrorView {
    ApplicationErrorView::Adapter(VcErrorView::plain(ErrorCode::RuntimeUnavailable, text))
}

/// Why silence is not detected by model, if so. It never is when it is asked
/// for: no runtime for the model is part of this library.
pub open spec fn detection_error(options: VadOptions, is_file: bool) -> Option<
    ApplicationErrorView,
> {
    if !options.enabled {
        None
    } else {
        match options.model_path {
            None => Some(vad_unavailable("Silero VAD model path not configured"@)),
            Some(path) => if !is_file {
                Some(vad_unavailable("Silero VAD model not found: "@ + path@))
            } else {
                Some(
                    vad_unavailable(
                        "Silero ONNX runtime not linked in this build; use engine-native VAD or energy cuts"@,
                    ),
                )
            },
        }
    }
}

/// Detect silence by model, given whether the model's path leads to a file.
/// Silence is not made up: without a runtime there is an error.
pub fn detect_silence_regions(pcm_s16le_mono_16k: &[i16], options: &VadOptions, is_file: bool) -> (result:
    AppResult<Vec<SilenceRegion>>)
    ensures
        match result {
            Ok(regions) => detection_error(*options, is_file) is None && regions@.len() == 0,
            Err(error) => detection_error(*options, is_file) == Some(error@),
        },
{
    let _ = pcm_s16le_mono_16k;
    if !options.enabled {
        return Ok(Vec::new());
    }
    let Some(model) = options.model_path.as_ref() else {
        return Err(
            ApplicationError::adapter(
                ErrorCode::RuntimeUnavailable,
                "Silero VAD model path not configured",
            ),
        );
    };
    if !is_file {
        let mut text = "Silero VAD model not found: ".to_owned();
        text.append(model.as_str());
        return Err(ApplicationError::adapter(ErrorCode::RuntimeUnavailable, text.as_str()));
    }
    Err(
        ApplicationError::adapter(
            ErrorCode::RuntimeUnavailable,
            "Silero ONNX runtime not linked in this build; use engine-native VAD or energy cuts",
        ),
    )
}

/// The magnitude of the sample is below the threshold. Without its sign bit the
/// bits of a number are ordered as the magnitudes are, and those that are no
/// number lie above all of them. No magnitude is below a threshold that is
/// negative, zero or no number.
pub open spec fn quiet(sample: u32, threshold: u32) -> bool {
    threshold <= 0x7F80_0000 && sample % 0x8000_0000 < threshold
}

/// Where the quiet stretch begins that reaches up to `end`.
pub open spec fn quiet_since(samples: Seq<u32>, threshold: u32, end: int) -> int
    decreases end,
{
    if end <= 0 || !quiet(samples[end - 1], threshold) {
        end
    } else {
        quiet_since(samples, threshold, end - 1)
    }
}

/// A quiet stretch of at least `min` samples ends at `end`.
pub open spec fn quiet_run_ends(samples: Seq<u32>, threshold: u32, min: int, end: int) -> bool {
    &&& end - quiet_since(samples, threshold, end) >= min
    &&& end == samples.len() || !quiet(samples[end], threshold)
}

/// The quiet stretches of at least `min` samples that end at `upto` or before,
/// in order.
pub open spec fn quiet_runs(samples: Seq<u32>, threshold: u32, min: int, upto: int) -> Seq<
    (int, int),
>
    decreases upto,
{
    if upto <= 0 {
        seq![]
    } else if quiet_run_ends(samples, threshold, min, upto) {
        quiet_runs(samples, threshold, min, upto - 1).push(
            (quiet_since(samples, threshold, upto), upto),
        )
    } else {
        quiet_runs(samples, threshold, min, upto - 1)
    }
}

/// So many samples last this long.
pub open spec fn at_ms(sample: int, sample_rate: u32) -> u64 {
    (sample * 1000 / sample_rate as int) as u64
}

/// The stretches as times.
pub open spec fn regions_of(runs: Seq<(int, int)>, sample_rate: u32) -> Seq<SilenceRegion> {
    Seq::new(
        runs.len(),
        |i: int|
            SilenceRegion {
                start_ms: at_ms(runs[i].0, sample_rate),
                end_ms: at_ms(runs[i].1, sample_rate),
            },
    )
}

/// How many samples make up a stretch of silence: at least one.
pub open spec fn min_samples(min_silence_ms: u64, sample_rate: u32) -> int {
    if min_silence_ms * sample_rate / 1000 >= 1 {
        min_silence_ms * sample_rate / 1000
    } else {
        1
    }
}

fn to_ms(sample: usize, sample_rate: u32, len: usize) -> (ms: u64)
    requires
        sample <= len,
        len * 1000 <= u64::MAX,
        sample_rate > 0,
    ensures
        ms == at_ms(sample as int, sample_rate),
{
    let scaled: u64 = sample as u64 * 1000;
    assert(scaled / (sample_rate as u64) <= scaled) by (nonlinear_arith)
        requires
            sample_rate > 0,
    ;
    scaled / sample_rate as u64
}

/// The stretches of at least `min_silence_ms` in which every sample is below
/// the threshold. Without samples or without a rate there are none.
pub fn energy_silence_regions(
    samples: &[u32],
    sample_rate: u32,
    min_silence_ms: u64,
    threshold: u32,
) -> (regions: Vec<SilenceRegion>)
    requires
        min_silence_ms * sample_rate <= u64::MAX,
        samples@.len() * 1000 <= u64::MAX,
    ensures
        regions@ == if sample_rate == 0 {
            Seq::<SilenceRegion>::empty()
        } else {
            regions_of(
                quiet_runs(
                    samples@,
                    threshold,
                    min_samples(min_silence_ms, sample_rate),
                    samples@.len() as int,
                ),
                sample_rate,
            )
        },
{
    let mut regions: Vec<SilenceRegion> = Vec::new();
    if samples.len() == 0 || sample_rate == 0 {
        assert(regions@ =~= regions_of(seq![], sample_rate));
        return regions;
    }
    let scaled: u64 = min_silence_ms * sample_rate as u64 / 1000;
    let min: u64 = if scaled >= 1 {
        scaled
    } else {
        1
    };
    let len: usize = samples.len();
    let mut start: Option<usize> = None;
    let mut i: usize = 0;
    assert(regions@ =~= regions_of(seq![], sample_rate));
    while i < len
        invariant
            i <= len,
            len == samples@.len(),
            len * 1000 <= u64::MAX,
            sample_rate > 0,
            min == min_samples(min_silence_ms, sample_rate),
            regions@ == regions_of(
                quiet_runs(samples@, threshold, min as int, i - 1),
                sample_rate,
            ),
            match start {
                Some(s) => s < i && s == quiet_since(samples@, threshold, i as int),
                None => quiet_since(samples@, threshold, i as int) == i,
            },
        decreases len - i,
    {
        let silent = threshold <= 0x7F80_0000 && samples[i] % 0x8000_0000 < threshold;
        let ghost before = quiet_runs(samples@, threshold, min as int, i - 1);
        let ghost listed = regions@;
        match start {
            Some(s) => {
                if !silent {
                    if (i - s) as u64 >= min {
                        regions.push(
                            SilenceRegion {
                                start_ms: to_ms(s, sample_rate, len),
                                end_ms: to_ms(i, sample_rate, len),
                            },
                        );
                        assert(regions@ =~= regions_of(before.push((s as int, i as int)), sample_rate));
                    }
                    start = None;
                }
            },
            None => {
                if silent {
                    start = Some(i);
                }
            },
        }
        i += 1;
    }
    if let Some(s) = start {
        if (len - s) as u64 >= min {
            let ghost before = quiet_runs(samples@, threshold, min as int, len - 1);
            regions.push(
                SilenceRegion {
                    start_ms: to_ms(s, sample_rate, len),
                    end_ms: to_ms(len, sample_rate, len),
                },
            );
            assert(regions@ =~= regions_of(before.push((s as int, len as int)), sample_rate));
        }
    }
    regions
}

/// `a` to `b` is silent throughout, and cannot be made longer on either side.
pub open spec fn is_quiet_stretch(samples: Seq<u32>, threshold: u32, a: int, b: int) -> bool {
    &&& 0 <= a < b <= samples.len()
    &&& forall|i: int| a <= i < b ==> quiet(#[trigger] samples[i], threshold)
    &&& a == 0 || !quiet(samples[a - 1], threshold)
    &&& b == samples.len() || !quiet(samples[b], threshold)
}

proof fn lemma_quiet_since(samples: Seq<u32>, threshold: u32, end: int)
    requires
        0 <= end <= samples.len(),
    ensures
        ({
            let a = quiet_since(samples, threshold, end);
            &&& 0 <= a <= end
            &&& forall|i: int| a <= i < end ==> quiet(#[trigger] samples[i], threshold)
            &&& a == 0 || !quiet(samples[a - 1], threshold)
        }),
    decreases end,
{
    if end > 0 && quiet(samples[end - 1], threshold) {
        lemma_quiet_since(samples, threshold, end - 1);
    }
}

proof fn lemma_quiet_runs(samples: Seq<u32>, threshold: u32, min: int, upto: int)
    requires
        min >= 1,
        0 <= upto <= samples.len(),
    ensures
        ({
            let runs = quiet_runs(samples, threshold, min, upto);
            &&& forall|k: int|
                0 <= k < runs.len() ==> is_quiet_stretch(
                    samples,
                    threshold,
                    (#[trigger] runs[k]).0,
                    runs[k].1,
                ) && runs[k].1 - runs[k].0 >= min && runs[k].1 <= upto
            &&& forall|k: int, m: int|
                0 <= k < m < runs.len() ==> (#[trigger] runs[k]).1 < (#[trigger] runs[m]).0
            &&& forall|a: int, b: int|
                #[trigger] is_quiet_stretch(samples, threshold, a, b) && b - a >= min && b <= upto
                    ==> runs.contains((a, b))
        }),
    decreases upto,
{
    let runs = quiet_runs(samples, threshold, min, upto);
    if upto > 0 {
        lemma_quiet_runs(samples, threshold, min, upto - 1);
        lemma_quiet_since(samples, threshold, upto);
        let since = quiet_since(samples, threshold, upto);
        let earlier = quiet_runs(samples, threshold, min, upto - 1);
        if quiet_run_ends(samples, threshold, min, upto) {
            assert(is_quiet_stretch(samples, threshold, since, upto));
            assert forall|k: int| 0 <= k < earlier.len() implies (#[trigger] earlier[k]).1
                < since by {
                assert(is_quiet_stretch(samples, threshold, earlier[k].0, earlier[k].1));
                if earlier[k].1 >= since {
                    assert(!quiet(samples[earlier[k].1], threshold));
                }
            }
            assert(runs.last() == (since, upto));
        }
        assert forall|a: int, b: int| #[trigger]
            is_quiet_stretch(samples, threshold, a, b) && b - a >= min && b <= upto implies runs.contains(
            (a, b),
        ) by {
            if b < upto {
                assert(earlier.contains((a, b)));
                let k = choose|k: int| 0 <= k < earlier.len() && earlier[k] == (a, b);
                assert(runs[k] == (a, b));
            } else {
                if a < since {
                    assert(quiet(samples[since - 1], threshold));
                }
                if since < a {
                    assert(quiet(samples[a - 1], threshold));
                }
                assert(runs.last() == (a, b));
                assert(runs[runs.len() - 1] == (a, b));
            }
        }
    }
}

/// The stretches that are found are exactly the silent stretches that cannot be
/// made longer and that last long enough. They are in order and apart from each
/// other.
pub proof fn law_silence_is_found_exactly(samples: Seq<u32>, threshold: u32, min: int)
    requires
        min >= 1,
    ensures
        ({
            let runs = quiet_runs(samples, threshold, min, samples.len() as int);
            &&& forall|a: int, b: int|
                runs.contains((a, b)) <==> #[trigger] is_quiet_stretch(samples, threshold, a, b)
                    && b - a >= min
            &&& forall|k: int, m: int|
                0 <= k < m < runs.len() ==> (#[trigger] runs[k]).1 < (#[trigger] runs[m]).0
        }),
{
    lemma_quiet_runs(samples, threshold, min, samples.len() as int);
}

/// A sample is quiet where its magnitude is below the threshold, on either side
/// of zero. A negative threshold, or one that is no number, leaves nothing quiet.
pub proof fn law_quiet_is_below_the_threshold(sample: u32, threshold: u32)
    ensures
        threshold <= 0x7F80_0000 && sample < 0x8000_0000 ==> (quiet(sample, threshold) <==> sample
            < threshold),
        threshold <= 0x7F80_0000 && sample >= 0x8000_0000 ==> (quiet(sample, threshold) <==> sample
            - 0x8000_0000 < threshold),
        threshold > 0x7F80_0000 ==> !quiet(sample, threshold),
{
}

/// A region begins and ends at the millisecond in which its first sample, and
/// the one behind its last, are played.
pub proof fn law_samples_are_timed(sample: int, sample_rate: u32)
    requires
        0 <= sample,
        sample * 1000 <= u64::MAX,
        sample_rate > 0,
    ensures
        at_ms(sample, sample_rate) * sample_rate <= sample * 1000,
        sample * 1000 < (at_ms(sample, sample_rate) + 1) * sample_rate,
{
    let a = sample * 1000;
    let r = sample_rate as int;
    let q = a / r;
    vstd::arithmetic::div_mod::lemma_fundamental_div_mod(a, r);
    vstd::arithmetic::div_mod::lemma_mod_bound(a, r);
    vstd::arithmetic::div_mod::lemma_div_pos_is_pos(a, r);
    assert(q <= a) by (nonlinear_arith)
        requires
            a == r * q + a % r,
            0 <= a % r,
            r >= 1,
            q >= 0,
    ;
    assert(q * r + a % r == a) by (nonlinear_arith)
        requires
            a == r * q + a % r,
    ;
    assert((q + 1) * r == q * r + r) by (nonlinear_arith);
}

/// Silence lasts as many samples as the shortest time takes, and at least one.
pub proof fn law_silence_lasts_long_enough(min_silence_ms: u64, sample_rate: u32)
    ensures
        min_samples(min_silence_ms, sample_rate) >= 1,
        min_silence_ms * sample_rate < 2000 ==> min_samples(min_silence_ms, sample_rate) == 1,
        min_silence_ms * sample_rate >= 1000 ==> min_samples(min_silence_ms, sample_rate) * 1000
            <= min_silence_ms * sample_rate && min_silence_ms * sample_rate < (min_samples(
            min_silence_ms,
            sample_rate,
        ) + 1) * 1000,
{
    assert(min_silence_ms * sample_rate >= 0) by (nonlinear_arith);
}

/// Regions are found stretch by stretch, in the same order.
pub proof fn law_regions_are_timed_stretches(runs: Seq<(int, int)>, sample_rate: u32, i: int)
    requires
        0 <= i < runs.len(),
    ensures
        regions_of(runs, sample_rate).len() == runs.len(),
        regions_of(runs, sample_rate)[i].start_ms == at_ms(runs[i].0, sample_rate),
        regions_of(runs, sample_rate)[i].end_ms == at_ms(runs[i].1, sample_rate),
{
}

/// Detection by model finds nothing where it is switched off, and cannot be had
/// otherwise.
pub proof fn law_models_cannot_be_had(options: VadOptions, is_file: bool)
    ensures
        detection_error(options, is_file) is None <==> !options.enabled,
        detection_error(options, is_file) matches Some(error) ==> error.code()
            == ErrorCode::RuntimeUnavailable,
{
}

} // verus!
