use videocaptionerr::contracts::ErrorCode;
use videocaptionerr::vad::{
    detect_silence_regions, energy_silence_regions, silero_capability, SilenceRegion,
    VadCapability, VadOptions,
};

fn bits(samples: &[f32]) -> Vec<u32> {
    samples.iter().map(|sample| sample.to_bits()).collect()
}

#[test]
fn defaults_match_manual() {
    let o = VadOptions::default();
    assert!(o.enabled);
    assert!((f32::from_bits(o.threshold) - 0.4).abs() < f32::EPSILON);
    assert_eq!(o.min_silence_ms, 500);
    assert_eq!(o.speech_pad_ms, 200);
}

#[test]
fn missing_model_is_unavailable_not_fake() {
    let cap = silero_capability(None, false);
    assert_eq!(cap, VadCapability::Unavailable);
    let err = detect_silence_regions(&[], &VadOptions::default(), false).unwrap_err();
    let msg = format!("{err:?}");
    assert!(msg.contains("RUNTIME_UNAVAILABLE") || msg.contains("RuntimeUnavailable"));
}

#[test]
fn energy_fallback_finds_silence() {
    let sr = 16_000;
    let mut samples = vec![0.5f32; sr as usize]; // 1s speech
    samples.extend(std::iter::repeat(0.0).take(sr as usize)); // 1s silence
    samples.extend(std::iter::repeat(0.5).take(sr as usize / 2));
    let regions = energy_silence_regions(&bits(&samples), sr, 500, 0.1f32.to_bits());
    assert!(!regions.is_empty());
    assert!(regions[0].end_ms - regions[0].start_ms >= 500);
    assert_eq!(regions, vec![SilenceRegion { start_ms: 1000, end_ms: 2000 }]);
}

#[test]
fn models_are_never_made_up() {
    let mut options = VadOptions::default();
    assert_eq!(
        detect_silence_regions(&[], &options, false)
            .unwrap_err()
            .into_vc_error()
            .message,
        "Silero VAD model path not configured"
    );
    options.model_path = Some("/models/silero.onnx".into());
    assert_eq!(
        detect_silence_regions(&[], &options, false)
            .unwrap_err()
            .into_vc_error()
            .message,
        "Silero VAD model not found: /models/silero.onnx"
    );
    let error = detect_silence_regions(&[], &options, true)
        .unwrap_err()
        .into_vc_error();
    assert_eq!(error.code, ErrorCode::RuntimeUnavailable);
    options.enabled = false;
    assert_eq!(detect_silence_regions(&[], &options, true).unwrap(), vec![]);
    assert_eq!(
        silero_capability(Some("/models/silero.onnx"), true),
        VadCapability::RustSileroFallback
    );
    assert_eq!(
        silero_capability(Some("/models/silero.onnx"), false),
        VadCapability::Unavailable
    );
}

#[test]
fn silence_is_measured_by_magnitude() {
    let samples = bits(&[0.0, -0.05, 0.05, -0.5, f32::NAN, 0.0, 0.0]);
    let regions = energy_silence_regions(&samples, 1000, 2, 0.1f32.to_bits());
    assert_eq!(
        regions,
        vec![
            SilenceRegion { start_ms: 0, end_ms: 3 },
            SilenceRegion { start_ms: 5, end_ms: 7 },
        ]
    );
    for threshold in [0.0f32, -0.0, -1.0, f32::NAN] {
        assert!(energy_silence_regions(&samples, 1000, 1, threshold.to_bits()).is_empty());
    }
    assert_eq!(
        energy_silence_regions(&samples, 1000, 1, f32::INFINITY.to_bits()),
        vec![
            SilenceRegion { start_ms: 0, end_ms: 4 },
            SilenceRegion { start_ms: 5, end_ms: 7 },
        ]
    );
    assert!(energy_silence_regions(&samples, 0, 1, 0.1f32.to_bits()).is_empty());
    assert!(energy_silence_regions(&[], 1000, 1, 0.1f32.to_bits()).is_empty());
}
