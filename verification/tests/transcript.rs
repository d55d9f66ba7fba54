use videocaptionerr::error::DomainError;
use videocaptionerr::subtitle::transcript::{
    Confidence, Cue, CueFlags, CueTextUpdate, EngineFingerprint, FieldOrigin, LlmResultBinding, LlmTextField,
    RangeUsize, Transcript, Word, PROB_UNAVAILABLE,
};

fn sample_words() -> Vec<Word> {
    vec![
        Word {
            text: "hello".into(),
            start_ms: 0,
            end_ms: 200,
            prob: Confidence::new(0.9f32.to_bits(), "0.9"),
        },
        Word {
            text: "world".into(),
            start_ms: 220,
            end_ms: 500,
            prob: Confidence::unavailable(),
        },
    ]
}

#[test]
fn asr_cue_times_from_words() {
    let mut t = Transcript::new_asr("hash", EngineFingerprint::unknown(), sample_words());
    t.cues.push(Cue {
        id: 1,
        word_range: Some(RangeUsize::new(0, 2)),
        imported_start_ms: None,
        imported_end_ms: None,
        text: "hello world".into(),
        translation: None,
        flags: CueFlags::default(),
        text_origin: Some(FieldOrigin::Asr),
        translation_origin: None,
        text_revision: 0,
        translation_revision: 0,
    });
    t.next_cue_id = 2;
    t.validate().unwrap();
    assert_eq!(t.cue_times(&t.cues[0]).unwrap(), (0, 500));
}

#[test]
fn rejects_overlapping_ranges() {
    let mut t = Transcript::new_asr("h", EngineFingerprint::unknown(), sample_words());
    t.cues = vec![
        Cue {
            id: 1,
            word_range: Some(RangeUsize::new(0, 2)),
            imported_start_ms: None,
            imported_end_ms: None,
            text: "a".into(),
            translation: None,
            flags: CueFlags::default(),
            text_origin: None,
            translation_origin: None,
            text_revision: 0,
            translation_revision: 0,
        },
        Cue {
            id: 2,
            word_range: Some(RangeUsize::new(1, 2)),
            imported_start_ms: None,
            imported_end_ms: None,
            text: "b".into(),
            translation: None,
            flags: CueFlags::default(),
            text_origin: None,
            translation_origin: None,
            text_revision: 0,
            translation_revision: 0,
        },
    ];
    assert!(t.validate().is_err());
}

#[test]
fn llm_result_is_stale_after_a_user_edit() {
    let mut t = Transcript::new_asr("h", EngineFingerprint::unknown(), sample_words());
    t.cues.push(Cue {
        id: 1,
        word_range: Some(RangeUsize::new(0, 2)),
        imported_start_ms: None,
        imported_end_ms: None,
        text: "hello world".into(),
        translation: None,
        flags: CueFlags::default(),
        text_origin: Some(FieldOrigin::RuleSplit),
        translation_origin: None,
        text_revision: 0,
        translation_revision: 0,
    });
    let binding = LlmResultBinding {
        transcript_revision: t.revision,
        field: LlmTextField::Translation,
        request_id: "request-1".into(),
    };
    let edited = t
        .edit_translation(1, t.revision, "用户翻译".into())
        .unwrap();
    let result = edited.apply_llm_text(
        &binding,
        &[CueTextUpdate {
            cue_id: 1,
            expected_field_revision: 0,
            value: "stale".into(),
        }],
    );
    assert!(matches!(result, Err(DomainError::StaleRevision { .. })));
}

#[test]
fn user_edit_uses_transcript_revision_cas() {
    let mut transcript = Transcript::new_asr("h", EngineFingerprint::unknown(), sample_words());
    transcript.cues.push(Cue {
        id: 1,
        word_range: Some(RangeUsize::new(0, 2)),
        imported_start_ms: None,
        imported_end_ms: None,
        text: "hello world".into(),
        translation: None,
        flags: CueFlags::default(),
        text_origin: Some(FieldOrigin::RuleSplit),
        translation_origin: None,
        text_revision: 0,
        translation_revision: 0,
    });
    let edited = transcript
        .edit_text(1, transcript.revision, "hello team".into())
        .unwrap();
    assert!(edited.cues[0].flags.user_edited_text);
    assert_eq!(edited.cues[0].text_origin, Some(FieldOrigin::User));
    assert!(matches!(
        transcript.edit_text(1, transcript.revision + 1, "stale".into()),
        Err(DomainError::StaleRevision { .. })
    ));
}

#[test]
fn user_translation_is_protected_without_blocking_other_cues() {
    let mut t = Transcript::new_asr("h", EngineFingerprint::unknown(), sample_words());
    t.cues = vec![
        Cue {
            id: 1,
            word_range: Some(RangeUsize::new(0, 1)),
            imported_start_ms: None,
            imported_end_ms: None,
            text: "hello".into(),
            translation: Some("用户翻译".into()),
            flags: CueFlags {
                user_edited_translation: true,
                ..CueFlags::default()
            },
            text_origin: Some(FieldOrigin::RuleSplit),
            translation_origin: Some(FieldOrigin::User),
            text_revision: 0,
            translation_revision: 1,
        },
        Cue {
            id: 2,
            word_range: Some(RangeUsize::new(1, 2)),
            imported_start_ms: None,
            imported_end_ms: None,
            text: "world".into(),
            translation: None,
            flags: CueFlags::default(),
            text_origin: Some(FieldOrigin::RuleSplit),
            translation_origin: None,
            text_revision: 0,
            translation_revision: 0,
        },
    ];
    t.next_cue_id = 3;
    t.validate().unwrap();
    let binding = LlmResultBinding {
        transcript_revision: t.revision,
        field: LlmTextField::Translation,
        request_id: "request-2".into(),
    };
    let out = t
        .apply_llm_text(
            &binding,
            &[
                CueTextUpdate {
                    cue_id: 1,
                    expected_field_revision: 1,
                    value: "overwritten".into(),
                },
                CueTextUpdate {
                    cue_id: 2,
                    expected_field_revision: 0,
                    value: "world translation".into(),
                },
            ],
        )
        .unwrap();
    assert_eq!(out.cues[0].translation.as_deref(), Some("用户翻译"));
    assert_eq!(
        out.cues[1].translation.as_deref(),
        Some("world translation")
    );
}

fn cue(id: u32, range: RangeUsize, text: &str) -> Cue {
    Cue {
        id,
        word_range: Some(range),
        imported_start_ms: None,
        imported_end_ms: None,
        text: text.into(),
        translation: None,
        flags: CueFlags::default(),
        text_origin: Some(FieldOrigin::RuleSplit),
        translation_origin: None,
        text_revision: 0,
        translation_revision: 0,
    }
}

#[test]
fn ranges_convert_both_ways() {
    let range = RangeUsize::from(2..5);
    assert_eq!(range, RangeUsize::new(2, 5));
    assert_eq!(std::ops::Range::<usize>::from(range), 2..5);
    assert_eq!(range.len(), 3);
    assert!(!range.is_empty());
    assert_eq!(RangeUsize::new(5, 2).len(), 0);
    assert!(RangeUsize::new(5, 2).is_empty());
}

#[test]
fn confidence_is_read_from_its_bits() {
    assert_eq!(f32::from_bits(PROB_UNAVAILABLE), -1.0);
    assert_eq!(Confidence::unavailable().numeral, (-1.0f32).to_string());
    let with = |prob: f32| Word {
        text: "w".into(),
        start_ms: 0,
        end_ms: 1,
        prob: Confidence::new(prob.to_bits(), &prob.to_string()),
    };
    for prob in [0.0f32, -0.0, 0.5, 1.0] {
        let word = with(prob);
        assert!(word.has_confidence());
        assert!(word.validate().is_ok());
    }
    for prob in [1.5f32, -0.5, f32::NAN, f32::INFINITY] {
        let word = with(prob);
        assert!(!word.has_confidence());
        assert_eq!(
            word.validate().unwrap_err(),
            DomainError::InvalidArgument(format!("invalid word.prob {prob}"))
        );
    }
    assert_eq!(
        with(2.0).validate().unwrap_err(),
        DomainError::InvalidArgument("invalid word.prob 2".into())
    );
    let backwards = Word { text: "w".into(), start_ms: 5, end_ms: 4, prob: Confidence::unavailable() };
    assert_eq!(
        backwards.validate().unwrap_err(),
        DomainError::TimestampInvalid("word end_ms 4 < start_ms 5".into())
    );
}

#[test]
fn splits_cover_every_word_once() {
    let t = Transcript::new_asr("h", EngineFingerprint::unknown(), sample_words());
    let split = t
        .apply_llm_split(&[RangeUsize::new(0, 1), RangeUsize::new(1, 2)], "request-3")
        .unwrap();
    assert_eq!(split.cues.len(), 2);
    assert_eq!(split.cues[0].text, "hello");
    assert_eq!(split.cues[1].text, "world");
    assert_eq!(split.words, t.words);
    assert!(split.revision > t.revision);
    assert!(t.apply_llm_split(&[RangeUsize::new(0, 1)], "request-4").is_err());
    assert!(t
        .apply_llm_split(&[RangeUsize::new(0, 2), RangeUsize::new(1, 2)], "request-5")
        .is_err());
}

#[test]
fn failure_marks_leave_texts_alone() {
    let mut t = Transcript::new_asr("h", EngineFingerprint::unknown(), sample_words());
    t.cues = vec![cue(1, RangeUsize::new(0, 1), "hello"), cue(2, RangeUsize::new(1, 2), "world")];
    t.next_cue_id = 3;
    let marked = t.mark_llm_failed(&[2]).unwrap();
    assert_eq!(marked.mark_llm_failed(&[2]).unwrap(), marked);
    assert!(!marked.cues[0].flags.llm_failed);
    assert!(marked.cues[1].flags.llm_failed);
    assert_eq!(marked.cues[1].text, "world");
}

#[test]
fn llm_texts_are_written_under_their_request() {
    let mut t = Transcript::new_asr("h", EngineFingerprint::unknown(), sample_words());
    t.cues = vec![cue(1, RangeUsize::new(0, 2), "hello world")];
    t.next_cue_id = 2;
    let binding = LlmResultBinding {
        transcript_revision: t.revision,
        field: LlmTextField::Source,
        request_id: "request-6".into(),
    };
    let update = CueTextUpdate {
        cue_id: 1,
        expected_field_revision: 0,
        value: "Hello, world".into(),
    };
    let out = t.apply_llm_text(&binding, &[update]).unwrap();
    assert_eq!(out.cues[0].text, "Hello, world");
    assert_eq!(
        out.cues[0].text_origin,
        Some(FieldOrigin::Llm { request_id: "request-6".into() })
    );
    assert_eq!(out.cue_times(&out.cues[0]).unwrap(), (0, 500));
}

#[test]
fn imported_cues_bring_their_times() {
    let mut first = cue(7, RangeUsize::new(0, 1), "one");
    first.word_range = None;
    first.imported_start_ms = Some(10);
    first.imported_end_ms = Some(20);
    let t = Transcript::try_new_imported("h", vec![first.clone()]).unwrap();
    assert_eq!(t.cue_times(&t.cues[0]).unwrap(), (10, 20));
    assert_eq!(t.next_cue_id, 8);
    first.imported_end_ms = Some(5);
    assert!(Transcript::try_new_imported("h", vec![first]).is_err());
}
