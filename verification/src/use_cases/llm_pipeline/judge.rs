//! Judgement of a reply: the texts in it, or why it cannot be used.
use vstd::prelude::*;

use crate::contracts::{ErrorCode, VcError, VcErrorView, VcResult};
use crate::ports::LlmStage;
use crate::subtitle::transcript::LlmTextField;

use super::texts::CueTexts;
use super::types::CueInput;
use super::validation::{
    check_split_reply, check_text_reply, known_text, parse_json, parse_response_items,
    parsed_items, reply_document, split_violation, text_violation,
};

verus! {

/// What is wrong with the texts of a reply of a stage, if anything.
pub open spec fn stage_violation(
    stage: LlmStage,
    similarity_percent: u32,
    items: Seq<CueInput>,
    order: Seq<u32>,
    texts: Map<u32, Seq<char>>,
) -> Option<Seq<char>> {
    match stage {
        LlmStage::Split => split_violation(items, order, texts),
        LlmStage::Correct => text_violation(
            LlmTextField::Source,
            similarity_percent,
            items,
            order,
            texts,
        ),
        LlmStage::Translate => text_violation(
            LlmTextField::Translation,
            similarity_percent,
            items,
            order,
            texts,
        ),
    }
}

/// Check the texts of a reply of a stage.
pub fn check_reply(
    stage: LlmStage,
    similarity_percent: u32,
    items: &Vec<CueInput>,
    texts: &CueTexts,
) -> (violation: Option<String>)
    requires
        texts.in_order(),
    ensures
        match violation {
            Some(text) => stage_violation(
                stage,
                similarity_percent,
                items@,
                texts.order(),
                texts@,
            ) == Some(text@),
            None => stage_violation(
                stage,
                similarity_percent,
                items@,
                texts.order(),
                texts@,
            ) is None,
        },
{
    match stage {
        LlmStage::Split => check_split_reply(items, texts),
        LlmStage::Correct => check_text_reply(
            LlmTextField::Source,
            similarity_percent,
            items,
            texts,
        ),
        LlmStage::Translate => check_text_reply(
            LlmTextField::Translation,
            similarity_percent,
            items,
            texts,
        ),
    }
}

/// The error of texts that cannot be used.
pub open spec fn unusable(violation: Seq<char>) -> VcErrorView {
    VcErrorView::plain(ErrorCode::LlmValidationFailed, violation)
}

/// `texts` are those of a document, in the order of the cues' identifiers.
pub open spec fn are_texts_of(document: Seq<char>, texts: CueTexts) -> bool {
    texts.in_order() && parsed_items(document, None) == Ok::<Map<u32, Seq<char>>, Seq<char>>(texts@)
}

/// Judge a reply of a stage to a request with these cues. `reason` is what a
/// parser says of the reply where it does not have the shape that was asked for.
pub fn judge_reply(
    stage: LlmStage,
    similarity_percent: u32,
    items: &Vec<CueInput>,
    content: &str,
    reason: Option<&str>,
) -> (result: VcResult<CueTexts>)
    ensures
        match reply_document(content@) {
            Err(e) => result matches Err(error) && error@ == e,
            Ok(document) => match parsed_items(document, known_text(reason)) {
                Err(text) => result matches Err(error) && error@ == unusable(text),
                Ok(_) => match result {
                    Ok(texts) => are_texts_of(document, texts) && stage_violation(
                        stage,
                        similarity_percent,
                        items@,
                        texts.order(),
                        texts@,
                    ) is None,
                    Err(error) => exists|texts: CueTexts| #[trigger]
                        are_texts_of(document, texts) && (stage_violation(
                            stage,
                            similarity_percent,
                            items@,
                            texts.order(),
                            texts@,
                        ) matches Some(text) && error@ == unusable(text)),
                },
            },
        },
{
    let document = match parse_json(content) {
        Ok(document) => document,
        Err(error) => {
            return Err(error);
        },
    };
    let texts = match parse_response_items(document.as_str(), reason) {
        Ok(texts) => texts,
        Err(text) => {
            return Err(VcError::new(ErrorCode::LlmValidationFailed, text.as_str()));
        },
    };
    assert(are_texts_of(document@, texts));
    match check_reply(stage, similarity_percent, items, &texts) {
        Some(text) => Err(VcError::new(ErrorCode::LlmValidationFailed, text.as_str())),
        None => Ok(texts),
    }
}

/// Replies of each stage are judged by its own rules: breaks for the split,
/// source texts for the correction, translations for the translation.
pub proof fn law_stages_are_judged_by_their_rules(
    stage: LlmStage,
    percent: u32,
    items: Seq<CueInput>,
    order: Seq<u32>,
    texts: Map<u32, Seq<char>>,
)
    ensures
        stage == LlmStage::Split ==> stage_violation(stage, percent, items, order, texts)
            == split_violation(items, order, texts),
        stage == LlmStage::Correct ==> stage_violation(stage, percent, items, order, texts)
            == text_violation(LlmTextField::Source, percent, items, order, texts),
        stage == LlmStage::Translate ==> stage_violation(stage, percent, items, order, texts)
            == text_violation(LlmTextField::Translation, percent, items, order, texts),
{
}

/// A document has the texts of its items, and no others.
pub proof fn law_documents_have_one_set_of_texts(document: Seq<char>, a: CueTexts, b: CueTexts)
    requires
        are_texts_of(document, a),
        are_texts_of(document, b),
    ensures
        a@ == b@,
        a.in_order(),
        parsed_items(document, None) == Ok::<Map<u32, Seq<char>>, Seq<char>>(a@),
{
}

/// A reply that cannot be used is an error of validation.
pub proof fn law_unusable_replies_fail_validation(violation: Seq<char>)
    ensures
        unusable(violation).code == ErrorCode::LlmValidationFailed,
        unusable(violation).message == violation,
{
}

} // verus!
