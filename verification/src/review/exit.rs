//! The end of the review mode: what is recorded and sent, and in which order.

use vstd::prelude::*;

use crate::review::output::ReviewOutputEvent;
use crate::text::{
    is_white_space, law_absent_pattern_replaces_nothing, law_first_occurrence_is_replaced,
    law_trimming_leaves_the_middle, replace_all, replaced, trim_margin, trimmed, Margin,
};

verus! {

/// The id of the developer message that tells the model how the review ended.
pub const REVIEW_USER_MESSAGE_ID: &'static str = "review_rollout_user";

/// The id of the message that shows the output of the review.
pub const REVIEW_ASSISTANT_MESSAGE_ID: &'static str = "review_rollout_assistant";

/// The place of the results in the template for a review that succeeded.
pub const RESULTS_PLACEHOLDER: &'static str = "{results}";

/// What is shown for a review that was interrupted.
pub const REVIEW_INTERRUPTED: &'static str =
    "Review was interrupted. Please re-run /review and wait for it to complete.";

/// The texts that the host has for the end of a review: its two templates, and its rendering of
/// the output and of the findings in it. The renderings of a review without output, or without
/// findings, are not looked at.
pub struct ReviewTexts<'a> {
    pub exit_success_template: &'a str,
    pub exit_interrupted_template: &'a str,
    pub findings_block: &'a str,
    pub output_text: &'a str,
}

/// A piece of a message.
#[derive(Debug)]
pub enum ContentItem {
    InputText { text: String },
    OutputText { text: String },
}

/// A message of a conversation.
#[derive(Debug)]
pub struct Message {
    pub id: Option<String>,
    pub role: String,
    pub content: Vec<ContentItem>,
    pub end_turn: Option<bool>,
    pub phase: Option<String>,
}

/// What the session does at the end of a review.
#[derive(Debug)]
pub enum ExitAction<F, R> {
    /// Record the message in the conversation.
    RecordConversationItem(Message),
    /// Send the event that the review mode is left, with the output of the review.
    SendExitedReviewMode { review_output: Option<ReviewOutputEvent<F, R>> },
    /// Record the message, and emit it as an item of the turn.
    RecordAndEmitTurnItem(Message),
    /// Make sure that the session is written to its file.
    EnsureRolloutMaterialized,
}

/// The results of a review: its explanation without surrounding white space, and a line break
/// and the block of the findings where there are any.
pub open spec fn results_text<F, R>(
    output: ReviewOutputEvent<F, R>,
    texts: ReviewTexts,
) -> Seq<char> {
    let explanation = trimmed(output.overall_explanation@, Margin::WhiteSpace);
    if output.findings@.len() == 0 {
        explanation
    } else {
        explanation + seq!['\n'] + texts.findings_block@
    }
}

/// What the model is told of the review.
pub open spec fn developer_text<F, R>(
    output: Option<ReviewOutputEvent<F, R>>,
    texts: ReviewTexts,
) -> Seq<char> {
    match output {
        Some(output) => replaced(
            texts.exit_success_template@,
            RESULTS_PLACEHOLDER@,
            results_text(output, texts),
        ),
        None => texts.exit_interrupted_template@,
    }
}

/// What is shown of the review.
pub open spec fn assistant_text<F, R>(
    output: Option<ReviewOutputEvent<F, R>>,
    texts: ReviewTexts,
) -> Seq<char> {
    match output {
        Some(_) => texts.output_text@,
        None => REVIEW_INTERRUPTED@,
    }
}

impl Message {
    /// Whether this is the developer message with the given id and input text.
    pub open spec fn is_developer_message(self, id: Seq<char>, text: Seq<char>) -> bool {
        &&& self.id matches Some(own) && own@ == id
        &&& self.role@ == "developer"@
        &&& self.content@.len() == 1
        &&& self.content@[0] matches ContentItem::InputText { text: own } && own@ == text
        &&& self.end_turn is None
        &&& self.phase is None
    }

    /// Whether this is the message of the assistant with the given id and output text.
    pub open spec fn is_assistant_message(self, id: Seq<char>, text: Seq<char>) -> bool {
        &&& self.id matches Some(own) && own@ == id
        &&& self.role@ == "assistant"@
        &&& self.content@.len() == 1
        &&& self.content@[0] matches ContentItem::OutputText { text: own } && own@ == text
        &&& self.end_turn is None
        &&& self.phase is None
    }
}

/// The results of a review.
fn results_of<F, R>(output: &ReviewOutputEvent<F, R>, texts: &ReviewTexts) -> (r: String)
    ensures
        r@ == results_text(*output, *texts),
{
    let mut findings_str = String::new();
    let text = trim_margin(output.overall_explanation.as_str(), Margin::WhiteSpace);
    if !text.is_empty() {
        findings_str.append(text);
    }
    assert(findings_str@ =~= text@);
    if !output.findings.is_empty() {
        findings_str.append("\n");
        findings_str.append(texts.findings_block);
        proof {
            reveal_strlit("\n");
            assert("\n"@ =~= seq!['\n']);
        }
    }
    findings_str
}

/// What is done to leave the review mode, in this order: a developer message tells the model how
/// the review ended, the event is sent, the output is shown, and the session is written to its
/// file.
pub fn exit_review_mode<F, R>(
    review_output: Option<ReviewOutputEvent<F, R>>,
    texts: ReviewTexts,
) -> (r: Vec<ExitAction<F, R>>)
    ensures
        r@.len() == 4,
        r@[0] matches ExitAction::RecordConversationItem(message) && message.is_developer_message(
            REVIEW_USER_MESSAGE_ID@,
            developer_text(review_output, texts),
        ),
        r@[1] == (ExitAction::SendExitedReviewMode { review_output }),
        r@[2] matches ExitAction::RecordAndEmitTurnItem(message) && message.is_assistant_message(
            REVIEW_ASSISTANT_MESSAGE_ID@,
            assistant_text(review_output, texts),
        ),
        r@[3] is EnsureRolloutMaterialized,
        r@[0] matches ExitAction::RecordConversationItem(message) && message.content@[0] matches
            ContentItem::InputText { text } && text@ == match review_output {
            Some(output) => replaced(
                texts.exit_success_template@,
                "{results}"@,
                if output.findings@.len() == 0 {
                    trimmed(output.overall_explanation@, Margin::WhiteSpace)
                } else {
                    trimmed(output.overall_explanation@, Margin::WhiteSpace) + seq!['\n']
                        + texts.findings_block@
                },
            ),
            None => texts.exit_interrupted_template@,
        },
        review_output is Some ==> (r@[2] matches ExitAction::RecordAndEmitTurnItem(message)
            && message.content@[0] matches ContentItem::OutputText { text } && text@
            == texts.output_text@),
        review_output is None ==> (r@[2] matches ExitAction::RecordAndEmitTurnItem(message)
            && message.content@[0] matches ContentItem::OutputText { text } && text@
            == "Review was interrupted. Please re-run /review and wait for it to complete."@),
{
    let (developer_message, assistant_message) = match &review_output {
        Some(out) => {
            let results = results_of(out, &texts);
            proof {
                reveal_strlit("{results}");
            }
            let rendered = replace_all(
                texts.exit_success_template,
                RESULTS_PLACEHOLDER,
                results.as_str(),
            );
            (rendered, texts.output_text.to_string())
        },
        None => (texts.exit_interrupted_template.to_string(), REVIEW_INTERRUPTED.to_string()),
    };
    let mut developer_content: Vec<ContentItem> = Vec::new();
    developer_content.push(ContentItem::InputText { text: developer_message });
    let mut assistant_content: Vec<ContentItem> = Vec::new();
    assistant_content.push(ContentItem::OutputText { text: assistant_message });

    let mut actions: Vec<ExitAction<F, R>> = Vec::new();
    actions.push(
        ExitAction::RecordConversationItem(
            Message {
                id: Some(REVIEW_USER_MESSAGE_ID.to_string()),
                role: "developer".to_string(),
                content: developer_content,
                end_turn: None,
                phase: None,
            },
        ),
    );
    actions.push(ExitAction::SendExitedReviewMode { review_output });
    actions.push(
        ExitAction::RecordAndEmitTurnItem(
            Message {
                id: Some(REVIEW_ASSISTANT_MESSAGE_ID.to_string()),
                role: "assistant".to_string(),
                content: assistant_content,
                end_turn: None,
                phase: None,
            },
        ),
    );
    actions.push(ExitAction::EnsureRolloutMaterialized);
    actions
}

/// A template with one placeholder is filled with the results as they are: what stands around the
/// placeholder stays, and a placeholder in the results is not filled again.
pub proof fn law_template_is_filled<F, R>(
    before: Seq<char>,
    after: Seq<char>,
    output: ReviewOutputEvent<F, R>,
    texts: ReviewTexts,
)
    requires
        texts.exit_success_template@ == before + RESULTS_PLACEHOLDER@ + after,
        forall|i: int|
            0 <= i < before.len() ==> !RESULTS_PLACEHOLDER@.is_prefix_of(
                #[trigger] (before + RESULTS_PLACEHOLDER@ + after).skip(i),
            ),
        forall|i: int|
            0 <= i < after.len() ==> !RESULTS_PLACEHOLDER@.is_prefix_of(#[trigger] after.skip(i)),
    ensures
        developer_text(Some(output), texts) == before + results_text(output, texts) + after,
{
    reveal_strlit("{results}");
    let results = results_text(output, texts);
    law_first_occurrence_is_replaced(before, RESULTS_PLACEHOLDER@, after, results);
    law_absent_pattern_replaces_nothing(after, RESULTS_PLACEHOLDER@, results);
}

/// The user is shown every completed review, with or without findings, as the host renders it.
pub proof fn law_completed_review_is_shown<F, R>(
    output: ReviewOutputEvent<F, R>,
    texts: ReviewTexts,
    message: Message,
)
    requires
        message.is_assistant_message(
            REVIEW_ASSISTANT_MESSAGE_ID@,
            assistant_text(Some(output), texts),
        ),
    ensures
        message.id is Some && message.id->0@ == "review_rollout_assistant"@,
        message.role@ == "assistant"@,
        message.content@.len() == 1,
        message.content@[0] matches ContentItem::OutputText { text } && text@ == texts.output_text@,
        message.end_turn is None && message.phase is None,
{
}

/// The user is shown that a review was interrupted, and how to go on, where there is no output;
/// nothing that the host renders is shown then.
pub proof fn law_interrupted_review_is_shown<F, R>(texts: ReviewTexts, message: Message)
    requires
        message.is_assistant_message(
            REVIEW_ASSISTANT_MESSAGE_ID@,
            assistant_text(None::<ReviewOutputEvent<F, R>>, texts),
        ),
    ensures
        message.id is Some && message.id->0@ == "review_rollout_assistant"@,
        message.role@ == "assistant"@,
        message.content@.len() == 1,
        message.content@[0] matches ContentItem::OutputText { text } && text@
            == "Review was interrupted. Please re-run /review and wait for it to complete."@,
        message.end_turn is None && message.phase is None,
{
}

/// The model is told the results of a completed review in the place of the template that is meant
/// for them: the explanation, whatever white space stands around it, and below it the findings
/// where there are any. All else of the template stays.
pub proof fn law_model_is_told_the_results<F, R>(
    before: Seq<char>,
    after: Seq<char>,
    lead: Seq<char>,
    explanation: Seq<char>,
    trail: Seq<char>,
    output: ReviewOutputEvent<F, R>,
    texts: ReviewTexts,
    message: Message,
)
    requires
        message.is_developer_message(REVIEW_USER_MESSAGE_ID@, developer_text(Some(output), texts)),
        texts.exit_success_template@ == before + "{results}"@ + after,
        forall|i: int|
            0 <= i < before.len() ==> !"{results}"@.is_prefix_of(
                #[trigger] (before + "{results}"@ + after).skip(i),
            ),
        forall|i: int| 0 <= i < after.len() ==> !"{results}"@.is_prefix_of(#[trigger] after.skip(i)),
        output.overall_explanation@ == lead + explanation + trail,
        forall|i: int| 0 <= i < lead.len() ==> is_white_space(#[trigger] lead[i]),
        forall|i: int| 0 <= i < trail.len() ==> is_white_space(#[trigger] trail[i]),
        explanation.len() > 0 ==> !is_white_space(explanation.first()) && !is_white_space(
            explanation.last(),
        ),
    ensures
        message.id is Some && message.id->0@ == "review_rollout_user"@,
        message.role@ == "developer"@,
        message.content@.len() == 1,
        message.content@[0] is InputText,
        output.findings@.len() == 0 ==> message.content@[0]->InputText_text@ == before + explanation
            + after,
        output.findings@.len() > 0 ==> message.content@[0]->InputText_text@ == before + explanation
            + seq!['\n'] + texts.findings_block@ + after,
        message.end_turn is None && message.phase is None,
{
    assert forall|i: int| 0 <= i < lead.len() implies Margin::WhiteSpace.has(
        #[trigger] lead[i],
    ) by {}
    assert forall|i: int| 0 <= i < trail.len() implies Margin::WhiteSpace.has(
        #[trigger] trail[i],
    ) by {}
    law_trimming_leaves_the_middle(lead, explanation, trail, Margin::WhiteSpace);
    law_template_is_filled(before, after, output, texts);
    let block = texts.findings_block@;
    assert(before + (explanation + seq!['\n'] + block) + after =~= before + explanation + seq!['\n']
        + block + after);
}

/// The model is told that a review was interrupted in the words of the host's template for that,
/// without a change.
pub proof fn law_model_is_told_of_the_interruption<F, R>(texts: ReviewTexts, message: Message)
    requires
        message.is_developer_message(
            REVIEW_USER_MESSAGE_ID@,
            developer_text(None::<ReviewOutputEvent<F, R>>, texts),
        ),
    ensures
        message.id is Some && message.id->0@ == "review_rollout_user"@,
        message.role@ == "developer"@,
        message.content@.len() == 1,
        message.content@[0] matches ContentItem::InputText { text } && text@
            == texts.exit_interrupted_template@,
        message.end_turn is None && message.phase is None,
{
}

/// A template without a place for the results is passed on as it is, whatever the results are.
pub proof fn law_template_without_a_place_is_kept<F, R>(
    output: ReviewOutputEvent<F, R>,
    texts: ReviewTexts,
)
    requires
        forall|i: int|
            0 <= i < texts.exit_success_template@.len() ==> !"{results}"@.is_prefix_of(
                #[trigger] texts.exit_success_template@.skip(i),
            ),
    ensures
        developer_text(Some(output), texts) == texts.exit_success_template@,
{
    law_absent_pattern_replaces_nothing(
        texts.exit_success_template@,
        RESULTS_PLACEHOLDER@,
        results_text(output, texts),
    );
}

} // verus!
