use codex_review_auth::review::config::{
    build_review_sub_agent_config, start_review_conversation, AskForApproval, Config, Constrained,
    Feature, Features, HostTypes, ModelInfo, Permissions, SubAgentSource, TurnContext,
    WebSearchMode,
};
use codex_review_auth::review::events::{EventMsg, ReviewEventStep, ReviewEvents, TurnItem};
use codex_review_auth::review::exit::{exit_review_mode, ContentItem, ExitAction, Message, ReviewTexts};
use codex_review_auth::review::output::{
    embedded_object, parse_review_output_event, resolve_review_output, review_output,
    ReviewOutputEvent,
};
use codex_review_auth::review::task::{
    ReviewRunAction, ReviewRunEvent, ReviewTask, TaskKind, REVIEW_COUNTER,
};
use serde_json::Value;
use std::path::PathBuf;

// The configuration of the sub-agent.

#[derive(Debug, Clone, PartialEq)]
enum Sandbox {
    DangerFullAccess,
    WorkspaceWrite,
    ReadOnly,
}

struct TestHost;

impl HostTypes for TestHost {
    type Provider = &'static str;
    type ReasoningEffort = Option<u8>;
    type ReasoningSummary = &'static str;
    type ShellEnvironmentPolicy = &'static str;
    type SandboxPolicy = Sandbox;
    type FileSystemSandboxPolicy = &'static str;
    type NetworkSandboxPolicy = &'static str;
    type Path = PathBuf;
    type UserInput = &'static str;
    type JsonSchema = &'static str;
    type History = &'static str;
    type OtherSettings = &'static str;
}

fn session_config() -> Config<TestHost> {
    Config {
        model: Some("session-model".to_string()),
        review_model: None,
        model_provider: "session-provider",
        model_reasoning_effort: None,
        model_reasoning_summary: None,
        developer_instructions: Some("session instructions".to_string()),
        compact_prompt: None,
        base_instructions: Some("session base".to_string()),
        permissions: Permissions {
            approval_policy: Constrained { value: AskForApproval::Other(1), allowed: None },
            sandbox_policy: Sandbox::ReadOnly,
            file_system_sandbox_policy: "session files",
            network_sandbox_policy: "session network",
            shell_environment_policy: "session shell",
        },
        codex_linux_sandbox_exe: None,
        cwd: PathBuf::from("/session"),
        web_search_mode: Constrained {
            value: WebSearchMode::Other(3),
            allowed: Some(vec![WebSearchMode::Disabled, WebSearchMode::Other(3)]),
        },
        features: Features {
            enabled: vec![
                Feature::Other(1),
                Feature::Collab,
                Feature::SpawnCsv,
                Feature::ViewImage,
                Feature::Other(2),
                Feature::Collab,
            ],
            required: Vec::new(),
        },
        other: "everything else",
    }
}

fn turn() -> TurnContext<TestHost> {
    TurnContext {
        config: session_config(),
        model_info: ModelInfo { slug: "turn-model".to_string() },
        provider: "turn-provider",
        reasoning_effort: Some(2),
        reasoning_summary: "turn summary",
        developer_instructions: Some("turn instructions".to_string()),
        compact_prompt: Some("turn compact".to_string()),
        shell_environment_policy: "turn shell",
        codex_linux_sandbox_exe: Some(PathBuf::from("/bin/echo")),
        cwd: PathBuf::from("/turn"),
        sandbox_policy: Sandbox::ReadOnly,
        file_system_sandbox_policy: "turn files",
        network_sandbox_policy: "turn network",
    }
}

#[test]
fn build_review_sub_agent_config_uses_turn_runtime_sandbox_state() {
    let mut turn = turn();
    let base = turn.config.permissions.sandbox_policy.clone();
    let runtime_sandbox = [Sandbox::DangerFullAccess, Sandbox::WorkspaceWrite, Sandbox::ReadOnly]
        .into_iter()
        .find(|candidate| *candidate != base)
        .unwrap_or(base.clone());
    let runtime_cwd_path = PathBuf::from("/runtime");
    turn.cwd = runtime_cwd_path.clone();
    turn.sandbox_policy = runtime_sandbox.clone();
    turn.file_system_sandbox_policy = "runtime files";
    turn.network_sandbox_policy = "runtime network";
    turn.codex_linux_sandbox_exe = Some(PathBuf::from("/bin/echo"));

    assert_ne!(
        runtime_sandbox, base,
        "test requires runtime sandbox override to differ from base config"
    );

    let config = build_review_sub_agent_config(turn, "prompt");

    assert_eq!(config.cwd, runtime_cwd_path);
    assert_eq!(config.permissions.sandbox_policy, runtime_sandbox);
    assert_eq!(config.permissions.file_system_sandbox_policy, "runtime files");
    assert_eq!(config.permissions.network_sandbox_policy, "runtime network");
    assert_eq!(config.permissions.approval_policy.value, AskForApproval::Never);
    assert_eq!(config.codex_linux_sandbox_exe, Some(PathBuf::from("/bin/echo")));
}

#[test]
fn the_review_agent_takes_the_rest_from_the_turn_and_the_session() {
    let config = build_review_sub_agent_config(turn(), "rubric");
    assert_eq!(config.model, Some("turn-model".to_string()));
    assert_eq!(config.model_provider, "turn-provider");
    assert_eq!(config.model_reasoning_effort, Some(2));
    assert_eq!(config.model_reasoning_summary, Some("turn summary"));
    assert_eq!(config.developer_instructions, Some("turn instructions".to_string()));
    assert_eq!(config.compact_prompt, Some("turn compact".to_string()));
    assert_eq!(config.permissions.shell_environment_policy, "turn shell");
    assert_eq!(config.base_instructions, Some("rubric".to_string()));
    assert_eq!(config.other, "everything else");
}

#[test]
fn a_review_model_precedes_the_model_of_the_turn() {
    let mut turn = turn();
    turn.config.review_model = Some("review-model".to_string());
    let config = build_review_sub_agent_config(turn, "rubric");
    assert_eq!(config.model, Some("review-model".to_string()));
    assert_eq!(config.review_model, Some("review-model".to_string()));
}

#[test]
fn the_review_agent_never_asks_and_never_searches_the_web() {
    let config = build_review_sub_agent_config(turn(), "rubric");
    assert_eq!(config.permissions.approval_policy.allowed, Some(vec![AskForApproval::Never]));
    assert_eq!(config.web_search_mode.value, WebSearchMode::Disabled);
    assert!(config.web_search_mode.can_set(WebSearchMode::Other(3)));
}

#[test]
fn the_review_agent_has_no_blocked_features_unless_they_are_required() {
    let config = build_review_sub_agent_config(turn(), "rubric");
    assert_eq!(config.features.enabled, vec![Feature::Other(1), Feature::Other(2)]);

    let mut turn = self::turn();
    turn.config.features.required = vec![Feature::SpawnCsv];
    let config = build_review_sub_agent_config(turn, "rubric");
    assert_eq!(
        config.features.enabled,
        vec![Feature::Other(1), Feature::SpawnCsv, Feature::Other(2)]
    );

    let mut turn = self::turn();
    turn.config.features.required = vec![Feature::ViewImage, Feature::Other(7)];
    let config = build_review_sub_agent_config(turn, "rubric");
    assert_eq!(
        config.features.enabled,
        vec![Feature::Other(1), Feature::ViewImage, Feature::Other(2)]
    );
}

#[test]
fn a_setting_refuses_what_it_does_not_allow() {
    let mut mode = Constrained {
        value: WebSearchMode::Other(1),
        allowed: Some(vec![WebSearchMode::Other(1), WebSearchMode::Other(2)]),
    };
    assert!(!mode.can_set(WebSearchMode::Disabled));
    assert!(mode.set(WebSearchMode::Disabled).is_err());
    assert_eq!(mode.value, WebSearchMode::Other(1));
    assert!(mode.set(WebSearchMode::Other(2)).is_ok());
    assert_eq!(mode.value, WebSearchMode::Other(2));
    mode.allowed = None;
    assert!(mode.set(WebSearchMode::Disabled).is_ok());
}

#[test]
fn a_required_feature_is_not_disabled() {
    let mut features = Features {
        enabled: vec![Feature::Collab, Feature::Other(4)],
        required: vec![Feature::Collab],
    };
    assert!(features.disable(Feature::Collab).is_err());
    assert_eq!(features.enabled, vec![Feature::Collab, Feature::Other(4)]);
    assert!(features.disable(Feature::Other(4)).is_ok());
    assert_eq!(features.enabled, vec![Feature::Collab]);
}

#[test]
fn a_review_conversation_runs_once_without_schema_and_history() {
    let conversation = start_review_conversation(turn(), "rubric", vec!["review this"]);
    assert_eq!(conversation.input, vec!["review this"]);
    assert_eq!(conversation.source, SubAgentSource::Review);
    assert_eq!(conversation.final_output_json_schema, None);
    assert_eq!(conversation.initial_history, None);
    assert_eq!(conversation.config.base_instructions, Some("rubric".to_string()));
    assert_eq!(conversation.config.model, Some("turn-model".to_string()));
}

// The events of the conversation.

/// Feeds the events; returns what was sent on, by payload, and the last agent message.
fn process(events: Vec<EventMsg<u32>>) -> (Vec<u32>, Option<String>) {
    let mut state: ReviewEvents<u32> = ReviewEvents::new();
    let mut sent = Vec::new();
    for event in events {
        match state.process_review_event(event) {
            ReviewEventStep::Continue { forward: None } => {}
            ReviewEventStep::Continue { forward: Some(msg) } => sent.push(match msg {
                EventMsg::AgentMessage(payload) => payload,
                EventMsg::ItemCompleted(TurnItem::Other(payload)) => payload,
                EventMsg::Other(payload) => payload,
                _ => panic!("a hidden message was sent on"),
            }),
            ReviewEventStep::Finish { last_agent_message } => return (sent, last_agent_message),
        }
    }
    match state.channel_closed() {
        ReviewEventStep::Finish { last_agent_message } => (sent, last_agent_message),
        ReviewEventStep::Continue { .. } => panic!("a closed channel ends the review"),
    }
}

fn complete(message: &str) -> EventMsg<u32> {
    EventMsg::TurnComplete { last_agent_message: Some(message.to_string()) }
}

#[test]
fn agent_messages_are_held_back_until_the_next_one_comes() {
    let (sent, last) = process(vec![
        EventMsg::AgentMessage(1),
        EventMsg::Other(2),
        EventMsg::AgentMessage(3),
        EventMsg::Other(4),
        EventMsg::AgentMessage(5),
        complete("done"),
        EventMsg::Other(6),
    ]);
    assert_eq!(sent, vec![2, 1, 4, 3]);
    assert_eq!(last, Some("done".to_string()));
}

#[test]
fn completed_assistant_messages_and_deltas_are_hidden() {
    let (sent, last) = process(vec![
        EventMsg::AgentMessageDelta(1),
        EventMsg::AgentMessageContentDelta(2),
        EventMsg::ItemCompleted(TurnItem::AgentMessage(3)),
        EventMsg::ItemCompleted(TurnItem::Other(4)),
        EventMsg::TurnComplete { last_agent_message: None },
    ]);
    assert_eq!(sent, vec![4]);
    assert_eq!(last, None);
}

#[test]
fn an_aborted_turn_and_a_closed_channel_have_no_last_message() {
    let (sent, last) =
        process(vec![EventMsg::AgentMessage(1), EventMsg::TurnAborted, complete("late")]);
    assert_eq!((sent, last), (vec![], None));
    let (sent, last) = process(vec![EventMsg::AgentMessage(1), EventMsg::Other(2)]);
    assert_eq!((sent, last), (vec![2], None));
}

// The output of the review.

type Output = ReviewOutputEvent<String, u8>;

/// Reads an object with an explanation and a list of findings.
fn parse(text: &str) -> Option<Output> {
    let value: Value = serde_json::from_str(text).ok()?;
    let overall_explanation = value.get("overall_explanation")?.as_str()?.to_string();
    let findings = value.get("findings")?.as_array()?;
    Some(ReviewOutputEvent {
        findings: findings.iter().map(|f| f.as_str().unwrap().to_string()).collect(),
        overall_explanation,
        rest: 1,
    })
}

const JSON: &str = r#"{"overall_explanation": "fine", "findings": ["one"]}"#;

fn assert_parsed(output: &Output) {
    assert_eq!(output.overall_explanation, "fine");
    assert_eq!(output.findings, vec!["one".to_string()]);
    assert_eq!(output.rest, 1);
}

fn assert_plain(output: &Output, text: &str) {
    assert_eq!(output.overall_explanation, text);
    assert!(output.findings.is_empty());
    assert_eq!(output.rest, 0);
}

#[test]
fn a_text_that_parses_is_the_output() {
    assert_parsed(&parse_review_output_event(JSON, parse));
}

#[test]
fn an_object_within_the_text_is_the_output() {
    let text = format!("Here it is \u{e9}:\n{JSON}\nThat's all.");
    assert_parsed(&parse_review_output_event(&text, parse));
}

#[test]
fn any_other_text_is_carried_as_the_explanation() {
    for text in ["", "no object", "} {", "{", "}", "{not json}", "{a} and {b}"] {
        assert_plain(&parse_review_output_event(text, parse), text);
    }
}

#[test]
fn the_embedded_object_reaches_from_the_first_brace_to_the_one_that_closes_it() {
    assert_eq!(embedded_object("a{b}c{d}e"), Some("{b}"));
    assert_eq!(embedded_object("a}{b{c}{d}}e}"), Some("{b{c}{d}}"));
    assert_eq!(embedded_object("\u{e9}{}\u{e9}"), Some("{}"));
    assert_eq!(embedded_object("{}"), Some("{}"));
    assert_eq!(embedded_object("}{"), None);
    assert_eq!(embedded_object("{"), None);
    assert_eq!(embedded_object("{{}"), None);
    assert_eq!(embedded_object("plain"), None);
}

#[test]
fn braces_within_strings_do_not_count() {
    assert_eq!(embedded_object(r#"a {"k": "}{"} b}"#), Some(r#"{"k": "}{"}"#));
    assert_eq!(embedded_object(r#"{"k": "\"}"} b}"#), Some(r#"{"k": "\"}"}"#));
    assert_eq!(embedded_object(r#"{"k": "\\"} b}"#), Some(r#"{"k": "\\"}"#));
    assert_eq!(embedded_object(r#"say "x {"k": 1} b}"#), Some(r#"{"k": 1}"#));
    assert_eq!(embedded_object(r#"{"k": "}"#), None);
}

#[test]
fn the_first_of_two_objects_is_the_output() {
    let second = r#"{"overall_explanation": "two", "findings": []}"#;
    assert_eq!(parse(second).unwrap().overall_explanation, "two");
    let text = format!("{JSON} and {second}");
    assert_parsed(&parse_review_output_event(&text, parse));
    let output = parse_review_output_event(&format!("{second}{JSON}"), parse);
    assert_eq!(output.overall_explanation, "two");
}

#[test]
fn a_later_object_is_the_output_where_the_earlier_ones_do_not_parse() {
    for before in ["{x} ", "{x}{y {z}}", "a { b ", "{\"k\": 1}\n\n", "set {\"}\"} to: "] {
        let text = format!("{before}{JSON} {{}}");
        assert_parsed(&parse_review_output_event(&text, parse));
    }
    let nested = format!("{{\"review\": {JSON}}}");
    assert_plain(&parse_review_output_event(&nested, parse), &nested);
}

#[test]
fn the_whole_text_precedes_the_object_in_it() {
    let other = || ReviewOutputEvent {
        findings: Vec::new(),
        overall_explanation: "other".to_string(),
        rest: 9,
    };
    assert_parsed(&resolve_review_output("text", parse(JSON), Some(other())));
    assert_eq!(resolve_review_output("text", None, Some(other())).overall_explanation, "other");
    assert_plain(&resolve_review_output("text", None, None), "text");
}

#[test]
fn there_is_no_output_without_a_last_message() {
    assert!(review_output(None, parse).is_none());
    assert_parsed(&review_output(Some(JSON.to_string()), parse).unwrap());
}

#[test]
fn the_default_output_is_empty() {
    let output: Output = Default::default();
    assert_plain(&output, "");
}

// The end of the review mode.

const TEXTS: ReviewTexts<'static> = ReviewTexts {
    exit_success_template: "<results>{results}</results>",
    exit_interrupted_template: "<interrupted/>",
    findings_block: "- one",
    output_text: "rendered",
};

fn text_of(message: &Message) -> &str {
    assert_eq!(message.content.len(), 1);
    assert_eq!(message.end_turn, None);
    assert_eq!(message.phase, None);
    match &message.content[0] {
        ContentItem::InputText { text } => {
            assert_eq!(message.role, "developer");
            assert_eq!(message.id, Some("review_rollout_user".to_string()));
            text
        }
        ContentItem::OutputText { text } => {
            assert_eq!(message.role, "assistant");
            assert_eq!(message.id, Some("review_rollout_assistant".to_string()));
            text
        }
    }
}

/// Leaves the review mode; returns both texts and the output that is sent.
fn leave(output: Option<Output>) -> (String, String, Option<Output>) {
    let mut actions = exit_review_mode(output, TEXTS).into_iter();
    let user = match actions.next() {
        Some(ExitAction::RecordConversationItem(message)) => text_of(&message).to_string(),
        _ => panic!("the model is told first"),
    };
    let sent = match actions.next() {
        Some(ExitAction::SendExitedReviewMode { review_output }) => review_output,
        _ => panic!("the event comes second"),
    };
    let assistant = match actions.next() {
        Some(ExitAction::RecordAndEmitTurnItem(message)) => text_of(&message).to_string(),
        _ => panic!("the output comes third"),
    };
    assert!(matches!(actions.next(), Some(ExitAction::EnsureRolloutMaterialized)));
    assert!(actions.next().is_none());
    (user, assistant, sent)
}

#[test]
fn a_review_with_findings_reports_explanation_and_block() {
    let mut output = parse(JSON).unwrap();
    output.overall_explanation = "  fine \n".to_string();
    let (user, assistant, sent) = leave(Some(output));
    assert_eq!(user, "<results>fine\n- one</results>");
    assert_eq!(assistant, "rendered");
    assert_eq!(sent.unwrap().overall_explanation, "  fine \n");
}

#[test]
fn a_review_without_explanation_reports_the_block_on_its_own_line() {
    let mut output = parse(JSON).unwrap();
    output.overall_explanation = "  ".to_string();
    let (user, _, _) = leave(Some(output));
    assert_eq!(user, "<results>\n- one</results>");
}

#[test]
fn a_review_without_findings_reports_the_explanation_alone() {
    let mut output = parse(JSON).unwrap();
    output.findings.clear();
    output.overall_explanation = "see {results}".to_string();
    let (user, _, _) = leave(Some(output));
    assert_eq!(user, "<results>see {results}</results>");
}

#[test]
fn an_interrupted_review_says_so() {
    let (user, assistant, sent) = leave(None);
    assert_eq!(user, "<interrupted/>");
    assert_eq!(
        assistant,
        "Review was interrupted. Please re-run /review and wait for it to complete."
    );
    assert!(sent.is_none());
}

// The task.

/// Runs the task; returns the outputs with which the review mode was left.
fn run(started: bool, output: Option<u8>, cancelled: bool) -> Vec<Option<u8>> {
    let task = ReviewTask::new();
    let mut exits = Vec::new();
    let mut action = task.run(ReviewRunEvent::Started(started));
    loop {
        let event = match action {
            ReviewRunAction::ProcessEvents => ReviewRunEvent::Processed { output },
            ReviewRunAction::AskWhetherCancelled { output } => {
                ReviewRunEvent::Asked { output, cancelled }
            }
            ReviewRunAction::ExitReviewMode { output } => {
                exits.push(output);
                ReviewRunEvent::Exited
            }
            ReviewRunAction::Return { last_agent_message } => {
                assert_eq!(last_agent_message, None);
                return exits;
            }
        };
        action = task.run(event);
    }
}

#[test]
fn a_run_leaves_the_review_mode_once_unless_it_is_cancelled() {
    assert_eq!(run(true, Some(3), false), vec![Some(3)]);
    assert_eq!(run(true, None, false), vec![None]);
    assert_eq!(run(false, Some(3), false), vec![None]);
    assert_eq!(run(true, Some(3), true), Vec::<Option<u8>>::new());
    assert_eq!(run(false, None, true), Vec::<Option<u8>>::new());
}

#[test]
fn an_aborted_task_leaves_the_review_mode_without_output() {
    assert!(matches!(
        ReviewTask::new().abort::<u8>(),
        ReviewRunAction::ExitReviewMode { output: None }
    ));
}

#[test]
fn the_task_names_itself() {
    let task = ReviewTask::new();
    assert_eq!(task.kind(), TaskKind::Review);
    assert_eq!(task.span_name(), "session_task.review");
    assert_eq!(REVIEW_COUNTER, "codex.task.review");
}
