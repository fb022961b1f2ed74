//! The configuration of the sub-agent that reviews.

use vstd::prelude::*;

verus! {

/// The types of a host's settings that the review hands on without looking into them.
pub trait HostTypes {
    type Provider;

    type ReasoningEffort;

    type ReasoningSummary;

    type ShellEnvironmentPolicy;

    type SandboxPolicy;

    type FileSystemSandboxPolicy;

    type NetworkSandboxPolicy;

    type Path;

    type UserInput;

    type JsonSchema;

    type History;

    /// All settings that the review leaves as they are.
    type OtherSettings;
}

/// How the agent may search the web. A mode that the review does not name has a number.
#[derive(Debug, Clone, Copy, PartialEq, Eq, Structural)]
pub enum WebSearchMode {
    Disabled,
    Other(u32),
}

/// When the agent asks for approval. A policy that the review does not name has a number.
#[derive(Debug, Clone, Copy, PartialEq, Eq, Structural)]
pub enum AskForApproval {
    Never,
    Other(u32),
}

/// A feature of the agent. A feature that the review does not name has a number.
#[derive(Debug, Clone, Copy, PartialEq, Eq, Structural)]
pub enum Feature {
    SpawnCsv,
    Collab,
    ViewImage,
    Other(u32),
}

/// A setting together with the values that it can be set to; `None` stands for all values.
#[derive(Debug)]
pub struct Constrained<T> {
    pub value: T,
    pub allowed: Option<Vec<T>>,
}

/// A value was refused.
#[derive(Debug)]
pub struct ConstraintError;

impl<T> Constrained<T> {
    /// Whether the setting can be set to `value`.
    pub open spec fn allows(self, value: T) -> bool {
        match self.allowed {
            Some(values) => values@.contains(value),
            None => true,
        }
    }
}

impl Constrained<WebSearchMode> {
    /// Tells whether the setting can be set to `value`.
    pub fn can_set(&self, value: WebSearchMode) -> (r: bool)
        ensures
            r == self.allows(value),
    {
        match &self.allowed {
            None => true,
            Some(values) => {
                for i in 0..values.len()
                    invariant
                        self.allowed == Some(*values),
                        forall|j: int| 0 <= j < i ==> values@[j] != value,
                {
                    if values[i] == value {
                        return true;
                    }
                }
                false
            },
        }
    }

    /// Sets the setting, or refuses the value and leaves the setting as it is.
    pub fn set(&mut self, value: WebSearchMode) -> (r: Result<(), ConstraintError>)
        ensures
            r is Ok <==> old(self).allows(value),
            final(self).allowed == old(self).allowed,
            final(self).value == if old(self).allows(value) {
                value
            } else {
                old(self).value
            },
    {
        if self.can_set(value) {
            self.value = value;
            Ok(())
        } else {
            Err(ConstraintError)
        }
    }
}

impl Constrained<AskForApproval> {
    /// The setting that has this value and can be set to no other.
    pub fn allow_only(value: AskForApproval) -> (r: Self)
        ensures
            r.value == value,
            r.allowed matches Some(values) && values@ == seq![value],
    {
        let mut values: Vec<AskForApproval> = Vec::new();
        values.push(value);
        assert(values@ =~= seq![value]);
        Constrained { value, allowed: Some(values) }
    }
}

/// The features that are on, and those that have to stay on.
#[derive(Debug)]
pub struct Features {
    pub enabled: Vec<Feature>,
    pub required: Vec<Feature>,
}

/// Whether a feature is another one than `feature`.
pub open spec fn is_not(feature: Feature) -> spec_fn(Feature) -> bool {
    |other: Feature| other != feature
}

/// `list` without `feature`.
pub open spec fn without(list: Seq<Feature>, feature: Feature) -> Seq<Feature> {
    list.filter(is_not(feature))
}

/// The features of `enabled` that are left when `feature` is to be disabled: it stays where it
/// is required.
pub open spec fn disabled(enabled: Seq<Feature>, required: Seq<Feature>, feature: Feature) -> Seq<
    Feature,
> {
    if required.contains(feature) {
        enabled
    } else {
        without(enabled, feature)
    }
}

impl Features {
    /// Whether a feature has to stay on.
    fn is_required(&self, feature: Feature) -> (r: bool)
        ensures
            r == self.required@.contains(feature),
    {
        for i in 0..self.required.len()
            invariant
                forall|j: int| 0 <= j < i ==> self.required@[j] != feature,
        {
            if self.required[i] == feature {
                return true;
            }
        }
        false
    }

    /// Disables a feature, or refuses to where it has to stay on.
    pub fn disable(&mut self, feature: Feature) -> (r: Result<(), ConstraintError>)
        ensures
            r is Ok <==> !old(self).required@.contains(feature),
            final(self).required == old(self).required,
            final(self).enabled@ == disabled(old(self).enabled@, old(self).required@, feature),
    {
        if self.is_required(feature) {
            return Err(ConstraintError);
        }
        let mut kept: Vec<Feature> = Vec::new();
        let ghost all = self.enabled@;
        assert(all.take(0) =~= seq![]);
        reveal(Seq::filter);
        for i in 0..self.enabled.len()
            invariant
                all == self.enabled@,
                kept@ == without(all.take(i as int), feature),
        {
            reveal(Seq::filter);
            assert(all.take(i + 1).drop_last() =~= all.take(i as int));
            if self.enabled[i] != feature {
                kept.push(self.enabled[i]);
            }
        }
        assert(all.take(all.len() as int) =~= all);
        self.enabled = kept;
        Ok(())
    }
}

/// What the agent is permitted to do.
pub struct Permissions<H: HostTypes> {
    pub approval_policy: Constrained<AskForApproval>,
    pub sandbox_policy: H::SandboxPolicy,
    pub file_system_sandbox_policy: H::FileSystemSandboxPolicy,
    pub network_sandbox_policy: H::NetworkSandboxPolicy,
    pub shell_environment_policy: H::ShellEnvironmentPolicy,
}

/// The configuration of an agent.
pub struct Config<H: HostTypes> {
    pub model: Option<String>,
    pub review_model: Option<String>,
    pub model_provider: H::Provider,
    pub model_reasoning_effort: H::ReasoningEffort,
    pub model_reasoning_summary: Option<H::ReasoningSummary>,
    pub developer_instructions: Option<String>,
    pub compact_prompt: Option<String>,
    pub base_instructions: Option<String>,
    pub permissions: Permissions<H>,
    pub codex_linux_sandbox_exe: Option<H::Path>,
    pub cwd: H::Path,
    pub web_search_mode: Constrained<WebSearchMode>,
    pub features: Features,
    pub other: H::OtherSettings,
}

/// What is known of the model of a turn.
pub struct ModelInfo {
    pub slug: String,
}

/// The turn from which a review is started, with the configuration of its session.
pub struct TurnContext<H: HostTypes> {
    pub config: Config<H>,
    pub model_info: ModelInfo,
    pub provider: H::Provider,
    pub reasoning_effort: H::ReasoningEffort,
    pub reasoning_summary: H::ReasoningSummary,
    pub developer_instructions: Option<String>,
    pub compact_prompt: Option<String>,
    pub shell_environment_policy: H::ShellEnvironmentPolicy,
    pub codex_linux_sandbox_exe: Option<H::Path>,
    pub cwd: H::Path,
    pub sandbox_policy: H::SandboxPolicy,
    pub file_system_sandbox_policy: H::FileSystemSandboxPolicy,
    pub network_sandbox_policy: H::NetworkSandboxPolicy,
}

impl<H: HostTypes> Config<H> {
    /// Whether this configuration takes what the turn decides from the turn.
    pub open spec fn follows_turn(self, ctx: TurnContext<H>) -> bool {
        &&& self.model_provider == ctx.provider
        &&& self.model_reasoning_effort == ctx.reasoning_effort
        &&& self.model_reasoning_summary == Some(ctx.reasoning_summary)
        &&& self.developer_instructions == ctx.developer_instructions
        &&& self.compact_prompt == ctx.compact_prompt
        &&& self.permissions.shell_environment_policy == ctx.shell_environment_policy
        &&& self.permissions.sandbox_policy == ctx.sandbox_policy
        &&& self.permissions.file_system_sandbox_policy == ctx.file_system_sandbox_policy
        &&& self.permissions.network_sandbox_policy == ctx.network_sandbox_policy
        &&& self.codex_linux_sandbox_exe == ctx.codex_linux_sandbox_exe
        &&& self.cwd == ctx.cwd
    }

    /// Whether this configuration is that of a review agent for a session configured by `session`:
    /// no web search, no spawning, collaboration and image viewing features, no approval ever, and
    /// the review prompt as its instructions.
    pub open spec fn reviews(self, session: Config<H>, review_prompt: Seq<char>) -> bool {
        let enabled = session.features.enabled@;
        let required = session.features.required@;
        &&& self.web_search_mode.value == WebSearchMode::Disabled
        &&& self.web_search_mode.allowed == session.web_search_mode.allowed
        &&& self.features.required == session.features.required
        &&& self.features.enabled@ == disabled(
            disabled(disabled(enabled, required, Feature::SpawnCsv), required, Feature::Collab),
            required,
            Feature::ViewImage,
        )
        &&& self.permissions.approval_policy.value == AskForApproval::Never
        &&& self.permissions.approval_policy.allowed matches Some(values) && values@
            == seq![AskForApproval::Never]
        &&& self.base_instructions matches Some(instructions) && instructions@ == review_prompt
    }
}

/// The model that reviews: the review model of the configuration, or else the model of the turn.
pub open spec fn reviewing_model<H: HostTypes>(ctx: TurnContext<H>) -> String {
    match ctx.config.review_model {
        Some(model) => model,
        None => ctx.model_info.slug,
    }
}

/// The configuration of the sub-agent that reviews for a turn. The session has to allow that web
/// search is disabled.
pub fn build_review_sub_agent_config<H: HostTypes>(
    ctx: TurnContext<H>,
    review_prompt: &str,
) -> (r: Config<H>)
    requires
        ctx.config.web_search_mode.allows(WebSearchMode::Disabled),
    ensures
        r.follows_turn(ctx),
        r.reviews(ctx.config, review_prompt@),
        r.model == Some(reviewing_model(ctx)),
        r.review_model == ctx.config.review_model,
        r.other == ctx.config.other,
        r.base_instructions is Some && r.base_instructions->0@ == review_prompt@,
{
    let mut config = ctx.config;
    config.model_provider = ctx.provider;
    config.model_reasoning_effort = ctx.reasoning_effort;
    config.model_reasoning_summary = Some(ctx.reasoning_summary);
    config.developer_instructions = ctx.developer_instructions;
    config.compact_prompt = ctx.compact_prompt;
    config.permissions.shell_environment_policy = ctx.shell_environment_policy;
    config.codex_linux_sandbox_exe = ctx.codex_linux_sandbox_exe;
    config.cwd = ctx.cwd;
    config.permissions.sandbox_policy = ctx.sandbox_policy;
    config.permissions.file_system_sandbox_policy = ctx.file_system_sandbox_policy;
    config.permissions.network_sandbox_policy = ctx.network_sandbox_policy;

    let _ = config.web_search_mode.set(WebSearchMode::Disabled);
    let _ = config.features.disable(Feature::SpawnCsv);
    let _ = config.features.disable(Feature::Collab);
    let _ = config.features.disable(Feature::ViewImage);

    config.base_instructions = Some(review_prompt.to_string());
    config.permissions.approval_policy = Constrained::<AskForApproval>::allow_only(
        AskForApproval::Never,
    );

    let model = match &config.review_model {
        Some(model) => model.clone(),
        None => ctx.model_info.slug,
    };
    config.model = Some(model);
    config
}

/// Where the conversation of a sub-agent comes from.
#[derive(Debug, Clone, Copy, PartialEq, Eq, Structural)]
pub enum SubAgentSource {
    Review,
    Other(u32),
}

/// The conversation of a sub-agent, to be run once.
pub struct OneShotConversation<H: HostTypes> {
    pub config: Config<H>,
    pub input: Vec<H::UserInput>,
    pub source: SubAgentSource,
    pub final_output_json_schema: Option<H::JsonSchema>,
    pub initial_history: Option<H::History>,
}

/// The conversation in which a sub-agent reviews `input` for a turn: without a schema for its
/// output, and without a history.
pub fn start_review_conversation<H: HostTypes>(
    ctx: TurnContext<H>,
    review_prompt: &str,
    input: Vec<H::UserInput>,
) -> (r: OneShotConversation<H>)
    requires
        ctx.config.web_search_mode.allows(WebSearchMode::Disabled),
    ensures
        r.config.follows_turn(ctx),
        r.config.reviews(ctx.config, review_prompt@),
        r.config.model == Some(reviewing_model(ctx)),
        r.config.review_model == ctx.config.review_model,
        r.config.other == ctx.config.other,
        r.config.base_instructions is Some && r.config.base_instructions->0@ == review_prompt@,
        r.input == input,
        r.source == SubAgentSource::Review,
        r.final_output_json_schema is None,
        r.initial_history is None,
{
    OneShotConversation {
        config: build_review_sub_agent_config(ctx, review_prompt),
        input,
        source: SubAgentSource::Review,
        final_output_json_schema: None,
        initial_history: None,
    }
}

/// A review agent never asks for approval, and no later setting can make it ask.
pub proof fn law_review_agent_never_asks<H: HostTypes>(
    config: Config<H>,
    session: Config<H>,
    review_prompt: Seq<char>,
)
    requires
        config.reviews(session, review_prompt),
    ensures
        config.permissions.approval_policy.value == AskForApproval::Never,
        forall|policy: AskForApproval| #[trigger]
            config.permissions.approval_policy.allows(policy) <==> policy == AskForApproval::Never,
{
    let values = config.permissions.approval_policy.allowed->0@;
    assert(values[0] == AskForApproval::Never);
}

/// Disabling a feature takes that one off, unless it is required, and no other.
proof fn lemma_disabled(enabled: Seq<Feature>, required: Seq<Feature>, feature: Feature)
    ensures
        forall|other: Feature| #[trigger]
            disabled(enabled, required, feature).contains(other) <==> enabled.contains(other) && (
            other != feature || required.contains(feature)),
{
    let keep = is_not(feature);
    let left = disabled(enabled, required, feature);
    if !required.contains(feature) {
        assert forall|other: Feature| #[trigger]
            left.contains(other) implies enabled.contains(other) && other != feature by {
            let i = choose|i: int| 0 <= i < left.len() && left[i] == other;
            enabled.lemma_filter_pred(keep, i);
            enabled.lemma_filter_contains_rev(keep, other);
        }
        assert forall|other: Feature| enabled.contains(other) && other != feature implies
            #[trigger] left.contains(other) by {
            let i = choose|i: int| 0 <= i < enabled.len() && enabled[i] == other;
            enabled.lemma_filter_contains(keep, i);
        }
    }
}

/// A review agent has the features of its session, without spawning, collaboration and image
/// viewing unless the session requires them.
pub proof fn law_review_agent_features<H: HostTypes>(
    config: Config<H>,
    session: Config<H>,
    review_prompt: Seq<char>,
    feature: Feature,
)
    requires
        config.reviews(session, review_prompt),
    ensures
        config.features.enabled@.contains(feature) <==> session.features.enabled@.contains(feature)
            && (session.features.required@.contains(feature) || (feature != Feature::SpawnCsv
            && feature != Feature::Collab && feature != Feature::ViewImage)),
{
    let enabled = session.features.enabled@;
    let required = session.features.required@;
    let without_spawning = disabled(enabled, required, Feature::SpawnCsv);
    let without_collaboration = disabled(without_spawning, required, Feature::Collab);
    lemma_disabled(enabled, required, Feature::SpawnCsv);
    lemma_disabled(without_spawning, required, Feature::Collab);
    lemma_disabled(without_collaboration, required, Feature::ViewImage);
}

/// A review agent runs with the review prompt as its instructions, whatever instructions its
/// session has or lacks.
pub proof fn law_review_agent_has_the_review_prompt<H: HostTypes>(
    config: Config<H>,
    session: Config<H>,
    review_prompt: Seq<char>,
)
    requires
        config.reviews(session, review_prompt),
    ensures
        config.base_instructions is Some,
        config.base_instructions->0@ == review_prompt,
{
}

/// A review agent runs where the turn runs, on its provider and under its sandbox, with nothing of
/// the session in their place, and it never searches the web, though it is allowed what its
/// session is.
pub proof fn law_review_agent_runs_like_the_turn<H: HostTypes>(
    config: Config<H>,
    ctx: TurnContext<H>,
    review_prompt: Seq<char>,
)
    requires
        config.follows_turn(ctx),
        config.reviews(ctx.config, review_prompt),
    ensures
        config.model_provider == ctx.provider,
        config.model_reasoning_effort == ctx.reasoning_effort,
        config.model_reasoning_summary == Some(ctx.reasoning_summary),
        config.developer_instructions == ctx.developer_instructions,
        config.compact_prompt == ctx.compact_prompt,
        config.permissions.shell_environment_policy == ctx.shell_environment_policy,
        config.permissions.sandbox_policy == ctx.sandbox_policy,
        config.permissions.file_system_sandbox_policy == ctx.file_system_sandbox_policy,
        config.permissions.network_sandbox_policy == ctx.network_sandbox_policy,
        config.codex_linux_sandbox_exe == ctx.codex_linux_sandbox_exe,
        config.cwd == ctx.cwd,
        config.web_search_mode.value == WebSearchMode::Disabled,
        config.web_search_mode.allowed == ctx.config.web_search_mode.allowed,
        config.features.required == ctx.config.features.required,
{
}

/// A model that is set for reviews is the one that reviews, and the model of the turn is where
/// none is set.
pub proof fn law_reviewing_model<H: HostTypes>(ctx: TurnContext<H>)
    ensures
        ctx.config.review_model is Some ==> Some(reviewing_model(ctx)) == ctx.config.review_model,
        ctx.config.review_model is None ==> reviewing_model(ctx) == ctx.model_info.slug,
{
}

/// A setting allows everything, or exactly the values in its list.
pub proof fn law_allowed_values<T>(setting: Constrained<T>, value: T)
    ensures
        setting.allowed is None ==> setting.allows(value),
        setting.allowed matches Some(values) ==> (setting.allows(value) <==> exists|i: int|
            0 <= i < values@.len() && #[trigger] values@[i] == value),
{
}

/// Two filters with the same choice keep the same features.
proof fn lemma_same_filter(
    list: Seq<Feature>,
    keep: spec_fn(Feature) -> bool,
    other: spec_fn(Feature) -> bool,
)
    requires
        forall|feature: Feature| #[trigger] keep(feature) == other(feature),
    ensures
        list.filter(keep) == list.filter(other),
    decreases list.len(),
{
    reveal(Seq::filter);
    if list.len() > 0 {
        lemma_same_filter(list.drop_last(), keep, other);
        assert(keep(list.last()) == other(list.last()));
    }
}

/// Filtering twice is filtering by both choices.
proof fn lemma_filter_twice(
    list: Seq<Feature>,
    keep: spec_fn(Feature) -> bool,
    also: spec_fn(Feature) -> bool,
    both: spec_fn(Feature) -> bool,
)
    requires
        forall|feature: Feature| #[trigger] both(feature) == (keep(feature) && also(feature)),
    ensures
        list.filter(keep).filter(also) == list.filter(both),
    decreases list.len(),
{
    reveal(Seq::filter);
    if list.len() > 0 {
        let init = list.drop_last();
        let last = list.last();
        lemma_filter_twice(init, keep, also, both);
        assert(both(last) == (keep(last) && also(last)));
        if keep(last) {
            assert(init.filter(keep).push(last).drop_last() =~= init.filter(keep));
        }
    }
}

/// A filter that keeps every feature keeps the list.
proof fn lemma_filter_all(list: Seq<Feature>, keep: spec_fn(Feature) -> bool)
    requires
        forall|feature: Feature| #[trigger] keep(feature),
    ensures
        list.filter(keep) == list,
    decreases list.len(),
{
    reveal(Seq::filter);
    if list.len() > 0 {
        lemma_filter_all(list.drop_last(), keep);
        assert(keep(list.last()));
        assert(list.drop_last().push(list.last()) =~= list);
    }
}

/// Disabling a feature takes every occurrence of it off and leaves the others in their order;
/// where the feature is required, everything stays.
pub proof fn law_disabling(enabled: Seq<Feature>, required: Seq<Feature>, feature: Feature)
    ensures
        disabled(enabled, required, feature) == enabled.filter(
            |other: Feature| other != feature || required.contains(other),
        ),
{
    let keep = |other: Feature| other != feature || required.contains(other);
    if required.contains(feature) {
        lemma_filter_all(enabled, keep);
    } else {
        lemma_same_filter(enabled, is_not(feature), keep);
    }
}

/// The features of a review agent are those of its session, in their order, but for spawning,
/// collaboration and image viewing where the session does not require them.
pub proof fn law_review_agent_keeps_the_other_features<H: HostTypes>(
    config: Config<H>,
    session: Config<H>,
    review_prompt: Seq<char>,
)
    requires
        config.reviews(session, review_prompt),
    ensures
        config.features.enabled@ == session.features.enabled@.filter(
            |feature: Feature|
                session.features.required@.contains(feature) || (feature != Feature::SpawnCsv
                    && feature != Feature::Collab && feature != Feature::ViewImage),
        ),
{
    let enabled = session.features.enabled@;
    let required = session.features.required@;
    let all = |feature: Feature|
        required.contains(feature) || (feature != Feature::SpawnCsv && feature != Feature::Collab
            && feature != Feature::ViewImage);
    let no_spawning = |other: Feature| other != Feature::SpawnCsv || required.contains(other);
    let no_collaboration = |other: Feature| other != Feature::Collab || required.contains(other);
    let no_images = |other: Feature| other != Feature::ViewImage || required.contains(other);
    let two = |feature: Feature| no_spawning(feature) && no_collaboration(feature);
    law_disabling(enabled, required, Feature::SpawnCsv);
    law_disabling(enabled.filter(no_spawning), required, Feature::Collab);
    lemma_filter_twice(enabled, no_spawning, no_collaboration, two);
    law_disabling(enabled.filter(two), required, Feature::ViewImage);
    lemma_filter_twice(enabled, two, no_images, all);
}

} // verus!
