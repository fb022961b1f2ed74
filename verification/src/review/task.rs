//! The review as a task of a session.

use vstd::prelude::*;

verus! {

/// The counter that a review task adds one to when it runs.
pub const REVIEW_COUNTER: &'static str = "codex.task.review";

/// The kind of a session's task. A kind that the review does not name has a number.
#[derive(Debug, Clone, Copy, PartialEq, Eq, Structural)]
pub enum TaskKind {
    Review,
    Other(u32),
}

/// The task that reviews.
#[derive(Debug, Clone, Copy)]
pub struct ReviewTask;

/// What the caller knows at a stage of the task. `O` is the output of a review.
pub enum ReviewRunEvent<O> {
    /// The review conversation was started, or could not be.
    Started(bool),
    /// The events of the conversation are processed.
    Processed { output: Option<O> },
    /// It was asked whether the task is cancelled.
    Asked { output: Option<O>, cancelled: bool },
    /// The review mode is left.
    Exited,
}

/// What the caller does next.
pub enum ReviewRunAction<O> {
    /// Process the events of the conversation.
    ProcessEvents,
    /// Ask whether the task is cancelled.
    AskWhetherCancelled { output: Option<O> },
    /// Leave the review mode with this output.
    ExitReviewMode { output: Option<O> },
    /// Return from the task with this last agent message.
    Return { last_agent_message: Option<String> },
}

/// What follows from an event.
pub open spec fn run_action<O>(event: ReviewRunEvent<O>) -> ReviewRunAction<O> {
    match event {
        ReviewRunEvent::Started(true) => ReviewRunAction::ProcessEvents,
        ReviewRunEvent::Started(false) => ReviewRunAction::AskWhetherCancelled { output: None },
        ReviewRunEvent::Processed { output } => ReviewRunAction::AskWhetherCancelled { output },
        ReviewRunEvent::Asked { output, cancelled: false } => ReviewRunAction::ExitReviewMode {
            output,
        },
        ReviewRunEvent::Asked { output: _, cancelled: true } => ReviewRunAction::Return {
            last_agent_message: None,
        },
        ReviewRunEvent::Exited => ReviewRunAction::Return { last_agent_message: None },
    }
}

impl ReviewTask {
    /// The task.
    pub fn new() -> (r: Self)
        ensures
            r == ReviewTask,
    {
        ReviewTask
    }

    /// The kind of a review task.
    pub fn kind(&self) -> (r: TaskKind)
        ensures
            r == TaskKind::Review,
    {
        TaskKind::Review
    }

    /// The name under which a review task is traced.
    pub fn span_name(&self) -> (r: &'static str)
        ensures
            r@ == "session_task.review"@,
    {
        "session_task.review"
    }

    /// Runs the task, one stage at a time. A conversation that could not be started counts as a
    /// review without output, and a cancelled task does not leave the review mode itself.
    pub fn run<O>(&self, event: ReviewRunEvent<O>) -> (r: ReviewRunAction<O>)
        ensures
            r == run_action(event),
    {
        match event {
            ReviewRunEvent::Started(started) => {
                if started {
                    ReviewRunAction::ProcessEvents
                } else {
                    ReviewRunAction::AskWhetherCancelled { output: None }
                }
            },
            ReviewRunEvent::Processed { output } => ReviewRunAction::AskWhetherCancelled { output },
            ReviewRunEvent::Asked { output, cancelled } => {
                if cancelled {
                    ReviewRunAction::Return { last_agent_message: None }
                } else {
                    ReviewRunAction::ExitReviewMode { output }
                }
            },
            ReviewRunEvent::Exited => ReviewRunAction::Return { last_agent_message: None },
        }
    }

    /// Aborts the task: the review mode is left without output.
    pub fn abort<O>(&self) -> (r: ReviewRunAction<O>)
        ensures
            r == (ReviewRunAction::<O>::ExitReviewMode { output: None }),
    {
        ReviewRunAction::ExitReviewMode { output: None }
    }
}

/// All that one run of the task asks for.
pub struct ReviewRunAnswers<O> {
    pub started: bool,
    pub output: Option<O>,
    pub cancelled: bool,
}

/// What the task does to its end when it is at `action` and `answers` tells what comes of it.
pub open spec fn run_actions<O>(action: ReviewRunAction<O>, answers: ReviewRunAnswers<O>) -> Seq<
    ReviewRunAction<O>,
>
    decreases
            match action {
                ReviewRunAction::ProcessEvents => 3int,
                ReviewRunAction::AskWhetherCancelled { .. } => 2int,
                ReviewRunAction::ExitReviewMode { .. } => 1int,
                ReviewRunAction::Return { .. } => 0int,
            },
{
    seq![action] + match action {
        ReviewRunAction::ProcessEvents => run_actions(
            run_action(ReviewRunEvent::Processed { output: answers.output }),
            answers,
        ),
        ReviewRunAction::AskWhetherCancelled { output } => run_actions(
            run_action(ReviewRunEvent::Asked { output, cancelled: answers.cancelled }),
            answers,
        ),
        ReviewRunAction::ExitReviewMode { .. } => run_actions(
            run_action(ReviewRunEvent::Exited),
            answers,
        ),
        ReviewRunAction::Return { .. } => seq![],
    }
}

/// Unless it is cancelled, the task leaves the review mode exactly once, with the output of the
/// conversation, or with none where there was no conversation; a cancelled task does not leave
/// it. Either way the task returns no agent message.
pub proof fn law_run_leaves_review_mode_once<O>(answers: ReviewRunAnswers<O>)
    ensures
        ({
            let done = run_actions(run_action(ReviewRunEvent::Started(answers.started)), answers);
            let output = if answers.started {
                answers.output
            } else {
                None
            };
            let exit = ReviewRunAction::ExitReviewMode { output };
            let exits = done.filter(|action: ReviewRunAction<O>| action is ExitReviewMode);
            &&& exits == if answers.cancelled {
                seq![]
            } else {
                seq![exit]
            }
            &&& done.last() == ReviewRunAction::<O>::Return { last_agent_message: None }
        }),
{
    let done = run_actions(run_action(ReviewRunEvent::Started(answers.started)), answers);
    let output = if answers.started {
        answers.output
    } else {
        None
    };
    let process = ReviewRunAction::<O>::ProcessEvents;
    let ask = ReviewRunAction::AskWhetherCancelled { output };
    let exit = ReviewRunAction::ExitReviewMode { output };
    let end = ReviewRunAction::<O>::Return { last_agent_message: None };
    reveal_with_fuel(run_actions, 4);
    reveal_with_fuel(Seq::filter, 5);
    let tail = if answers.cancelled {
        seq![ask, end]
    } else {
        seq![ask, exit, end]
    };
    if answers.started {
        assert(done =~= seq![process] + tail);
    } else {
        assert(done =~= tail);
    }
}

/// What each action tells of the event that led to it: the review mode is left with the output of
/// the conversation where the task is not cancelled, and it is asked whether it is once there is
/// an output or no conversation.
pub proof fn law_what_a_run_action_means<O>(event: ReviewRunEvent<O>, output: Option<O>)
    ensures
        ({
            let action = run_action(event);
            &&& action is ProcessEvents <==> event == ReviewRunEvent::<O>::Started(true)
            &&& action == (ReviewRunAction::AskWhetherCancelled { output }) <==> event == (
            ReviewRunEvent::Processed { output }) || output is None && event
                == ReviewRunEvent::<O>::Started(false)
            &&& action == (ReviewRunAction::ExitReviewMode { output }) <==> event == (
            ReviewRunEvent::Asked { output, cancelled: false })
            &&& action is Return <==> event is Exited || (event matches ReviewRunEvent::Asked {
                cancelled: true,
                ..
            })
            &&& action matches ReviewRunAction::Return { last_agent_message } ==> last_agent_message
                is None
        }),
{
}

} // verus!
