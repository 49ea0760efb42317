//! One turn of a conversation: the model is asked, the tools that it calls run,
//! and it is asked again, until it answers or the turn has gone on long enough.
use vstd::prelude::*;

use crate::agent;
use crate::agent::Agent;
use crate::chat;
use crate::chat::CallView;
use crate::chat::ChatCompletion;
use crate::chat::ChatMessage;
use crate::chat::CompletionView;
use crate::chat::MessageView;
use crate::chat::ParsedToolCall;
use crate::insights;
use crate::json;
use crate::json::Json;
use crate::text;
use crate::tool_reply;
use crate::tool_reply::ToolResult;
use crate::tools;

verus! {

// ---------------------------------------------------------------------------
// The trace of a turn
// ---------------------------------------------------------------------------

/// A tool that ran.
#[derive(Debug)]
pub struct ToolCallStep {
    pub tool_name: String,
    pub reasoning: String,
    pub query_or_params: String,
    pub result: String,
    pub elapsed_ms: u64,
    pub row_count: usize,
}

/// What the model said, and the tools that then ran.
#[derive(Debug)]
pub struct ChatStep {
    pub content: Option<String>,
    pub reasoning: Option<String>,
    pub tool_calls: Vec<ToolCallStep>,
}

/// A turn from its first step to its answer.
#[derive(Debug)]
pub struct ConversationTrace {
    pub session_id: String,
    pub steps: Vec<ChatStep>,
    pub final_answer: String,
}

/// What is told of a turn while it goes on.
#[derive(Debug)]
pub enum AgentStreamEvent {
    StepStarted { step: usize },
    Reasoning { text: String },
    ToolCallStarted { tool_name: String, reasoning: String, query_or_params: String },
    ToolCallResult { tool_name: String, result: String, elapsed_ms: u64, row_count: usize },
    FinalAnswerChunk { text: String },
    Completed { trace: ConversationTrace },
    Error { message: String },
}

/// What a tool that ran holds.
pub struct ToolCallView {
    pub tool_name: Seq<char>,
    pub reasoning: Seq<char>,
    pub query_or_params: Seq<char>,
    pub result: Seq<char>,
    pub elapsed_ms: u64,
    pub row_count: nat,
}

impl View for ToolCallStep {
    type V = ToolCallView;

    open spec fn view(&self) -> ToolCallView {
        ToolCallView {
            tool_name: self.tool_name@,
            reasoning: self.reasoning@,
            query_or_params: self.query_or_params@,
            result: self.result@,
            elapsed_ms: self.elapsed_ms,
            row_count: self.row_count as nat,
        }
    }
}

/// What a step holds.
#[verifier::ext_equal]
pub struct ChatStepView {
    pub content: Option<Seq<char>>,
    pub reasoning: Option<Seq<char>>,
    pub tool_calls: Seq<ToolCallView>,
}

impl View for ChatStep {
    type V = ChatStepView;

    open spec fn view(&self) -> ChatStepView {
        ChatStepView {
            content: json::opt_text(self.content),
            reasoning: json::opt_text(self.reasoning),
            tool_calls: text::views(self.tool_calls@),
        }
    }
}

/// What a trace holds.
#[verifier::ext_equal]
pub struct TraceView {
    pub session_id: Seq<char>,
    pub steps: Seq<ChatStepView>,
    pub final_answer: Seq<char>,
}

impl View for ConversationTrace {
    type V = TraceView;

    open spec fn view(&self) -> TraceView {
        TraceView {
            session_id: self.session_id@,
            steps: text::views(self.steps@),
            final_answer: self.final_answer@,
        }
    }
}

/// What an event holds.
#[verifier::ext_equal]
pub enum EventView {
    StepStarted { step: nat },
    Reasoning { text: Seq<char> },
    ToolCallStarted { tool_name: Seq<char>, reasoning: Seq<char>, query_or_params: Seq<char> },
    ToolCallResult { tool_name: Seq<char>, result: Seq<char>, elapsed_ms: u64, row_count: nat },
    FinalAnswerChunk { text: Seq<char> },
    Completed { trace: TraceView },
    Error { message: Seq<char> },
}

impl View for AgentStreamEvent {
    type V = EventView;

    open spec fn view(&self) -> EventView {
        match self {
            AgentStreamEvent::StepStarted { step } => EventView::StepStarted { step: *step as nat },
            AgentStreamEvent::Reasoning { text } => EventView::Reasoning { text: text@ },
            AgentStreamEvent::ToolCallStarted { tool_name, reasoning, query_or_params } =>
                EventView::ToolCallStarted {
                tool_name: tool_name@,
                reasoning: reasoning@,
                query_or_params: query_or_params@,
            },
            AgentStreamEvent::ToolCallResult { tool_name, result, elapsed_ms, row_count } =>
                EventView::ToolCallResult {
                tool_name: tool_name@,
                result: result@,
                elapsed_ms: *elapsed_ms,
                row_count: *row_count as nat,
            },
            AgentStreamEvent::FinalAnswerChunk { text } => EventView::FinalAnswerChunk {
                text: text@,
            },
            AgentStreamEvent::Completed { trace } => EventView::Completed { trace: trace@ },
            AgentStreamEvent::Error { message } => EventView::Error { message: message@ },
        }
    }
}

// ---------------------------------------------------------------------------
// The state of a turn
// ---------------------------------------------------------------------------

/// Where a turn stands.
#[derive(Debug)]
enum Phase {
    /// The model is to be asked.
    Asking,
    /// The call at `next` is to run.
    Running { calls: Vec<ParsedToolCall>, next: usize, step: ChatStep },
    /// The turn is over.
    Finished,
    /// The model could not be reached.
    Failed(String),
}

/// Where a turn stands.
#[verifier::ext_equal]
pub enum PhaseView {
    Asking,
    Running { calls: Seq<CallView>, next: nat, step: ChatStepView },
    Finished,
    Failed(Seq<char>),
}

impl View for Phase {
    type V = PhaseView;

    closed spec fn view(&self) -> PhaseView {
        match self {
            Phase::Asking => PhaseView::Asking,
            Phase::Running { calls, next, step } => PhaseView::Running {
                calls: text::views(calls@),
                next: *next as nat,
                step: step@,
            },
            Phase::Finished => PhaseView::Finished,
            Phase::Failed(e) => PhaseView::Failed(e@),
        }
    }
}

/// A turn of a conversation.
#[derive(Debug)]
pub struct Turn {
    session_id: String,
    messages: Vec<ChatMessage>,
    steps: Vec<ChatStep>,
    final_answer: String,
    iteration: usize,
    max_iterations: usize,
    streaming: bool,
    phase: Phase,
}

/// What a turn holds.
#[verifier::ext_equal]
pub struct TurnView {
    pub messages: Seq<MessageView>,
    pub trace: TraceView,
    /// How often the model was asked, the present time included.
    pub iteration: nat,
    pub max_iterations: nat,
    pub streaming: bool,
    pub phase: PhaseView,
}

impl View for Turn {
    type V = TurnView;

    closed spec fn view(&self) -> TurnView {
        TurnView {
            messages: text::views(self.messages@),
            trace: TraceView {
                session_id: self.session_id@,
                steps: text::views(self.steps@),
                final_answer: self.final_answer@,
            },
            iteration: self.iteration as nat,
            max_iterations: self.max_iterations as nat,
            streaming: self.streaming,
            phase: self.phase@,
        }
    }
}

impl TurnView {
    /// The model is asked at most as often as allowed, there is one finished
    /// step for each time that it was asked before, and a call is at hand while
    /// calls run.
    pub open spec fn wf(self) -> bool {
        &&& self.iteration <= self.max_iterations
        &&& self.max_iterations <= usize::MAX
        &&& match self.phase {
            PhaseView::Asking => self.iteration > 0 && self.trace.steps.len() + 1
                == self.iteration,
            PhaseView::Running { calls, next, step } => self.iteration > 0
                && self.trace.steps.len() + 1 == self.iteration && next < calls.len()
                && step.tool_calls.len() == next,
            PhaseView::Finished => self.trace.steps.len() == self.iteration,
            PhaseView::Failed(_) => self.trace.steps.len() + 1 == self.iteration,
        }
    }
}

/// The answer of a turn whose model gave none.
pub open spec fn blank_answer(streaming: bool) -> Seq<char> {
    if streaming {
        ""@
    } else {
        "(no content)"@
    }
}

/// The answer of a turn that has gone on long enough.
pub open spec fn cut_answer(streaming: bool) -> Seq<char> {
    if streaming {
        "Reached max analytical reasoning steps."@
    } else {
        "Reached max analytical reasoning steps. Here are the findings so far."@
    }
}

/// The messages with which a turn begins: the session so far, or the system
/// prompt, then what the user says, cut to the window.
pub open spec fn opening(
    found: Option<Seq<MessageView>>,
    prompt: Seq<char>,
    user: Seq<char>,
) -> Seq<MessageView> {
    let before = match found {
        Some(ms) => ms,
        None => seq![chat::says("system"@, prompt)],
    };
    chat::window(before.push(chat::says("user"@, user)))
}

/// A turn on the way to the model, or over where it may not be asked again, and
/// what is told of it.
pub open spec fn advanced(t: TurnView) -> (TurnView, Seq<EventView>) {
    if t.iteration < t.max_iterations {
        (
            TurnView { iteration: t.iteration + 1, phase: PhaseView::Asking, ..t },
            seq![EventView::StepStarted { step: t.iteration + 1 }],
        )
    } else {
        (TurnView { phase: PhaseView::Finished, ..t }, Seq::empty())
    }
}

/// A turn that begins, and what is told of it.
pub open spec fn begun(
    session_id: Seq<char>,
    messages: Seq<MessageView>,
    max_iterations: nat,
    streaming: bool,
) -> (TurnView, Seq<EventView>) {
    advanced(
        TurnView {
            messages,
            trace: TraceView { session_id, steps: Seq::empty(), final_answer: ""@ },
            iteration: 0,
            max_iterations,
            streaming,
            phase: PhaseView::Finished,
        },
    )
}

/// What is told before a call runs.
pub open spec fn call_started(c: CallView) -> EventView {
    let f = tools::start_fields(c.name, c.arguments);
    EventView::ToolCallStarted { tool_name: c.name, reasoning: f.0, query_or_params: f.1 }
}

/// What is told of the model's reasoning.
pub open spec fn reasoned(r: Option<Seq<char>>) -> Seq<EventView> {
    match r {
        Some(s) => seq![EventView::Reasoning { text: s }],
        None => Seq::empty(),
    }
}

/// A turn whose model replied, and what is told of it: a reply without calls is
/// the answer, else its calls run.
pub open spec fn replied(t: TurnView, c: CompletionView) -> (TurnView, Seq<EventView>) {
    let messages = t.messages.push(chat::reply_message(c));
    let step = ChatStepView {
        content: c.content,
        reasoning: c.reasoning,
        tool_calls: Seq::empty(),
    };
    if c.tool_calls.len() == 0 {
        let answer = text::or_text(c.content, blank_answer(t.streaming));
        (
            TurnView {
                messages,
                trace: TraceView {
                    steps: t.trace.steps.push(step),
                    final_answer: answer,
                    ..t.trace
                },
                phase: PhaseView::Finished,
                ..t
            },
            reasoned(c.reasoning).push(EventView::FinalAnswerChunk { text: answer }),
        )
    } else {
        (
            TurnView {
                messages,
                phase: PhaseView::Running { calls: c.tool_calls, next: 0, step },
                ..t
            },
            reasoned(c.reasoning).push(call_started(c.tool_calls[0])),
        )
    }
}

/// A turn whose model could not be reached, and what is told of it.
pub open spec fn broken(t: TurnView, error: Seq<char>) -> (TurnView, Seq<EventView>) {
    (
        TurnView { phase: PhaseView::Failed(error), ..t },
        seq![EventView::Error { message: error }],
    )
}

/// A call with its result, as the trace has it.
pub open spec fn call_step(c: CallView, tr: tool_reply::ResultView) -> ToolCallView {
    ToolCallView {
        tool_name: c.name,
        reasoning: tr.reasoning,
        query_or_params: tr.param_str,
        result: tr.result_str,
        elapsed_ms: tr.elapsed_ms,
        row_count: tr.row_count,
    }
}

/// What is told of a call's result.
pub open spec fn call_ended(c: CallView, tr: tool_reply::ResultView) -> EventView {
    EventView::ToolCallResult {
        tool_name: c.name,
        result: tr.result_str,
        elapsed_ms: tr.elapsed_ms,
        row_count: tr.row_count,
    }
}

/// A turn after the last call of a step: the step is noted, and the turn goes
/// back to the model unless it has gone on long enough.
pub open spec fn step_done(t: TurnView, step: ChatStepView) -> (TurnView, Seq<EventView>) {
    let noted = TurnView {
        trace: TraceView { steps: t.trace.steps.push(step), ..t.trace },
        ..t
    };
    if t.iteration == t.max_iterations {
        let answer = cut_answer(t.streaming);
        (
            TurnView {
                trace: TraceView { final_answer: answer, ..noted.trace },
                phase: PhaseView::Finished,
                ..noted
            },
            seq![EventView::FinalAnswerChunk { text: answer }],
        )
    } else {
        advanced(noted)
    }
}

/// A turn after a call ran, and what is told of it.
pub open spec fn called(t: TurnView, tr: tool_reply::ResultView) -> (TurnView, Seq<EventView>) {
    let calls = t.phase->calls;
    let next = t.phase->next;
    let c = calls[next as int];
    let step = ChatStepView {
        tool_calls: t.phase->step.tool_calls.push(call_step(c, tr)),
        ..t.phase->step
    };
    let with_result = TurnView {
        messages: t.messages.push(chat::tool_says(c.id, c.name, tr.result_str)),
        ..t
    };
    if next + 1 < calls.len() {
        (
            TurnView {
                phase: PhaseView::Running { calls, next: next + 1, step },
                ..with_result
            },
            seq![call_ended(c, tr), call_started(calls[next as int + 1])],
        )
    } else {
        let (after, told) = step_done(with_result, step);
        (after, seq![call_ended(c, tr)] + told)
    }
}

// ---------------------------------------------------------------------------
// Laws of a turn
// ---------------------------------------------------------------------------

/// Whatever happens in a turn, it stays sound: the model is asked at most as
/// often as allowed.
pub proof fn law_turn_stays_within_its_limit(
    session_id: Seq<char>,
    messages: Seq<MessageView>,
    max_iterations: nat,
    streaming: bool,
    t: TurnView,
    c: CompletionView,
    e: Seq<char>,
    tr: tool_reply::ResultView,
)
    requires
        max_iterations <= usize::MAX,
        t.wf(),
    ensures
        begun(session_id, messages, max_iterations, streaming).0.wf(),
        t.phase is Asking ==> replied(t, c).0.wf(),
        t.phase is Asking ==> broken(t, e).0.wf(),
        t.phase is Running ==> called(t, tr).0.wf(),
        t.trace.steps.len() <= t.iteration <= t.max_iterations,
{
}

/// How much of a turn is left at most: each of the remaining questions, and the
/// calls that the last reply left to run.
pub open spec fn calls_left(t: TurnView) -> nat {
    match t.phase {
        PhaseView::Running { calls, next, .. } => (calls.len() - next) as nat,
        _ => 0,
    }
}

/// A turn gets on: each result leaves one call less to run, or takes the turn
/// to its next question, or ends it; and a question is never asked twice.
pub proof fn law_turn_gets_on(t: TurnView, c: CompletionView, tr: tool_reply::ResultView)
    requires
        t.wf(),
    ensures
        t.phase is Running ==> ({
            let after = called(t, tr).0;
            ||| after.phase is Finished
            ||| after.phase is Asking && after.iteration == t.iteration + 1
            ||| after.phase is Running && after.iteration == t.iteration && calls_left(after) + 1
                == calls_left(t)
        }),
        t.phase is Asking ==> ({
            let after = replied(t, c).0;
            ||| after.phase is Finished
            ||| after.phase is Running && after.iteration == t.iteration
        }),
{
}

/// Messages are only ever added to a turn, never changed.
pub proof fn law_turn_only_adds_messages(
    t: TurnView,
    c: CompletionView,
    e: Seq<char>,
    tr: tool_reply::ResultView,
)
    ensures
        t.messages.is_prefix_of(replied(t, c).0.messages),
        t.messages.is_prefix_of(broken(t, e).0.messages),
        t.phase is Running ==> t.messages.is_prefix_of(called(t, tr).0.messages),
{
}

/// Every call of a reply is answered by one message that carries its id, in the
/// order of the calls: while calls run, the messages end with the reply and one
/// result for each call that ran.
pub open spec fn answered(t: TurnView) -> bool {
    t.phase matches PhaseView::Running { calls, next, .. } ==> next <= calls.len() <= usize::MAX
        && t.messages.len() > next && ({
        let from = t.messages.len() - next;
        &&& t.messages[from - 1].tool_calls is Some
        &&& forall|k: int|
            0 <= k < next ==> (#[trigger] t.messages[from + k]).tool_call_id == Some(calls[k].id)
    })
}

/// Each call is answered in its turn, with its own id.
pub proof fn law_calls_are_answered(t: TurnView, c: CompletionView, tr: tool_reply::ResultView)
    requires
        t.wf(),
        answered(t),
        c.tool_calls.len() <= usize::MAX,
    ensures
        t.phase is Asking ==> answered(replied(t, c).0),
        t.phase is Running ==> answered(called(t, tr).0),
        t.phase is Running ==> called(t, tr).0.messages.last().tool_call_id == Some(
            t.phase->calls[t.phase->next as int].id,
        ),
{
    if t.phase is Running {
        let after = called(t, tr).0;
        if after.phase is Running {
            let calls = t.phase->calls;
            let next = t.phase->next;
            let from = t.messages.len() - next;
            assert(after.messages.len() - (next + 1) == from);
            assert forall|k: int| 0 <= k < next + 1 implies (#[trigger] after.messages[from
                + k]).tool_call_id == Some(calls[k].id) by {
                if k < next {
                    assert(after.messages[from + k] == t.messages[from + k]);
                }
            }
        }
    }
}

/// The step of a turn that was last worked at: the one at hand while calls run,
/// else the last that was noted.
pub open spec fn latest_step(t: TurnView) -> ChatStepView {
    match t.phase {
        PhaseView::Running { step, .. } => step,
        _ => t.trace.steps.last(),
    }
}

/// What a tool gave reaches the model: after a call ran, the turn has one message
/// more, in the role of a tool, whose content is the JSON string of the tool's
/// result and which answers that call. The listener is told the same result, and
/// the trace has it with its reason, its parameters, its time and its rows.
pub proof fn law_results_reach_the_model(t: TurnView, tr: tool_reply::ResultView)
    requires
        t.wf(),
        t.phase is Running,
    ensures
        ({
            let (after, told) = called(t, tr);
            let c = t.phase->calls[t.phase->next as int];
            let m = after.messages.last();
            &&& after.messages.len() == t.messages.len() + 1
            &&& after.messages.drop_last() == t.messages
            &&& m.role == "tool"@
            &&& m.content == Some(json::JsonView::Str(tr.result_str))
            &&& m.tool_call_id == Some(c.id)
            &&& m.name == Some(c.name)
            &&& m.tool_calls is None
        }),
        ({
            let (after, told) = called(t, tr);
            let c = t.phase->calls[t.phase->next as int];
            &&& told.len() >= 1
            &&& told[0] matches EventView::ToolCallResult {
                tool_name,
                result,
                elapsed_ms,
                row_count,
            } && tool_name == c.name && result == tr.result_str && elapsed_ms == tr.elapsed_ms
                && row_count == tr.row_count
        }),
        ({
            let (after, told) = called(t, tr);
            let c = t.phase->calls[t.phase->next as int];
            let before = t.phase->step;
            let step = latest_step(after);
            &&& step.content == before.content
            &&& step.reasoning == before.reasoning
            &&& step.tool_calls.len() == before.tool_calls.len() + 1
            &&& step.tool_calls.drop_last() == before.tool_calls
            &&& step.tool_calls.last().tool_name == c.name
            &&& step.tool_calls.last().reasoning == tr.reasoning
            &&& step.tool_calls.last().query_or_params == tr.param_str
            &&& step.tool_calls.last().result == tr.result_str
            &&& step.tool_calls.last().elapsed_ms == tr.elapsed_ms
            &&& step.tool_calls.last().row_count == tr.row_count
        }),
{
    let (after, told) = called(t, tr);
    assert(after.messages.drop_last() =~= t.messages);
    assert(latest_step(after).tool_calls.drop_last() =~= t.phase->step.tool_calls);
}

/// After a call ran, the next call of the reply is announced and is to run; after
/// the last one the model is asked again, or, where it was asked as often as
/// allowed, the turn ends with the answer that says so. Nothing else changes.
pub proof fn law_calls_run_one_after_the_other(t: TurnView, tr: tool_reply::ResultView)
    requires
        t.wf(),
        t.phase is Running,
    ensures
        ({
            let (after, told) = called(t, tr);
            let calls = t.phase->calls;
            let next = t.phase->next;
            &&& after.trace.session_id == t.trace.session_id
            &&& after.max_iterations == t.max_iterations
            &&& after.streaming == t.streaming
            &&& next + 1 < calls.len() ==> {
                &&& after.phase matches PhaseView::Running { calls: c, next: n, .. } && c == calls
                    && n == next + 1
                &&& after.trace == t.trace
                &&& after.iteration == t.iteration
                &&& told.len() == 2
                &&& told[1] matches EventView::ToolCallStarted { tool_name, .. } && tool_name
                    == calls[next as int + 1].name
            }
            &&& next + 1 == calls.len() ==> {
                &&& after.trace.steps.len() == t.trace.steps.len() + 1
                &&& after.trace.steps.drop_last() == t.trace.steps
            }
            &&& next + 1 == calls.len() && t.iteration < t.max_iterations ==> {
                &&& after.phase is Asking
                &&& after.iteration == t.iteration + 1
                &&& after.trace.final_answer == t.trace.final_answer
                &&& told.len() == 2
                &&& told[1] matches EventView::StepStarted { step } && step == t.iteration + 1
            }
            &&& next + 1 == calls.len() && t.iteration == t.max_iterations ==> {
                &&& after.phase is Finished
                &&& after.iteration == t.iteration
                &&& text::begins(
                    after.trace.final_answer,
                    "Reached max analytical reasoning steps."@,
                )
                &&& told.len() == 2
                &&& told[1] matches EventView::FinalAnswerChunk { text } && text
                    == after.trace.final_answer
            }
        }),
{
    let (after, told) = called(t, tr);
    if t.phase->next + 1 == t.phase->calls.len() {
        assert(after.trace.steps.drop_last() =~= t.trace.steps);
    }
    reveal_strlit("Reached max analytical reasoning steps.");
    reveal_strlit("Reached max analytical reasoning steps. Here are the findings so far.");
    let short = "Reached max analytical reasoning steps."@;
    let long = "Reached max analytical reasoning steps. Here are the findings so far."@;
    assert(long.take(short.len() as int) =~= short);
    assert(short.take(short.len() as int) =~= short);
}

/// What the model says is taken as it said it: the reply is one message more of
/// the assistant, its reasoning is told, and it is the answer exactly when it
/// calls no tool; else its calls are to run, the first of them first.
pub proof fn law_replies_are_taken(t: TurnView, c: CompletionView)
    requires
        t.wf(),
        t.phase is Asking,
    ensures
        ({
            let (after, told) = replied(t, c);
            let m = after.messages.last();
            &&& after.messages.len() == t.messages.len() + 1
            &&& after.messages.drop_last() == t.messages
            &&& m.role == "assistant"@
            &&& m.content == match c.content {
                Some(s) => Some(json::JsonView::Str(s)),
                None => None,
            }
            &&& m.tool_calls is Some <==> c.tool_calls.len() > 0
            &&& m.tool_call_id is None
            &&& after.trace.session_id == t.trace.session_id
            &&& after.iteration == t.iteration
            &&& after.max_iterations == t.max_iterations
            &&& after.streaming == t.streaming
            &&& c.reasoning matches Some(s) ==> told.len() == 2 && (
            told[0] matches EventView::Reasoning { text } && text == s)
            &&& c.reasoning is None ==> told.len() == 1
            &&& latest_step(after).content == c.content
            &&& latest_step(after).reasoning == c.reasoning
            &&& latest_step(after).tool_calls.len() == 0
        }),
        c.tool_calls.len() == 0 ==> ({
            let (after, told) = replied(t, c);
            &&& after.phase is Finished
            &&& after.trace.steps.len() == t.trace.steps.len() + 1
            &&& after.trace.steps.drop_last() == t.trace.steps
            &&& c.content matches Some(s) ==> after.trace.final_answer == s
            &&& c.content is None ==> after.trace.final_answer == if t.streaming {
                ""@
            } else {
                "(no content)"@
            }
            &&& told.last() matches EventView::FinalAnswerChunk { text } && text
                == after.trace.final_answer
        }),
        c.tool_calls.len() > 0 ==> ({
            let (after, told) = replied(t, c);
            &&& after.phase matches PhaseView::Running { calls, next, .. } && calls == c.tool_calls
                && next == 0
            &&& after.trace == t.trace
            &&& told.last() matches EventView::ToolCallStarted { tool_name, .. } && tool_name
                == c.tool_calls[0].name
        }),
{
    let (after, told) = replied(t, c);
    assert(after.messages.drop_last() =~= t.messages);
    if c.tool_calls.len() == 0 {
        assert(after.trace.steps.drop_last() =~= t.trace.steps);
    }
}

/// A model that cannot be reached ends the turn with its error, which is told,
/// and changes nothing else.
pub proof fn law_failures_end_the_turn(t: TurnView, e: Seq<char>)
    ensures
        broken(t, e).0.phase == PhaseView::Failed(e),
        broken(t, e).0.messages == t.messages,
        broken(t, e).0.trace == t.trace,
        broken(t, e).0.iteration == t.iteration,
        broken(t, e).1.len() == 1,
        broken(t, e).1[0] matches EventView::Error { message } && message == e,
{
}

/// A turn begins with the messages that it was given, in the session that it was
/// given, with nothing done and nothing answered; the model is asked for the
/// first time, unless it may not be asked at all.
pub proof fn law_turns_begin_afresh(
    id: Seq<char>,
    ms: Seq<MessageView>,
    max_iterations: nat,
    streaming: bool,
)
    ensures
        ({
            let (t, told) = begun(id, ms, max_iterations, streaming);
            &&& t.messages == ms
            &&& t.trace.session_id == id
            &&& t.trace.steps.len() == 0
            &&& t.trace.final_answer.len() == 0
            &&& t.max_iterations == max_iterations
            &&& t.streaming == streaming
            &&& max_iterations > 0 ==> t.phase is Asking && t.iteration == 1 && told.len() == 1 && (
            told[0] matches EventView::StepStarted { step } && step == 1)
            &&& max_iterations == 0 ==> t.phase is Finished && told.len() == 0
        }),
{
    reveal_strlit("");
}

/// Each call is announced under its own name, with what is shown of that tool
/// and of its arguments.
pub proof fn law_calls_are_announced(c: CallView)
    ensures
        call_started(c) matches EventView::ToolCallStarted {
            tool_name,
            reasoning,
            query_or_params,
        } && tool_name == c.name && reasoning == tools::start_fields(c.name, c.arguments).0
            && query_or_params == tools::start_fields(c.name, c.arguments).1,
{
}

// ---------------------------------------------------------------------------
// Taking a turn
// ---------------------------------------------------------------------------

fn told(events: &mut Vec<AgentStreamEvent>, e: AgentStreamEvent)
    ensures
        text::views(final(events)@) == text::views(old(events)@).push(e@),
{
    let ghost before = events@;
    let ghost ev = e@;
    events.push(e);
    proof {
        assert(text::views(events@) == text::views(before).push(ev));
    }
}

fn start_event(c: &ParsedToolCall) -> (r: AgentStreamEvent)
    ensures
        r@ == call_started(c@),
{
    let (reasoning, query_or_params) = tools::args_to_tool_start_fields(
        c.name.as_str(),
        &c.arguments,
    );
    AgentStreamEvent::ToolCallStarted { tool_name: c.name.clone(), reasoning, query_or_params }
}

fn reasoning_events(r: &Option<String>) -> (events: Vec<AgentStreamEvent>)
    ensures
        text::views(events@) == reasoned(json::opt_text(*r)),
{
    let mut events: Vec<AgentStreamEvent> = Vec::new();
    proof {
        assert(text::views(events@) == Seq::<EventView>::empty());
    }
    if let Some(s) = r {
        told(&mut events, AgentStreamEvent::Reasoning { text: s.clone() });
        proof {
            assert(text::views(events@) == reasoned(json::opt_text(*r)));
        }
    }
    events
}

/// What is told and what is left of a turn.
pub open spec fn stepped(t: Turn, events: Seq<AgentStreamEvent>) -> (TurnView, Seq<EventView>) {
    (t@, text::views(events))
}

impl Turn {
    /// Takes the turn to the model, or ends it where it may not be asked again.
    fn advance(&mut self) -> (events: Vec<AgentStreamEvent>)
        requires
            old(self)@.max_iterations <= usize::MAX,
        ensures
            stepped(*final(self), events@) == advanced(old(self)@),
    {
        let mut events: Vec<AgentStreamEvent> = Vec::new();
        proof {
            assert(text::views(events@) == Seq::<EventView>::empty());
        }
        if self.iteration < self.max_iterations {
            self.iteration = self.iteration + 1;
            self.phase = Phase::Asking;
            told(&mut events, AgentStreamEvent::StepStarted { step: self.iteration });
            proof {
                assert(text::views(events@) == advanced(old(self)@).1);
            }
        } else {
            self.phase = Phase::Finished;
        }
        events
    }

    /// A turn that begins with these messages, and what is told of it.
    pub fn begin(
        session_id: String,
        messages: Vec<ChatMessage>,
        max_iterations: usize,
        streaming: bool,
    ) -> (r: (Turn, Vec<AgentStreamEvent>))
        ensures
            stepped(r.0, r.1@) == begun(
                session_id@,
                text::views(messages@),
                max_iterations as nat,
                streaming,
            ),
            r.0@.wf(),
    {
        let mut t = Turn {
            session_id,
            messages,
            steps: Vec::new(),
            final_answer: "".to_owned(),
            iteration: 0,
            max_iterations,
            streaming,
            phase: Phase::Finished,
        };
        proof {
            assert(text::views(t.steps@) == Seq::<ChatStepView>::empty());
        }
        let events = t.advance();
        (t, events)
    }

    /// The messages that the model is to see.
    pub fn messages(&self) -> (r: &Vec<ChatMessage>)
        ensures
            text::views(r@) == self@.messages,
    {
        &self.messages
    }

    /// The model is to be asked.
    pub fn is_asking(&self) -> (r: bool)
        ensures
            r == (self@.phase is Asking),
    {
        match &self.phase {
            Phase::Asking => true,
            _ => false,
        }
    }

    /// The call that is to run.
    pub fn next_call(&self) -> (r: Option<(String, Json)>)
        requires
            self@.wf(),
        ensures
            match r {
                Some((name, arguments)) => self@.phase matches PhaseView::Running {
                    calls,
                    next,
                    ..
                } && name@ == calls[next as int].name && arguments@
                    == calls[next as int].arguments,
                None => !(self@.phase is Running),
            },
    {
        match &self.phase {
            Phase::Running { calls, next, .. } => {
                proof {
                    assert(text::views(calls@)[*next as int] == calls@[*next as int]@);
                }
                Some((calls[*next].name.clone(), calls[*next].arguments.copy()))
            },
            _ => None,
        }
    }

    /// The model replied.
    pub fn model_replied(&mut self, c: ChatCompletion) -> (events: Vec<AgentStreamEvent>)
        requires
            old(self)@.wf(),
            old(self)@.phase is Asking,
        ensures
            stepped(*final(self), events@) == replied(old(self)@, c@),
            final(self)@.wf(),
            c.tool_calls@.len() == 0 ==> final(self)@.phase is Finished,
            c.tool_calls@.len() == 0 && c.content is Some ==> final(self)@.trace.final_answer
                == c.content->0@,
    {
        let ghost start = self@;
        let ghost cv = c@;
        let mut events = reasoning_events(&c.reasoning);
        let m = chat::message_of_reply(&c);
        let ghost before = self.messages@;
        self.messages.push(m);
        proof {
            assert(text::views(self.messages@) == text::views(before).push(m@));
        }
        let step = ChatStep {
            content: text::copy_option(&c.content),
            reasoning: text::copy_option(&c.reasoning),
            tool_calls: Vec::new(),
        };
        let ghost sv = step@;
        proof {
            assert(sv.tool_calls == Seq::<ToolCallView>::empty());
        }
        if c.tool_calls.len() == 0 {
            let answer = match &c.content {
                Some(s) => s.clone(),
                None => if self.streaming {
                    "".to_owned()
                } else {
                    "(no content)".to_owned()
                },
            };
            let ghost steps = self.steps@;
            self.steps.push(step);
            proof {
                assert(text::views(self.steps@) == text::views(steps).push(sv));
            }
            self.final_answer = answer.clone();
            self.phase = Phase::Finished;
            told(&mut events, AgentStreamEvent::FinalAnswerChunk { text: answer });
            proof {
                assert(self@ =~= replied(start, cv).0);
            }
        } else {
            proof {
                assert(text::views(c.tool_calls@)[0] == c.tool_calls@[0]@);
            }
            told(&mut events, start_event(&c.tool_calls[0]));
            self.phase = Phase::Running { calls: c.tool_calls, next: 0, step };
            proof {
                assert(self@ =~= replied(start, cv).0);
            }
        }
        events
    }

    /// The model could not be reached.
    pub fn model_failed(&mut self, error: String) -> (events: Vec<AgentStreamEvent>)
        requires
            old(self)@.wf(),
            old(self)@.phase is Asking,
        ensures
            stepped(*final(self), events@) == broken(old(self)@, error@),
            final(self)@.wf(),
    {
        let mut events: Vec<AgentStreamEvent> = Vec::new();
        told(&mut events, AgentStreamEvent::Error { message: error.clone() });
        proof {
            assert(text::views(events@) == broken(old(self)@, error@).1);
        }
        self.phase = Phase::Failed(error);
        events
    }

    /// The call that was to run has its result.
    pub fn tool_done(&mut self, tr: ToolResult) -> (events: Vec<AgentStreamEvent>)
        requires
            old(self)@.wf(),
            old(self)@.phase is Running,
        ensures
            stepped(*final(self), events@) == called(old(self)@, tr@),
            final(self)@.wf(),
            final(self)@.messages.len() == old(self)@.messages.len() + 1,
            final(self)@.messages.last().role == "tool"@,
            final(self)@.messages.last().content == Some(json::JsonView::Str(tr.result_str@)),
    {
        let ghost start = self@;
        let ghost trv = tr@;
        let mut phase = Phase::Finished;
        std::mem::swap(&mut phase, &mut self.phase);
        match phase {
            Phase::Running { calls, next, step } => {
                let mut step = step;
                let count: usize = calls.len();
                let ghost cv = calls@[next as int]@;
                proof {
                    assert(text::views(calls@)[next as int] == cv);
                }
                let mut events: Vec<AgentStreamEvent> = Vec::new();
                told(
                    &mut events,
                    AgentStreamEvent::ToolCallResult {
                        tool_name: calls[next].name.clone(),
                        result: tr.result_str.clone(),
                        elapsed_ms: tr.elapsed_ms,
                        row_count: tr.row_count,
                    },
                );
                proof {
                    assert(text::views(events@) == seq![call_ended(cv, trv)]);
                }
                let m = chat::tool_message(
                    calls[next].id.as_str(),
                    calls[next].name.as_str(),
                    tr.result_str.as_str(),
                );
                let ghost before = self.messages@;
                self.messages.push(m);
                proof {
                    assert(text::views(self.messages@) == text::views(before).push(m@));
                }
                let ghost done = step.tool_calls@;
                let ran = ToolCallStep {
                    tool_name: calls[next].name.clone(),
                    reasoning: tr.reasoning,
                    query_or_params: tr.param_str,
                    result: tr.result_str,
                    elapsed_ms: tr.elapsed_ms,
                    row_count: tr.row_count,
                };
                let ghost rv = ran@;
                step.tool_calls.push(ran);
                proof {
                    assert(text::views(step.tool_calls@) == text::views(done).push(rv));
                }
                if next + 1 < count {
                    proof {
                        assert(text::views(calls@)[next + 1] == calls@[next + 1]@);
                    }
                    told(&mut events, start_event(&calls[next + 1]));
                    self.phase = Phase::Running { calls, next: next + 1, step };
                    proof {
                        assert(self@ =~= called(start, trv).0);
                        assert(text::views(events@) =~= called(start, trv).1);
                    }
                    return events;
                }
                let ghost steps = self.steps@;
                let ghost sv = step@;
                self.steps.push(step);
                proof {
                    assert(text::views(self.steps@) == text::views(steps).push(sv));
                }
                if self.iteration == self.max_iterations {
                    let answer = if self.streaming {
                        "Reached max analytical reasoning steps.".to_owned()
                    } else {
                        "Reached max analytical reasoning steps. Here are the findings so far.".to_owned()
                    };
                    self.final_answer = answer.clone();
                    self.phase = Phase::Finished;
                    told(&mut events, AgentStreamEvent::FinalAnswerChunk { text: answer });
                    proof {
                        assert(self@ =~= called(start, trv).0);
                        assert(text::views(events@) =~= called(start, trv).1);
                    }
                    return events;
                }
                let ghost told_so_far = events@;
                let mut more = self.advance();
                let ghost added = more@;
                events.append(&mut more);
                proof {
                    assert(text::views(events@) =~= text::views(told_so_far) + text::views(added));
                    assert(self@ =~= called(start, trv).0);
                    assert(text::views(events@) =~= called(start, trv).1);
                }
                events
            },
            _ => {
                proof {
                    assert(false);
                }
                Vec::new()
            },
        }
    }
}

// ---------------------------------------------------------------------------
// A turn of the agent
// ---------------------------------------------------------------------------

/// `uuid::Uuid::new_v4` as text: a random identifier of 36 characters.
#[verifier::external_body]
fn new_session_id() -> (r: String)
    ensures
        r@.len() == 36,
{
    uuid::Uuid::new_v4().to_string()
}

/// The prompt that the agent gives the model.
pub open spec fn prompt_of(a: agent::AgentView) -> Seq<char> {
    agent::system_prompt(a.insights_brief, a.schema_summary, insights::metrics_text())
}

/// The agent's turn on a session of which `found` is still there.
pub open spec fn opened(
    a: agent::AgentView,
    session_id: Seq<char>,
    found: Option<Seq<MessageView>>,
    user: Seq<char>,
    streaming: bool,
) -> (TurnView, Seq<EventView>) {
    begun(session_id, opening(found, prompt_of(a), user), a.max_iterations, streaming)
}

/// A turn was opened on the session that is named, or on a new one, with what
/// was found of it: nothing, or what was stored for it.
pub open spec fn opened_on(
    a: agent::AgentView,
    named: Option<Seq<char>>,
    user: Seq<char>,
    streaming: bool,
    r: (Turn, Vec<AgentStreamEvent>),
) -> bool {
    exists|id: Seq<char>, found: Option<Seq<MessageView>>|
        #![trigger opened(a, id, found, user, streaming)]
        stepped(r.0, r.1@) == opened(a, id, found, user, streaming) && agent::was_stored(
            a.sessions,
            id,
            found,
        ) && (match named {
            Some(s) => id == s,
            None => id.len() == 36,
        })
}

/// The agent after a turn that came to its end: the window of its messages is the
/// session.
pub open spec fn remembered(a: agent::AgentView, t: TurnView) -> agent::AgentView {
    agent::AgentView {
        sessions: a.sessions.insert(t.trace.session_id, chat::window(t.messages)),
        dirty: true,
        ..a
    }
}

/// What is told last of a turn.
pub open spec fn told_last(t: TurnView) -> Seq<EventView> {
    if t.phase is Failed {
        Seq::empty()
    } else {
        seq![EventView::Completed { trace: t.trace }]
    }
}

/// An answer is remembered: the turn that it ends holds it as the last message,
/// and so does the session; and the next turn on that session, where the session
/// is still there, goes on from the turn's messages.
pub proof fn law_answer_is_remembered(
    a: agent::AgentView,
    t: TurnView,
    c: CompletionView,
    found: Option<Seq<MessageView>>,
    user: Seq<char>,
    streaming: bool,
)
    requires
        t.wf(),
        t.phase is Asking,
        c.tool_calls.len() == 0,
        agent::was_stored(
            remembered(a, replied(t, c).0).sessions,
            t.trace.session_id,
            found,
        ),
    ensures
        ({
            let after = replied(t, c).0;
            let next = opened(
                remembered(a, after),
                t.trace.session_id,
                found,
                user,
                streaming,
            ).0;
            &&& after.phase is Finished
            &&& after.messages == t.messages.push(chat::reply_message(c))
            &&& remembered(a, after).sessions[t.trace.session_id].last() == chat::reply_message(c)
            &&& after.messages.last().content == match c.content {
                Some(s) => Some(json::JsonView::Str(s)),
                None => None,
            }
            &&& found is Some ==> next.messages == chat::window(
                after.messages.push(chat::says("user"@, user)),
            )
        }),
{
}

/// The messages begin with `first`.
pub open spec fn led_by(ms: Seq<MessageView>, first: MessageView) -> bool {
    ms.len() > 0 && ms[0] == first
}

/// A session stays within its window and keeps its first message: a new one is
/// led by the system prompt, a turn on one that is led by a message is led by it
/// to its end, whatever happens in it, and what is then stored is led by it too
/// and is no longer than the window.
pub proof fn law_sessions_stay_in_their_window(
    a: agent::AgentView,
    id: Seq<char>,
    found: Option<Seq<MessageView>>,
    user: Seq<char>,
    streaming: bool,
    first: MessageView,
    t: TurnView,
    c: CompletionView,
    e: Seq<char>,
    tr: tool_reply::ResultView,
)
    requires
        match found {
            Some(ms) => led_by(ms, first),
            None => first == chat::says("system"@, prompt_of(a)),
        },
        led_by(t.messages, first),
    ensures
        led_by(opened(a, id, found, user, streaming).0.messages, first),
        opened(a, id, found, user, streaming).0.messages.len() <= chat::MAX_WINDOW,
        led_by(replied(t, c).0.messages, first),
        led_by(broken(t, e).0.messages, first),
        t.phase is Running ==> led_by(called(t, tr).0.messages, first),
        led_by(remembered(a, t).sessions[t.trace.session_id], first),
        remembered(a, t).sessions[t.trace.session_id].len() <= chat::MAX_WINDOW,
{
    let before = match found {
        Some(ms) => ms,
        None => seq![chat::says("system"@, prompt_of(a))],
    };
    let all = before.push(chat::says("user"@, user));
    chat::law_window_settles(all);
    assert(all[0] == first);
    chat::law_window_settles(t.messages);
}

/// A reset makes a session new: the next turn on it begins with the system
/// prompt and what the user says, and nothing else.
pub proof fn law_reset_starts_afresh(
    a: agent::AgentView,
    id: Seq<char>,
    found: Option<Seq<MessageView>>,
    user: Seq<char>,
    streaming: bool,
)
    requires
        agent::was_stored(a.sessions.remove(id), id, found),
    ensures
        opened(a, id, found, user, streaming).0.messages == seq![
            chat::says("system"@, prompt_of(a)),
            chat::says("user"@, user),
        ],
{
    assert(opened(a, id, found, user, streaming).0.messages =~= seq![
        chat::says("system"@, prompt_of(a)),
        chat::says("user"@, user),
    ]);
}

/// A turn opens with what the session has and then what the user says; a session
/// of which nothing is there opens with what the model is told first.
pub proof fn law_turns_open_with_the_question(
    a: agent::AgentView,
    id: Seq<char>,
    found: Option<Seq<MessageView>>,
    user: Seq<char>,
    streaming: bool,
)
    ensures
        ({
            let ms = opened(a, id, found, user, streaming).0.messages;
            &&& ms.len() > 0
            &&& ms.last().role == "user"@
            &&& ms.last().content == Some(json::JsonView::Str(user))
            &&& found is None ==> ms.len() == 2 && ms[0].role == "system"@ && ms[0].content == Some(
                json::JsonView::Str(
                    agent::system_prompt(
                        a.insights_brief,
                        a.schema_summary,
                        insights::metrics_text(),
                    ),
                ),
            )
            &&& found matches Some(before) ==> (before.len() < 20 ==> ms.drop_last() == before)
            &&& opened(a, id, found, user, streaming).0.trace.session_id == id
            &&& opened(a, id, found, user, streaming).0.max_iterations == a.max_iterations
        }),
{
    let before = match found {
        Some(ms) => ms,
        None => seq![chat::says("system"@, prompt_of(a))],
    };
    let all = before.push(chat::says("user"@, user));
    chat::law_window_holds_twenty(all, 0);
    assert(all.last() == all[all.len() - 1]);
    if before.len() < 20 {
        assert(all.drop_last() =~= before);
    }
}

/// A turn that came to its end is remembered under its own session, and nothing
/// else of the agent changes but that there is something to save.
pub proof fn law_only_the_turn_is_remembered(a: agent::AgentView, t: TurnView, other: Seq<char>)
    ensures
        ({
            let after = remembered(a, t);
            &&& after.sessions.contains_key(t.trace.session_id)
            &&& t.messages.len() <= 20 ==> after.sessions[t.trace.session_id] == t.messages
            &&& t.messages.len() > 0 ==> after.sessions[t.trace.session_id].last()
                == t.messages.last()
            &&& other != t.trace.session_id ==> (after.sessions.contains_key(other)
                <==> a.sessions.contains_key(other)) && after.sessions[other] == a.sessions[other]
            &&& after.dirty
            &&& after.model == a.model
            &&& after.fallback_model == a.fallback_model
            &&& after.max_iterations == a.max_iterations
            &&& after.schema_summary == a.schema_summary
            &&& after.insights_brief == a.insights_brief
        }),
        t.phase is Finished ==> told_last(t).len() == 1 && (
        told_last(t)[0] matches EventView::Completed { trace } && trace == t.trace),
        t.phase is Failed ==> told_last(t).len() == 0,
{
    chat::law_window_holds_twenty(t.messages, 0);
}

/// A turn on a session that is named is on that session, and one where none is named
/// on one of a new name; either way it opens with the question, behind nothing but
/// what was stored for that session or what the model is told first.
pub proof fn law_conversations_open_on_their_session(
    a: agent::AgentView,
    named: Option<Seq<char>>,
    user: Seq<char>,
    streaming: bool,
    r: (Turn, Vec<AgentStreamEvent>),
)
    requires
        opened_on(a, named, user, streaming, r),
    ensures
        named matches Some(id) ==> r.0@.trace.session_id == id,
        named is None ==> r.0@.trace.session_id.len() == 36,
        r.0@.messages.len() > 0,
        r.0@.messages.last().role == "user"@,
        r.0@.messages.last().content == Some(json::JsonView::Str(user)),
        r.0@.streaming == streaming,
        r.0@.max_iterations == a.max_iterations,
        !a.sessions.contains_key(r.0@.trace.session_id) ==> r.0@.messages.len() == 2,
        a.sessions.contains_key(r.0@.trace.session_id) && a.sessions[r.0@.trace.session_id].len()
            < 20 ==> r.0@.messages.len() == 2 || r.0@.messages.drop_last()
            == a.sessions[r.0@.trace.session_id],
{
    let (id, found) = choose|id: Seq<char>, found: Option<Seq<MessageView>>|
        #![trigger opened(a, id, found, user, streaming)]
        stepped(r.0, r.1@) == opened(a, id, found, user, streaming) && agent::was_stored(
            a.sessions,
            id,
            found,
        ) && (match named {
            Some(s) => id == s,
            None => id.len() == 36,
        });
    law_turns_open_with_the_question(a, id, found, user, streaming);
    law_turns_begin_afresh(id, opening(found, prompt_of(a), user), a.max_iterations, streaming);
}

impl Agent {
    /// Begins a turn on a session of which `found` is still there.
    pub fn open_turn(
        &self,
        session_id: String,
        found: Option<Vec<ChatMessage>>,
        user_message: &str,
        streaming: bool,
    ) -> (r: (Turn, Vec<AgentStreamEvent>))
        ensures
            stepped(r.0, r.1@) == opened(
                self@,
                session_id@,
                agent::opt_messages(found),
                user_message@,
                streaming,
            ),
            r.0@.wf(),
    {
        let mut messages = match found {
            Some(v) => v,
            None => {
                let prompt = self.get_system_prompt();
                let mut v: Vec<ChatMessage> = Vec::new();
                v.push(chat::message("system", prompt.as_str()));
                proof {
                    assert(text::views(v@) =~= seq![chat::says("system"@, prompt_of(self@))]);
                }
                v
            },
        };
        let ghost before = messages@;
        let u = chat::message("user", user_message);
        messages.push(u);
        proof {
            assert(text::views(messages@) == text::views(before).push(u@));
        }
        let ghost whole = messages@;
        Agent::trim_sliding_window(&mut messages);
        proof {
            assert(text::views(messages@) =~= chat::window(text::views(whole)));
        }
        Turn::begin(session_id, messages, self.max_iterations(), streaming)
    }

    /// Begins a turn on a session, or on a new one where none is named.
    fn start_turn(&self, session_id_opt: Option<String>, user_message: &str, streaming: bool) -> (r:
        (Turn, Vec<AgentStreamEvent>))
        ensures
            opened_on(self@, json::opt_text(session_id_opt), user_message@, streaming, r),
            r.0@.wf(),
    {
        let ghost named = json::opt_text(session_id_opt);
        let id = match session_id_opt {
            Some(s) => s,
            None => new_session_id(),
        };
        let found = self.session(id.as_str());
        let ghost was = (id@, agent::opt_messages(found));
        let r = self.open_turn(id, found, user_message, streaming);
        proof {
            assert(stepped(r.0, r.1@) == opened(self@, was.0, was.1, user_message@, streaming));
        }
        r
    }

    /// Begins a turn of which only the end is told, on a session, or on a new
    /// one where none is named.
    pub fn run_conversation(&self, session_id_opt: Option<String>, user_message: &str) -> (r: (
        Turn,
        Vec<AgentStreamEvent>,
    ))
        ensures
            opened_on(self@, json::opt_text(session_id_opt), user_message@, false, r),
            r.0@.wf(),
    {
        self.start_turn(session_id_opt, user_message, false)
    }

    /// Begins a turn that is told as it goes on, on a session, or on a new one
    /// where none is named.
    pub fn run_conversation_stream(&self, session_id_opt: Option<String>, user_message: &str) -> (r:
        (Turn, Vec<AgentStreamEvent>))
        ensures
            opened_on(self@, json::opt_text(session_id_opt), user_message@, true, r),
            r.0@.wf(),
    {
        self.start_turn(session_id_opt, user_message, true)
    }

    /// Ends a turn. One that came to its end is stored as the session, cut to the
    /// window, and its trace is given back; one whose model could not be reached leaves the
    /// session as it was, and gives the error.
    pub fn close_turn(&mut self, turn: Turn) -> (r: Result<ConversationTrace, String>)
        requires
            turn@.phase is Finished || turn@.phase is Failed,
        ensures
            match turn@.phase {
                PhaseView::Failed(e) => {
                    &&& r matches Err(m) && m@ == e
                    &&& final(self)@ == old(self)@
                },
                _ => {
                    &&& r matches Ok(trace) && trace@ == turn@.trace
                    &&& final(self)@ == remembered(old(self)@, turn@)
                },
            },
    {
        match turn.phase {
            Phase::Failed(e) => Err(e),
            _ => {
                let mut messages = turn.messages;
                let ghost whole = messages@;
                Agent::trim_sliding_window(&mut messages);
                proof {
                    assert(text::views(messages@) =~= chat::window(text::views(whole)));
                }
                self.store_session(turn.session_id.clone(), messages);
                Ok(
                    ConversationTrace {
                        session_id: turn.session_id,
                        steps: turn.steps,
                        final_answer: turn.final_answer,
                    },
                )
            },
        }
    }

    /// Ends a turn that is told as it goes on: what is told last of one that
    /// came to its end is its trace. Of one whose model could not be reached, the
    /// error was told before.
    pub fn close_stream(&mut self, turn: Turn) -> (events: Vec<AgentStreamEvent>)
        requires
            turn@.phase is Finished || turn@.phase is Failed,
        ensures
            text::views(events@) == told_last(turn@),
            final(self)@ == if turn@.phase is Failed {
                old(self)@
            } else {
                remembered(old(self)@, turn@)
            },
    {
        let ghost t = turn@;
        let mut events: Vec<AgentStreamEvent> = Vec::new();
        match self.close_turn(turn) {
            Ok(trace) => {
                told(&mut events, AgentStreamEvent::Completed { trace });
            },
            Err(_) => {},
        }
        proof {
            assert(text::views(events@) =~= told_last(t));
        }
        events
    }
}

/// What is said of a trace is said of its fields: a call's name, reason, parameters,
/// result, time and rows, a step's words, and the answer are those that it carries.
pub proof fn law_traces_carry_what_is_said_of_them(
    c: ToolCallStep,
    s: ChatStep,
    t: ConversationTrace,
    i: int,
)
    ensures
        c@.tool_name == c.tool_name@,
        c@.reasoning == c.reasoning@,
        c@.query_or_params == c.query_or_params@,
        c@.result == c.result@,
        c@.elapsed_ms == c.elapsed_ms,
        c@.row_count == c.row_count,
        s.content matches Some(x) ==> s@.content == Some(x@),
        s.content is None ==> s@.content is None,
        s.reasoning matches Some(x) ==> s@.reasoning == Some(x@),
        s.reasoning is None ==> s@.reasoning is None,
        s@.tool_calls.len() == s.tool_calls@.len(),
        0 <= i < s.tool_calls@.len() ==> s@.tool_calls[i] == s.tool_calls@[i]@,
        t@.session_id == t.session_id@,
        t@.final_answer == t.final_answer@,
        t@.steps.len() == t.steps@.len(),
        0 <= i < t.steps@.len() ==> t@.steps[i] == t.steps@[i]@,
{
}

}
