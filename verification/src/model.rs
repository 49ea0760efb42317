//! Asking a model: which model is tried when, and what is made of its reply.
use vstd::prelude::*;

use crate::agent;
use crate::agent::Agent;
use crate::chat;
use crate::chat::ChatCompletion;
use crate::chat::CompletionView;
use crate::json;
use crate::json::Json;
use crate::text;

verus! {

/// How often each model is tried.
pub const MAX_RETRIES: usize = 3;

/// How long a model may take to reply, in seconds.
pub const REPLY_TIMEOUT_SECS: u64 = 60;

// ---------------------------------------------------------------------------
// What is made of a reply
// ---------------------------------------------------------------------------

/// What came of asking a model.
#[derive(Debug)]
pub enum ModelReply {
    /// No response came, for this reason.
    Unreachable(String),
    /// The response was a refusal.
    Refused { status: String, body: String },
    /// The response was no JSON, for this reason.
    Unreadable(String),
    Body(Json),
}

/// What a completion or its error holds.
pub open spec fn completion_outcome(r: Result<ChatCompletion, String>) -> Result<
    CompletionView,
    Seq<char>,
> {
    match r {
        Ok(c) => Ok(c@),
        Err(e) => Err(e@),
    }
}

/// The completion that a reply holds, or why it holds none.
pub open spec fn judged(reply: ModelReply) -> Result<CompletionView, Seq<char>> {
    match reply {
        ModelReply::Unreachable(e) => Err("HTTP error: "@ + e@),
        ModelReply::Refused { status, body } => Err("API error "@ + status@ + ": "@ + body@),
        ModelReply::Unreadable(e) => Err("JSON parse error: "@ + e@),
        ModelReply::Body(j) => Ok(chat::completion_of(j@)),
    }
}

/// The completion that a reply holds, or why it holds none.
pub fn judge_reply(reply: ModelReply) -> (r: Result<ChatCompletion, String>)
    ensures
        completion_outcome(r) == judged(reply),
{
    match reply {
        ModelReply::Unreachable(e) => Err(text::plus("HTTP error: ".to_owned(), e.as_str())),
        ModelReply::Refused { status, body } => {
            let mut s = "API error ".to_owned();
            s.append(status.as_str());
            s.append(": ");
            s.append(body.as_str());
            Err(s)
        },
        ModelReply::Unreadable(e) => Err(text::plus("JSON parse error: ".to_owned(), e.as_str())),
        ModelReply::Body(j) => Ok(chat::read_completion(&j)),
    }
}

// ---------------------------------------------------------------------------
// Trying
// ---------------------------------------------------------------------------

/// The tries at getting a completion.
#[derive(Debug)]
pub struct Tries {
    models: Vec<String>,
    /// How many tries failed.
    failed: usize,
    last_error: Option<String>,
}

/// What the tries hold.
#[verifier::ext_equal]
pub struct TriesView {
    pub models: Seq<Seq<char>>,
    pub failed: nat,
    pub last_error: Option<Seq<char>>,
}

impl View for Tries {
    type V = TriesView;

    closed spec fn view(&self) -> TriesView {
        TriesView {
            models: text::views(self.models@),
            failed: self.failed as nat,
            last_error: json::opt_text(self.last_error),
        }
    }
}

/// One try: the model, and how long to wait before, in milliseconds.
#[derive(Debug)]
pub struct Try {
    pub model: String,
    pub delay_ms: u64,
}

/// How long to wait before a model is tried for the `n`-th time again.
pub open spec fn delay_before(n: int) -> u64 {
    if n <= 0 {
        0
    } else if n == 1 {
        1000
    } else {
        2000
    }
}

impl TriesView {
    /// There is one model or two, and at most all tries failed.
    pub open spec fn wf(self) -> bool {
        &&& 1 <= self.models.len() <= 2
        &&& self.failed <= self.models.len() * MAX_RETRIES
        &&& self.failed > 0 ==> self.last_error is Some
    }

    /// No try is left.
    pub open spec fn spent(self) -> bool {
        self.failed == self.models.len() * MAX_RETRIES
    }

    /// One more try failed.
    pub open spec fn failing(self, error: Seq<char>) -> TriesView {
        TriesView { failed: self.failed + 1, last_error: Some(error), ..self }
    }

    /// The model of the next try.
    pub open spec fn model(self) -> Seq<char> {
        self.models[self.failed as int / (MAX_RETRIES as int)]
    }

    /// How long to wait before the next try.
    pub open spec fn delay(self) -> u64 {
        delay_before(self.failed as int % (MAX_RETRIES as int))
    }
}

/// The tries that the agent makes: its model first, then the one to fall back
/// on.
pub open spec fn tries_of(a: agent::AgentView) -> TriesView {
    TriesView {
        models: match a.fallback_model {
            Some(f) => seq![a.model, f],
            None => seq![a.model],
        },
        failed: 0,
        last_error: None,
    }
}

impl Agent {
    /// The tries that the agent makes for one completion.
    pub fn call_openrouter(&self) -> (r: Tries)
        ensures
            r@ == tries_of(self@),
            r@.wf(),
    {
        let (model, fallback) = self.models();
        let mut models: Vec<String> = Vec::new();
        models.push(model);
        match fallback {
            Some(f) => {
                models.push(f);
            },
            None => {},
        }
        let r = Tries { models, failed: 0, last_error: None };
        proof {
            assert(r@ =~= tries_of(self@));
        }
        r
    }
}

impl Tries {
    /// The next try; none where all failed.
    pub fn next_try(&self) -> (r: Option<Try>)
        requires
            self@.wf(),
        ensures
            match r {
                Some(t) => !self@.spent() && t.model@ == self@.model() && t.delay_ms
                    == self@.delay(),
                None => self@.spent(),
            },
    {
        if self.failed == self.models.len() * MAX_RETRIES {
            return None;
        }
        let k: usize = self.failed / MAX_RETRIES;
        let n: usize = self.failed % MAX_RETRIES;
        let delay_ms: u64 = if n == 0 {
            0
        } else if n == 1 {
            1000
        } else {
            2000
        };
        proof {
            assert(text::views(self.models@)[k as int] == self.models@[k as int]@);
        }
        Some(Try { model: self.models[k].clone(), delay_ms })
    }

    /// A try failed.
    pub fn try_failed(&mut self, error: String)
        requires
            old(self)@.wf(),
            !old(self)@.spent(),
        ensures
            final(self)@ == old(self)@.failing(error@),
            final(self)@.wf(),
    {
        self.failed = self.failed + 1;
        self.last_error = Some(error);
        proof {
            assert(self@ =~= old(self)@.failing(error@));
        }
    }

    /// Why no completion came: the error of the last try.
    pub fn error(&self) -> (r: String)
        ensures
            r@ == text::or_text(self@.last_error, "All models failed"@),
    {
        match &self.last_error {
            Some(e) => e.clone(),
            None => "All models failed".to_owned(),
        }
    }
}

/// The tries after all of `errors`, one by one.
pub open spec fn after_errors(t: TriesView, errors: Seq<Seq<char>>) -> TriesView
    decreases errors.len(),
{
    if errors.len() == 0 {
        t
    } else {
        after_errors(t, errors.drop_last()).failing(errors.last())
    }
}

proof fn lemma_after_errors(t: TriesView, errors: Seq<Seq<char>>)
    ensures
        after_errors(t, errors).models == t.models,
        after_errors(t, errors).failed == t.failed + errors.len(),
        errors.len() > 0 ==> after_errors(t, errors).last_error == Some(errors.last()),
    decreases errors.len(),
{
    if errors.len() > 0 {
        lemma_after_errors(t, errors.drop_last());
    }
}

/// Each model is tried three times, the agent's own first, with growing waits
/// before the second and the third time; when all failed, the last error is the
/// one that is told.
pub proof fn law_tries_in_order(a: agent::AgentView, errors: Seq<Seq<char>>)
    requires
        errors.len() <= tries_of(a).models.len() * MAX_RETRIES,
    ensures
        ({
            let t = after_errors(tries_of(a), errors);
            &&& t.spent() <==> errors.len() == if a.fallback_model is Some {
                6nat
            } else {
                3nat
            }
            &&& errors.len() < 3 ==> t.model() == a.model
            &&& 3 <= errors.len() && !t.spent() ==> a.fallback_model == Some(t.model())
            &&& !t.spent() ==> t.delay() == if errors.len() % 3 == 0 {
                0u64
            } else if errors.len() % 3 == 1 {
                1000u64
            } else {
                2000u64
            }
            &&& errors.len() > 0 ==> t.last_error == Some(errors.last())
        }),
{
    lemma_after_errors(tries_of(a), errors);
}

/// Only a body gives a completion, and it gives what the body says; everything else
/// is an error that tells what went wrong and why.
pub proof fn law_only_bodies_complete(reply: ModelReply)
    ensures
        judged(reply) is Ok <==> reply is Body,
        reply matches ModelReply::Body(j) ==> judged(reply) == Ok::<CompletionView, Seq<char>>(
            chat::completion_of(j@),
        ),
        reply matches ModelReply::Unreachable(e) ==> judged(reply) == Err::<
            CompletionView,
            Seq<char>,
        >("HTTP error: "@ + e@),
        reply matches ModelReply::Refused { status, body } ==> judged(reply) == Err::<
            CompletionView,
            Seq<char>,
        >("API error "@ + status@ + ": "@ + body@),
        reply matches ModelReply::Unreadable(e) ==> judged(reply) == Err::<
            CompletionView,
            Seq<char>,
        >("JSON parse error: "@ + e@),
{
}

/// A model that is tried is one of the agent's, and one more failure is one more
/// try spent; a third failure in a row moves on to the next model.
pub proof fn law_failures_move_on(t: TriesView, e: Seq<char>)
    requires
        t.wf(),
        !t.spent(),
    ensures
        t.failing(e).failed == t.failed + 1,
        t.failing(e).models == t.models,
        t.failing(e).last_error == Some(e),
        exists|i: int| 0 <= i < t.models.len() && #[trigger] t.models[i] == t.model(),
        t.failed < 3 ==> t.model() == t.models[0],
        3 <= t.failed < 6 ==> t.models.len() == 2 && t.model() == t.models[1],
        t.failed == 0 || t.failed == 3 ==> t.delay() == 0,
        t.failed == 1 || t.failed == 4 ==> t.delay() == 1000,
        t.failed == 2 || t.failed == 5 ==> t.delay() == 2000,
        t.failing(e).spent() <==> t.failed + 1 == 3 * t.models.len(),
{
    let i = t.failed as int / 3;
    assert(t.models[i] == t.model());
}

}
