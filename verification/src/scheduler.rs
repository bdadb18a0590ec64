//! The scheduler: one tick after another, each a fixed sequence of outside work
//! and decisions.
//!
//! The scheduler itself performs no outside work. It is a state machine: it is
//! told what happened ([`Event`]) and answers what to do next ([`Action`]). It
//! is idle between ticks. A tick starts when the timer fires and runs through
//! the token exchange, the listing and then the sources one by one; it ends, and
//! the scheduler is idle again, whatever fails on the way.

use crate::clock::{is_stamp, utc_now};
use crate::error::{Error, ErrorKind, ErrorView};
use crate::fingerprint::{can_hash, hashable};
use crate::json::{document_of, json_text};
use crate::sources::{
    get_sheet_data, get_sheets, holds_sheets, listed, no_sheets, sheet_data_request,
    sheet_data_request_document, sheets_of, source_views, Source, SourceView,
};
use crate::sync::{file_views, plan, planned, FileView, FileWrite};
use crate::token::{access_token_of, no_access_token, refresh_token, token_text};
use vstd::prelude::*;
use vstd::string::StringExecFns;

verus! {

/// What the scheduler is told.
#[derive(Debug, PartialEq, Eq)]
pub enum Event {
    /// The timer has fired.
    TimerFired,
    /// The token endpoint has answered with this body, or the request failed.
    TokenAnswer(Result<Vec<u8>, Error>),
    /// The listing request was answered with this body, or it failed.
    SourcesAnswer(Result<Vec<u8>, Error>),
    /// The request for one source's data was answered with success and this
    /// body, or it failed; `state` is the state document as it stands in
    /// storage, or `None` where it could not be read.
    PayloadAnswer { payload: Result<Vec<u8>, Error>, state: Option<Vec<u8>> },
    /// The files were written, or writing failed.
    Written(Result<(), Error>),
}

/// What the scheduler asks for.
#[derive(Debug, PartialEq, Eq)]
pub enum Action {
    /// Nothing is to be done: wait for the timer, or for the answer that is
    /// still due.
    Wait,
    /// Post the token request.
    RefreshToken,
    /// Request the listing of the sources, with this bearer token.
    ListSources { token: String },
    /// Request the data of source `sheet_id` with this bearer token and this
    /// request body, and read the state document.
    Fetch { token: String, sheet_id: u64, request: String },
    /// Write these files, in this order, each in full, and stop at the first
    /// that cannot be written.
    Write { files: Vec<FileWrite> },
}

/// The scheduler's answer to an event: what to do next, and the error to show
/// to the operator, if one came up.
#[derive(Debug, PartialEq, Eq)]
pub struct Step {
    pub action: Action,
    pub error: Option<Error>,
}

/// An event as a mathematical value.
pub enum EventView {
    TimerFired,
    TokenAnswer(Result<Seq<u8>, ErrorView>),
    SourcesAnswer(Result<Seq<u8>, ErrorView>),
    PayloadAnswer { payload: Result<Seq<u8>, ErrorView>, state: Option<Seq<u8>> },
    Written(Option<ErrorView>),
}

/// An action as a mathematical value.
pub enum ActionView {
    Wait,
    RefreshToken,
    ListSources { token: Seq<char> },
    Fetch { token: Seq<char>, sheet_id: u64, request: Seq<char> },
    Write { files: Seq<FileView> },
}

/// A step as a mathematical value.
pub struct StepView {
    pub action: ActionView,
    pub error: Option<ErrorView>,
}

/// The state of the scheduler as a mathematical value. All states but `Idle`
/// belong to a running tick.
pub enum PhaseView {
    /// No tick is running.
    Idle,
    /// The token was asked for.
    AwaitingToken,
    /// The listing was asked for.
    AwaitingSources { token: Seq<char> },
    /// The data of source `next` was asked for.
    AwaitingPayload { token: Seq<char>, sources: Seq<SourceView>, next: int },
    /// The files of source `next` are being written.
    AwaitingWrite { token: Seq<char>, sources: Seq<SourceView>, next: int },
}

/// What an answer holds, as a mathematical value.
pub open spec fn answer_view(answer: Result<Vec<u8>, Error>) -> Result<Seq<u8>, ErrorView> {
    match answer {
        Ok(body) => Ok(body@),
        Err(e) => Err(e@),
    }
}

/// An optional error as a mathematical value.
pub open spec fn error_view(error: Option<Error>) -> Option<ErrorView> {
    match error {
        Some(e) => Some(e@),
        None => None,
    }
}

impl View for Event {
    type V = EventView;

    open spec fn view(&self) -> EventView {
        match self {
            Event::TimerFired => EventView::TimerFired,
            Event::TokenAnswer(answer) => EventView::TokenAnswer(answer_view(*answer)),
            Event::SourcesAnswer(answer) => EventView::SourcesAnswer(answer_view(*answer)),
            Event::PayloadAnswer { payload, state } => EventView::PayloadAnswer {
                payload: answer_view(*payload),
                state: match state {
                    Some(s) => Some(s@),
                    None => None,
                },
            },
            Event::Written(res) => EventView::Written(
                match res {
                    Ok(_) => None,
                    Err(e) => Some(e@),
                },
            ),
        }
    }
}

impl View for Action {
    type V = ActionView;

    open spec fn view(&self) -> ActionView {
        match self {
            Action::Wait => ActionView::Wait,
            Action::RefreshToken => ActionView::RefreshToken,
            Action::ListSources { token } => ActionView::ListSources { token: token@ },
            Action::Fetch { token, sheet_id, request } => ActionView::Fetch {
                token: token@,
                sheet_id: *sheet_id,
                request: request@,
            },
            Action::Write { files } => ActionView::Write { files: file_views(files@) },
        }
    }
}

impl View for Step {
    type V = StepView;

    open spec fn view(&self) -> StepView {
        StepView { action: self.action@, error: error_view(self.error) }
    }
}

/// The error for a payload that is too long to be hashed.
pub open spec fn payload_too_long() -> ErrorView {
    ErrorView { kind: ErrorKind::Protocol, message: "payload too long"@ }
}

/// Going on with source `next`: its data is asked for, or, where no source is
/// left, the tick ends. `error` is passed on to the operator.
pub open spec fn advanced(
    token: Seq<char>,
    sources: Seq<SourceView>,
    next: int,
    error: Option<ErrorView>,
) -> (PhaseView, StepView) {
    if 0 <= next < sources.len() {
        (
            PhaseView::AwaitingPayload { token, sources, next },
            StepView {
                action: ActionView::Fetch {
                    token,
                    sheet_id: sources[next].id,
                    request: json_text(sheet_data_request_document(sources[next].id)),
                },
                error,
            },
        )
    } else {
        (PhaseView::Idle, StepView { action: ActionView::Wait, error })
    }
}

/// The end of a tick: the scheduler is idle and waits for the timer.
pub open spec fn ended(error: Option<ErrorView>) -> (PhaseView, StepView) {
    (PhaseView::Idle, StepView { action: ActionView::Wait, error })
}

/// The scheduler's transition: the state after `event` and the step taken, where
/// `at` is the time at which the event is handled.
///
/// An event that the state does not wait for changes nothing.
pub open spec fn transition(phase: PhaseView, event: EventView, at: Seq<char>) -> (
    PhaseView,
    StepView,
) {
    match (phase, event) {
        (PhaseView::Idle, EventView::TimerFired) => (
            PhaseView::AwaitingToken,
            StepView { action: ActionView::RefreshToken, error: None },
        ),
        (PhaseView::AwaitingToken, EventView::TokenAnswer(Err(e))) => ended(Some(e)),
        (PhaseView::AwaitingToken, EventView::TokenAnswer(Ok(body))) => match access_token_of(
            body,
        ) {
            Some(member) => (
                PhaseView::AwaitingSources { token: token_text(member) },
                StepView {
                    action: ActionView::ListSources { token: token_text(member) },
                    error: None,
                },
            ),
            None => ended(Some(no_access_token())),
        },
        (PhaseView::AwaitingSources { token }, EventView::SourcesAnswer(Err(e))) => ended(Some(e)),
        (PhaseView::AwaitingSources { token }, EventView::SourcesAnswer(Ok(body))) => match sheets_of(
            body,
        ) {
            Some(sheets) => advanced(token, listed(sheets), 0, None),
            None => ended(Some(no_sheets())),
        },
        (
            PhaseView::AwaitingPayload { token, sources, next },
            EventView::PayloadAnswer { payload: Err(e), state },
        ) => advanced(token, sources, next + 1, Some(e)),
        (
            PhaseView::AwaitingPayload { token, sources, next },
            EventView::PayloadAnswer { payload: Ok(payload), state },
        ) => if !hashable(payload.len()) {
            advanced(token, sources, next + 1, Some(payload_too_long()))
        } else if !holds_sheets(document_of(payload)) {
            advanced(token, sources, next + 1, Some(no_sheets()))
        } else {
            match planned(sources[next], payload, state, at) {
                Some(files) => (
                    PhaseView::AwaitingWrite { token, sources, next },
                    StepView { action: ActionView::Write { files }, error: None },
                ),
                None => advanced(token, sources, next + 1, None),
            }
        },
        (PhaseView::AwaitingWrite { token, sources, next }, EventView::Written(error)) => advanced(
            token,
            sources,
            next + 1,
            error,
        ),
        _ => (phase, StepView { action: ActionView::Wait, error: None }),
    }
}

/// Whether handling `event` at time `at` leads from `before` to `after` with
/// `step`.
pub open spec fn steps_to(
    before: PhaseView,
    event: EventView,
    at: Seq<char>,
    after: PhaseView,
    step: StepView,
) -> bool {
    transition(before, event, at) == (after, step)
}

enum Phase {
    Idle,
    AwaitingToken,
    AwaitingSources { token: String },
    AwaitingPayload { token: String, sources: Vec<Source>, next: usize },
    AwaitingWrite { token: String, sources: Vec<Source>, next: usize },
}

impl View for Phase {
    type V = PhaseView;

    closed spec fn view(&self) -> PhaseView {
        match self {
            Phase::Idle => PhaseView::Idle,
            Phase::AwaitingToken => PhaseView::AwaitingToken,
            Phase::AwaitingSources { token } => PhaseView::AwaitingSources { token: token@ },
            Phase::AwaitingPayload { token, sources, next } => PhaseView::AwaitingPayload {
                token: token@,
                sources: source_views(sources@),
                next: *next as int,
            },
            Phase::AwaitingWrite { token, sources, next } => PhaseView::AwaitingWrite {
                token: token@,
                sources: source_views(sources@),
                next: *next as int,
            },
        }
    }
}

impl PhaseView {
    /// Whether a tick is running: it is in every state but `Idle`.
    pub open spec fn running(self) -> bool {
        !(self is Idle)
    }

    /// While a source is worked on, it is one of the listed sources.
    pub open spec fn wf(self) -> bool {
        match self {
            PhaseView::AwaitingPayload { token, sources, next } => 0 <= next < sources.len(),
            PhaseView::AwaitingWrite { token, sources, next } => 0 <= next < sources.len(),
            _ => true,
        }
    }
}

/// Goes on with source `next`: asks for its data, or ends the tick where no
/// source is left. `error` is passed on to the operator.
fn advance(token: String, sources: Vec<Source>, next: usize, error: Option<Error>) -> (res: (
    Phase,
    Step,
))
    ensures
        (res.0@, res.1@) == advanced(token@, source_views(sources@), next as int, error_view(error)),
        res.0@.wf(),
{
    if next < sources.len() {
        let sheet_id = sources[next].id;
        let request = sheet_data_request(sheet_id).encode();
        let action = Action::Fetch { token: token.clone(), sheet_id, request };
        (Phase::AwaitingPayload { token, sources, next }, Step { action, error })
    } else {
        (Phase::Idle, Step { action: Action::Wait, error })
    }
}

/// The position of the source after source `next`.
fn after_source(sources: &Vec<Source>, next: usize) -> (following: usize)
    requires
        next < sources@.len(),
    ensures
        following == next + 1,
{
    let count = sources.len();
    next + 1
}

/// The scheduler. Its view is the state it is in.
pub struct Scheduler {
    phase: Phase,
}

impl View for Scheduler {
    type V = PhaseView;

    closed spec fn view(&self) -> PhaseView {
        self.phase@
    }
}

impl Scheduler {
    #[verifier::type_invariant]
    spec fn inv(self) -> bool {
        self.phase@.wf()
    }

    /// A scheduler that is idle.
    pub fn new() -> (scheduler: Scheduler)
        ensures
            scheduler@ == PhaseView::Idle,
    {
        Scheduler { phase: Phase::Idle }
    }

    /// Whether no tick is running.
    pub fn is_idle(&self) -> (idle: bool)
        ensures
            idle == !self@.running(),
            self@.wf(),
    {
        proof {
            use_type_invariant(self);
        }
        match self.phase {
            Phase::Idle => true,
            _ => false,
        }
    }

    /// Handles `event` as if it came at the time `at`, with which a table made
    /// in this step is stamped.
    pub fn step_at(&mut self, event: Event, at: String) -> (step: Step)
        ensures
            steps_to(old(self)@, event@, at@, final(self)@, step@),
            final(self)@.wf(),
    {
        proof {
            use_type_invariant(&*self);
        }
        let mut phase = Phase::Idle;
        core::mem::swap(&mut self.phase, &mut phase);
        let (after, step) = match (phase, event) {
            (Phase::Idle, Event::TimerFired) => (
                Phase::AwaitingToken,
                Step { action: Action::RefreshToken, error: None },
            ),
            (Phase::AwaitingToken, Event::TokenAnswer(Err(e))) => (
                Phase::Idle,
                Step { action: Action::Wait, error: Some(e) },
            ),
            (Phase::AwaitingToken, Event::TokenAnswer(Ok(body))) => {
                match refresh_token(body.as_slice()) {
                    Ok(token) => (
                        Phase::AwaitingSources { token: token.clone() },
                        Step { action: Action::ListSources { token }, error: None },
                    ),
                    Err(e) => (Phase::Idle, Step { action: Action::Wait, error: Some(e) }),
                }
            },
            (Phase::AwaitingSources { token }, Event::SourcesAnswer(Err(e))) => (
                Phase::Idle,
                Step { action: Action::Wait, error: Some(e) },
            ),
            (Phase::AwaitingSources { token }, Event::SourcesAnswer(Ok(body))) => {
                match get_sheets(body.as_slice()) {
                    Ok(sources) => advance(token, sources, 0, None),
                    Err(e) => (Phase::Idle, Step { action: Action::Wait, error: Some(e) }),
                }
            },
            (
                Phase::AwaitingPayload { token, sources, next },
                Event::PayloadAnswer { payload: Err(e), state },
            ) => {
                let following = after_source(&sources, next);
                advance(token, sources, following, Some(e))
            },
            (
                Phase::AwaitingPayload { token, sources, next },
                Event::PayloadAnswer { payload: Ok(payload), state },
            ) => {
                if !can_hash(payload.len()) {
                    let e = Error::ProtocolError(String::from_str("payload too long"));
                    let following = after_source(&sources, next);
                    advance(token, sources, following, Some(e))
                } else {
                    match get_sheet_data(payload) {
                        Err(e) => {
                            let following = after_source(&sources, next);
                            advance(token, sources, following, Some(e))
                        },
                        Ok(payload) => {
                            let doc = match &state {
                                Some(s) => Some(s.as_slice()),
                                None => None,
                            };
                            match plan(&sources[next], payload.as_slice(), doc, at) {
                                Some(files) => (
                                    Phase::AwaitingWrite { token, sources, next },
                                    Step { action: Action::Write { files }, error: None },
                                ),
                                None => {
                                    let following = after_source(&sources, next);
                                    advance(token, sources, following, None)
                                },
                            }
                        },
                    }
                }
            },
            (Phase::AwaitingWrite { token, sources, next }, Event::Written(res)) => {
                let error = match res {
                    Ok(_) => None,
                    Err(e) => Some(e),
                };
                let following = after_source(&sources, next);
                advance(token, sources, following, error)
            },
            (phase, _) => (phase, Step { action: Action::Wait, error: None }),
        };
        self.phase = after;
        step
    }

    /// Handles `event`: takes the scheduler to its next state and says what to do
    /// next. A table made in this step is stamped with the time of the call, a
    /// time stamp in UTC.
    pub fn step(&mut self, event: Event) -> (step: Step)
        ensures
            exists|at: Seq<char>|
                is_stamp(at) && #[trigger] steps_to(old(self)@, event@, at, final(self)@, step@),
            final(self)@.wf(),
    {
        let at = utc_now();
        self.step_at(event, at)
    }
}

/// Whether `event` is the one that the scheduler waits for in state `phase`.
pub open spec fn awaited(phase: PhaseView, event: EventView) -> bool {
    match (phase, event) {
        (PhaseView::Idle, EventView::TimerFired) => true,
        (PhaseView::AwaitingToken, EventView::TokenAnswer(_)) => true,
        (PhaseView::AwaitingSources { .. }, EventView::SourcesAnswer(_)) => true,
        (PhaseView::AwaitingPayload { .. }, EventView::PayloadAnswer { .. }) => true,
        (PhaseView::AwaitingWrite { .. }, EventView::Written(_)) => true,
        _ => false,
    }
}

/// How many answers a running tick may still wait for once its sources are
/// known: two for each source that is left, one less while a write is under way.
/// An idle scheduler waits for none.
pub open spec fn answers_left(phase: PhaseView) -> int {
    match phase {
        PhaseView::AwaitingPayload { token, sources, next } => 2 * (sources.len() - next),
        PhaseView::AwaitingWrite { token, sources, next } => 2 * (sources.len() - next) - 1,
        _ => 0,
    }
}

/// An event that the scheduler does not wait for changes nothing and asks for
/// nothing. In particular the timer starts no tick while one is running.
pub proof fn lemma_other_events_change_nothing(phase: PhaseView, event: EventView, at: Seq<char>)
    requires
        !awaited(phase, event),
    ensures
        transition(phase, event, at) == (phase, StepView { action: ActionView::Wait, error: None }),
{
}

/// The timer starts a tick exactly when none is running, and a tick starts with
/// the token exchange.
pub proof fn lemma_the_timer_starts_a_tick(phase: PhaseView, at: Seq<char>)
    ensures
        !phase.running() ==> transition(phase, EventView::TimerFired, at) == (
            PhaseView::AwaitingToken,
            StepView { action: ActionView::RefreshToken, error: None },
        ),
        phase.running() ==> transition(phase, EventView::TimerFired, at).0 == phase,
{
}

/// A tick that cannot get its token or its listing ends at once: the scheduler
/// is idle again and shows the error.
pub proof fn lemma_failed_start_ends_the_tick(phase: PhaseView, event: EventView, at: Seq<char>)
    requires
        phase is AwaitingToken || phase is AwaitingSources,
        awaited(phase, event),
        match event {
            EventView::TokenAnswer(answer) => answer is Err || access_token_of(
                answer->Ok_0,
            ) is None,
            EventView::SourcesAnswer(answer) => answer is Err || sheets_of(answer->Ok_0) is None,
            _ => false,
        },
    ensures
        transition(phase, event, at).0 is Idle,
        transition(phase, event, at).1.action is Wait,
        transition(phase, event, at).1.error is Some,
{
}

/// While the sources are worked through, every awaited answer brings the tick
/// nearer to its end, whether it reports success or failure: the scheduler
/// either becomes idle or waits for fewer answers than before. A source that
/// fails is left behind, and the tick goes on with the next one.
pub proof fn lemma_every_answer_brings_the_end_nearer(
    phase: PhaseView,
    event: EventView,
    at: Seq<char>,
)
    requires
        phase.wf(),
        phase is AwaitingPayload || phase is AwaitingWrite,
        awaited(phase, event),
    ensures
        transition(phase, event, at).0.wf(),
        transition(phase, event, at).0 is Idle || 0 < answers_left(transition(phase, event, at).0)
            < answers_left(phase),
        answers_left(phase) == 1 ==> transition(phase, event, at).0 is Idle,
{
}

/// A source that has not changed is passed over: nothing is written for it, and
/// the tick goes on with the next source.
pub proof fn lemma_unchanged_source_is_skipped(
    token: Seq<char>,
    sources: Seq<SourceView>,
    next: int,
    payload: Seq<u8>,
    state: Option<Seq<u8>>,
    at: Seq<char>,
)
    requires
        0 <= next < sources.len(),
        hashable(payload.len()),
        holds_sheets(document_of(payload)),
        planned(sources[next], payload, state, at) is None,
    ensures
        transition(
            PhaseView::AwaitingPayload { token, sources, next },
            EventView::PayloadAnswer { payload: Ok(payload), state },
            at,
        ) == advanced(token, sources, next + 1, None),
        !(advanced(token, sources, next + 1, None).1.action is Write),
{
}

/// Files are written for a source only where it is new or has changed, and then
/// they are the files planned for it.
pub proof fn lemma_writes_are_planned(phase: PhaseView, event: EventView, at: Seq<char>)
    requires
        phase.wf(),
        transition(phase, event, at).1.action is Write,
    ensures
        phase is AwaitingPayload,
        event is PayloadAnswer,
        event->payload is Ok,
        holds_sheets(document_of(event->payload->Ok_0)),
        planned(
            phase->AwaitingPayload_sources[phase->AwaitingPayload_next],
            event->payload->Ok_0,
            event->state,
            at,
        ) == Some(transition(phase, event, at).1.action->files),
{
}

} // verus!
