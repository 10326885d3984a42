//! Sagas: steps that are undone in reverse order when one of them fails.
use crate::name_map::NameMap;
use vstd::prelude::*;

verus! {

/// Attempts per step where the configuration does not say.
pub fn default_retry_max() -> (r: u32)
    ensures
        r == 3,
{
    3
}

/// Pause between attempts, in milliseconds, where the configuration does not say.
pub fn default_retry_backoff() -> (r: u64)
    ensures
        r == 1000,
{
    1000
}

/// How steps are retried.
#[derive(Debug, Clone, Copy, PartialEq, Eq, Structural)]
pub struct SagaConfig {
    /// Attempts per step.
    pub retry_max_attempts: u32,
    /// Pause between attempts, in milliseconds.
    pub retry_backoff_ms: u64,
}

impl Default for SagaConfig {
    fn default() -> (r: Self)
        ensures
            r == (SagaConfig { retry_max_attempts: 3, retry_backoff_ms: 1000 }),
    {
        SagaConfig {
            retry_max_attempts: default_retry_max(),
            retry_backoff_ms: default_retry_backoff(),
        }
    }
}

// ---- context ----

/// What the steps of a saga share.
#[derive(Debug)]
pub struct SagaContext {
    saga_id: String,
    data: NameMap<String>,
}

impl SagaContext {
    /// Id of the saga.
    pub closed spec fn id(&self) -> Seq<char> {
        self.saga_id@
    }

    /// The shared values.
    pub closed spec fn values(&self) -> Map<Seq<char>, Seq<char>> {
        self.data@.map_values(|s: String| s@)
    }

    /// A context without values.
    pub fn new(saga_id: &str) -> (r: Self)
        ensures
            r.id() == saga_id@,
            r.values() == Map::<Seq<char>, Seq<char>>::empty(),
    {
        let r = SagaContext { saga_id: saga_id.to_owned(), data: NameMap::new() };
        assert(r.values() =~= Map::<Seq<char>, Seq<char>>::empty());
        r
    }

    /// Id of the saga.
    pub fn saga_id(&self) -> (r: &str)
        ensures
            r@ == self.id(),
    {
        self.saga_id.as_str()
    }

    /// Sets a value.
    pub fn set(&mut self, key: &str, value: &str)
        ensures
            final(self).id() == old(self).id(),
            final(self).values() == old(self).values().insert(key@, value@),
    {
        let _ = self.data.insert(key.to_owned(), value.to_owned());
        assert(self.values() =~= old(self).values().insert(key@, value@));
    }

    /// The value of a key.
    pub fn get(&self, key: &str) -> (r: Option<&String>)
        ensures
            r is Some <==> self.values().dom().contains(key@),
            r matches Some(v) ==> v@ == self.values()[key@],
    {
        self.data.get(key)
    }
}

/// A value that was set is read back, and the others stay.
pub proof fn law_set_then_get(
    values: Map<Seq<char>, Seq<char>>,
    key: Seq<char>,
    value: Seq<char>,
    other: Seq<char>,
)
    ensures
        values.insert(key, value).dom().contains(key),
        values.insert(key, value)[key] == value,
        other != key ==> (values.insert(key, value).dom().contains(other) == values.dom().contains(
            other,
        )),
        other != key && values.dom().contains(other) ==> values.insert(key, value)[other]
            == values[other],
{
}

// ---- steps and states ----

/// Work of a step, forward or backward.
pub trait StepWork: Send + Sync {
    /// Whether a run may find one context, leave another and end in this way. Work that says
    /// nothing of itself may do anything.
    open spec fn may(&self, before: SagaContext, after: SagaContext, outcome: Result<(), String>) -> bool {
        true
    }

    fn run(&self, ctx: &mut SagaContext) -> (r: Result<(), String>)
        ensures
            self.may(*old(ctx), *final(ctx), r),
    ;
}

/// Waiting between two attempts.
pub trait Backoff {
    /// Waits before a further attempt of a step; the first attempt has number 0.
    fn pause(&self, step: usize, attempt: u32, millis: u64);
}

/// Whether it was waited before an attempt of a step.
pub open spec fn paused<B: Backoff + ?Sized>(
    backoff: &B,
    step: usize,
    attempt: u32,
    millis: u64,
) -> bool {
    call_ensures(B::pause, (backoff, step, attempt, millis), ())
}

fn wait<B: Backoff + ?Sized>(backoff: &B, step: usize, attempt: u32, millis: u64)
    ensures
        paused(backoff, step, attempt, millis),
{
    backoff.pause(step, attempt, millis)
}

/// A step: what it does, and what undoes it.
pub struct SagaStep {
    pub name: String,
    pub action: Box<dyn StepWork>,
    pub compensation: Box<dyn StepWork>,
}

/// State of a saga.
#[derive(Debug, Clone, Copy, PartialEq, Eq, Structural)]
pub enum SagaState {
    Pending,
    Running,
    Completed,
    Compensating,
    Failed,
}

/// How a saga ended.
#[derive(Debug)]
pub enum StepResult {
    Completed,
    Failed { step_name: String, error: String },
    Compensated { failed_step: String },
}

/// Errors of sagas.
#[derive(Debug)]
pub enum SagaError {
    /// No saga of that id.
    NotFound(String),
}

impl SagaError {
    /// The error as one line.
    pub fn to_text(&self) -> (r: String)
        ensures
            *self matches SagaError::NotFound(id) ==> r@ == "saga not found: "@ + id@,
    {
        match self {
            SagaError::NotFound(id) => {
                let mut s = "saga not found: ".to_owned();
                s.append(id.as_str());
                s
            },
        }
    }
}

// ---- the run of a saga ----

/// Where a saga stands.
#[derive(Debug, Clone, Copy, PartialEq, Eq, Structural)]
pub enum SagaPhase {
    /// A step is attempted.
    Forward { step: usize, attempt: u32 },
    /// Steps are undone: `left` of those before the failed one remain, at least one.
    Backward { failed: usize, left: usize },
    Completed,
    Failed { step: usize },
}

/// State of a run.
pub struct SagaRunView {
    pub total: usize,
    pub attempts: u32,
    pub phase: SagaPhase,
    /// Error of the last attempt of the failed step.
    pub error: Seq<char>,
}

/// What is done next.
#[derive(Debug, Clone, Copy, PartialEq, Eq, Structural)]
pub enum SagaAction {
    /// Run the action of a step, after a pause where it is not the first attempt.
    Attempt { step: usize, attempt: u32 },
    /// Run the compensation of a step; what comes of it does not matter.
    Compensate { step: usize },
    Finished,
}

/// The first state of a run. With no attempts allowed, the first step fails at once.
pub open spec fn saga_begin(total: usize, attempts: u32) -> SagaRunView {
    let phase = if total == 0 {
        SagaPhase::Completed
    } else if attempts == 0 {
        SagaPhase::Failed { step: 0 }
    } else {
        SagaPhase::Forward { step: 0, attempt: 0 }
    };
    SagaRunView { total, attempts, phase, error: Seq::empty() }
}

/// Where a step that failed for good leaves a run: the steps before it are undone, if there are
/// any.
pub open spec fn undoing(failed: usize, left: usize) -> SagaPhase {
    if left > 0 {
        SagaPhase::Backward { failed, left }
    } else {
        SagaPhase::Failed { step: failed }
    }
}

/// State after an attempt; `error` is what the attempt failed with, if it did.
pub open spec fn saga_attempted(run: SagaRunView, error: Option<Seq<char>>) -> SagaRunView {
    match run.phase {
        SagaPhase::Forward { step, attempt } => match error {
            None => SagaRunView {
                phase: if step + 1 < run.total {
                    SagaPhase::Forward { step: (step + 1) as usize, attempt: 0 }
                } else {
                    SagaPhase::Completed
                },
                ..run
            },
            Some(e) => if attempt + 1 < run.attempts {
                SagaRunView {
                    phase: SagaPhase::Forward { step, attempt: (attempt + 1) as u32 },
                    ..run
                }
            } else {
                SagaRunView {
                    phase: undoing(step, step),
                    error: e,
                    ..run
                }
            },
        },
        _ => run,
    }
}

/// State after a compensation.
pub open spec fn saga_compensated(run: SagaRunView) -> SagaRunView {
    match run.phase {
        SagaPhase::Backward { failed, left } => SagaRunView {
            phase: undoing(failed, (left - 1) as usize),
            ..run
        },
        _ => run,
    }
}

/// What a state asks for.
pub open spec fn saga_action(run: SagaRunView) -> SagaAction {
    match run.phase {
        SagaPhase::Forward { step, attempt } => SagaAction::Attempt { step, attempt },
        SagaPhase::Backward { left, .. } => SagaAction::Compensate { step: (left - 1) as usize },
        _ => SagaAction::Finished,
    }
}

/// Whether the positions of a run are in range.
pub open spec fn saga_in_range(run: SagaRunView) -> bool {
    match run.phase {
        SagaPhase::Forward { step, attempt } => step < run.total && attempt < run.attempts,
        SagaPhase::Backward { failed, left } => failed < run.total && 0 < left <= failed,
        SagaPhase::Completed => true,
        SagaPhase::Failed { step } => step < run.total,
    }
}

fn undo(failed: usize, left: usize) -> (r: SagaPhase)
    ensures
        r == undoing(failed, left),
{
    if left > 0 {
        SagaPhase::Backward { failed, left }
    } else {
        SagaPhase::Failed { step: failed }
    }
}

/// A saga in progress.
#[derive(Debug)]
pub struct SagaRun {
    total: usize,
    attempts: u32,
    phase: SagaPhase,
    error: String,
}

impl SagaRun {
    /// State of the run.
    pub closed spec fn view(&self) -> SagaRunView {
        SagaRunView {
            total: self.total,
            attempts: self.attempts,
            phase: self.phase,
            error: self.error@,
        }
    }

    /// The positions stay in range.
    #[verifier::type_invariant]
    pub closed spec fn wf(&self) -> bool {
        saga_in_range(self@)
    }

    /// A run of a number of steps with a number of attempts per step.
    pub fn new(total: usize, attempts: u32) -> (r: Self)
        ensures
            r@ == saga_begin(total, attempts),
            saga_in_range(r@),
    {
        let phase = if total == 0 {
            SagaPhase::Completed
        } else if attempts == 0 {
            SagaPhase::Failed { step: 0 }
        } else {
            SagaPhase::Forward { step: 0, attempt: 0 }
        };
        SagaRun { total, attempts, phase, error: String::new() }
    }

    /// What is done next.
    pub fn action(&self) -> (r: SagaAction)
        ensures
            r == saga_action(self@),
            r matches SagaAction::Attempt { step, .. } ==> step < self@.total,
            r matches SagaAction::Compensate { step } ==> step < self@.total,
    {
        proof {
            use_type_invariant(self);
        }
        match self.phase {
            SagaPhase::Forward { step, attempt } => SagaAction::Attempt { step, attempt },
            SagaPhase::Backward { left, .. } => SagaAction::Compensate { step: left - 1 },
            _ => SagaAction::Finished,
        }
    }

    /// Takes in what came of an attempt.
    pub fn on_attempt(self, outcome: Result<(), String>) -> (r: Self)
        ensures
            r@ == saga_attempted(
                self@,
                match outcome {
                    Ok(_) => None,
                    Err(e) => Some(e@),
                },
            ),
    {
        proof {
            use_type_invariant(&self);
        }
        match self.phase {
            SagaPhase::Forward { step, attempt } => match outcome {
                Ok(_) => {
                    let phase = if step + 1 < self.total {
                        SagaPhase::Forward { step: step + 1, attempt: 0 }
                    } else {
                        SagaPhase::Completed
                    };
                    SagaRun { phase, ..self }
                },
                Err(e) => if attempt + 1 < self.attempts {
                    SagaRun { phase: SagaPhase::Forward { step, attempt: attempt + 1 }, ..self }
                } else {
                    SagaRun {
                        total: self.total,
                        attempts: self.attempts,
                        phase: undo(step, step),
                        error: e,
                    }
                },
            },
            _ => self,
        }
    }

    /// Takes in that a compensation was run.
    pub fn on_compensated(self) -> (r: Self)
        ensures
            r@ == saga_compensated(self@),
    {
        proof {
            use_type_invariant(&self);
        }
        match self.phase {
            SagaPhase::Backward { failed, left } => {
                SagaRun { phase: undo(failed, left - 1), ..self }
            },
            _ => self,
        }
    }

    /// Error of the last attempt of the failed step.
    pub fn error(&self) -> (r: String)
        ensures
            r@ == self@.error,
    {
        self.error.clone()
    }

    /// The step that failed for good, once everything is undone.
    pub fn failed_step(&self) -> (r: Option<usize>)
        ensures
            match r {
                Some(step) => self@.phase == (SagaPhase::Failed { step }) && step < self@.total,
                None => !(self@.phase is Failed),
            },
    {
        proof {
            use_type_invariant(self);
        }
        match self.phase {
            SagaPhase::Failed { step } => Some(step),
            _ => None,
        }
    }

    /// State that the saga is in while the run stands where it does.
    pub fn state(&self) -> (r: SagaState)
        ensures
            r == saga_state(self@.phase),
    {
        match self.phase {
            SagaPhase::Forward { .. } => SagaState::Running,
            SagaPhase::Backward { .. } => SagaState::Compensating,
            SagaPhase::Completed => SagaState::Completed,
            SagaPhase::Failed { .. } => SagaState::Failed,
        }
    }
}

/// State of a saga in a phase.
pub open spec fn saga_state(phase: SagaPhase) -> SagaState {
    match phase {
        SagaPhase::Forward { .. } => SagaState::Running,
        SagaPhase::Backward { .. } => SagaState::Compensating,
        SagaPhase::Completed => SagaState::Completed,
        SagaPhase::Failed { .. } => SagaState::Failed,
    }
}

// ---- laws of a run ----

/// The compensations that a failing saga still has to run, in order.
pub open spec fn compensations_left(phase: SagaPhase) -> Seq<int> {
    match phase {
        SagaPhase::Backward { left, .. } => Seq::new(left as nat, |k: int| left - 1 - k),
        _ => Seq::empty(),
    }
}

/// A step that fails for good has every step before it undone, the last one first; the failed
/// step itself was not carried out and is not undone.
pub proof fn law_failure_undoes_in_reverse(run: SagaRunView, error: Seq<char>)
    requires
        run.phase matches SagaPhase::Forward { step, attempt } && attempt + 1 >= run.attempts,
    ensures
        compensations_left(saga_attempted(run, Some(error)).phase) == Seq::new(
            run.phase->Forward_step as nat,
            |k: int| run.phase->Forward_step - 1 - k,
        ),
{
    assert(compensations_left(saga_attempted(run, Some(error)).phase) =~= Seq::new(
        run.phase->Forward_step as nat,
        |k: int| run.phase->Forward_step - 1 - k,
    ));
}

/// Each compensation is the next of those that are left, and running it leaves the others.
pub proof fn law_compensations_run_in_order(run: SagaRunView)
    requires
        run.phase is Backward,
        saga_in_range(run),
    ensures
        saga_action(run) matches SagaAction::Compensate { step } && step == compensations_left(
            run.phase,
        )[0],
        compensations_left(saga_compensated(run).phase) == compensations_left(
            run.phase,
        ).drop_first(),
{
    assert(compensations_left(saga_compensated(run).phase) =~= compensations_left(
        run.phase,
    ).drop_first());
}

/// Outcome of a step from an attempt on: nothing where some attempt succeeds, and otherwise the
/// error of the last one.
pub open spec fn step_error(
    outcome: spec_fn(int, int) -> Option<Seq<char>>,
    step: int,
    attempt: int,
    attempts: int,
) -> Option<Seq<char>>
    decreases attempts - attempt,
{
    match outcome(step, attempt) {
        None => None,
        Some(e) => if attempt + 1 < attempts {
            step_error(outcome, step, attempt + 1, attempts)
        } else {
            Some(e)
        },
    }
}

/// The first step from `step` on that fails for good, with its error.
pub open spec fn first_failure(
    outcome: spec_fn(int, int) -> Option<Seq<char>>,
    step: int,
    total: int,
    attempts: int,
) -> Option<(int, Seq<char>)>
    decreases total - step,
{
    if step >= total {
        None
    } else {
        match step_error(outcome, step, 0, attempts) {
            Some(e) => Some((step, e)),
            None => first_failure(outcome, step + 1, total, attempts),
        }
    }
}

/// End of the forward part of a run under given outcomes of all attempts.
pub open spec fn forward_end(
    run: SagaRunView,
    outcome: spec_fn(int, int) -> Option<Seq<char>>,
) -> SagaRunView
    decreases
            (match run.phase {
                SagaPhase::Forward { step, .. } => run.total - step,
                _ => 0,
            }),
            (match run.phase {
                SagaPhase::Forward { attempt, .. } => run.attempts - attempt,
                _ => 0,
            }),
{
    match run.phase {
        SagaPhase::Forward { step, attempt } => if saga_in_range(run) {
            forward_end(saga_attempted(run, outcome(step as int, attempt as int)), outcome)
        } else {
            run
        },
        _ => run,
    }
}

/// A saga completes exactly where every step succeeds within its attempts. Otherwise the first
/// step that does not is the one that fails, with the error of its last attempt.
pub proof fn law_saga_outcome(
    run: SagaRunView,
    outcome: spec_fn(int, int) -> Option<Seq<char>>,
)
    requires
        run.phase is Forward,
        saga_in_range(run),
    ensures
        ({
            let step = run.phase->Forward_step as int;
            let attempt = run.phase->attempt as int;
            let end = forward_end(run, outcome);
            match step_error(outcome, step, attempt, run.attempts as int) {
                Some(e) => end.phase == undoing(step as usize, step as usize) && end.error == e,
                None => match first_failure(
                    outcome,
                    step + 1,
                    run.total as int,
                    run.attempts as int,
                ) {
                    Some((f, e)) => end.phase == undoing(f as usize, f as usize) && end.error == e,
                    None => end.phase is Completed,
                },
            }
        }),
    decreases run.total - run.phase->Forward_step, run.attempts - run.phase->attempt,
{
    let step = run.phase->Forward_step;
    let attempt = run.phase->attempt;
    let next = saga_attempted(run, outcome(step as int, attempt as int));
    assert(forward_end(run, outcome) == forward_end(next, outcome));
    if next.phase is Forward {
        law_saga_outcome(next, outcome);
    } else {
        assert(forward_end(next, outcome) == next);
    }
}

// ---- what a run calls ----

/// A call of a step's work.
pub struct SagaCall {
    /// The context that it left.
    pub after: SagaContext,
    pub outcome: Result<(), String>,
}

/// The failure of a call.
pub open spec fn call_error(call: SagaCall) -> Option<Seq<char>> {
    match call.outcome {
        Ok(_) => None,
        Err(e) => Some(e@),
    }
}

/// The run after a call.
pub open spec fn saga_called(run: SagaRunView, call: SagaCall) -> SagaRunView {
    match run.phase {
        SagaPhase::Forward { .. } => saga_attempted(run, call_error(call)),
        _ => saga_compensated(run),
    }
}

/// The run after calls.
pub open spec fn run_after(run: SagaRunView, calls: Seq<SagaCall>) -> SagaRunView
    decreases calls.len(),
{
    if calls.len() == 0 {
        run
    } else {
        saga_called(run_after(run, calls.drop_last()), calls.last())
    }
}

/// The context after calls.
pub open spec fn context_after(ctx: SagaContext, calls: Seq<SagaCall>) -> SagaContext {
    if calls.len() == 0 {
        ctx
    } else {
        calls.last().after
    }
}

/// Whether a call is of the work that a run asks for, and ended as that work may.
pub open spec fn call_fits(
    steps: Seq<SagaStep>,
    run: SagaRunView,
    ctx: SagaContext,
    call: SagaCall,
) -> bool {
    match saga_action(run) {
        SagaAction::Attempt { step, .. } => step < steps.len() && steps[step as int].action.may(
            ctx,
            call.after,
            call.outcome,
        ),
        SagaAction::Compensate { step } => step < steps.len()
            && steps[step as int].compensation.may(ctx, call.after, call.outcome),
        SagaAction::Finished => false,
    }
}

/// Whether calls are those that a run asks for, one after the other.
pub open spec fn faithful(
    steps: Seq<SagaStep>,
    run: SagaRunView,
    ctx: SagaContext,
    calls: Seq<SagaCall>,
) -> bool {
    forall|i: int|
        #![trigger calls[i]]
        0 <= i < calls.len() ==> call_fits(
            steps,
            run_after(run, calls.take(i)),
            context_after(ctx, calls.take(i)),
            calls[i],
        )
}

/// Whether it was waited before an action, where it is a further attempt of a step.
pub open spec fn rested<B: Backoff + ?Sized>(backoff: &B, millis: u64, action: SagaAction) -> bool {
    match action {
        SagaAction::Attempt { step, attempt } => attempt > 0 ==> paused(
            backoff,
            step,
            attempt,
            millis,
        ),
        _ => true,
    }
}

/// What a call was asked for by: the action of the run after the calls before it.
#[verifier::opaque]
pub open spec fn asked(run: SagaRunView, calls: Seq<SagaCall>, i: int) -> SagaAction {
    saga_action(run_after(run, calls.take(i)))
}

/// Whether it was waited before every attempt of calls that is not the first of its step.
pub open spec fn all_paused<B: Backoff + ?Sized>(
    backoff: &B,
    millis: u64,
    run: SagaRunView,
    calls: Seq<SagaCall>,
) -> bool {
    forall|i: int| 0 <= i < calls.len() ==> rested(backoff, millis, #[trigger] asked(run, calls, i))
}

proof fn lemma_one_more_pause<B: Backoff + ?Sized>(
    backoff: &B,
    millis: u64,
    run: SagaRunView,
    calls: Seq<SagaCall>,
    call: SagaCall,
)
    requires
        all_paused(backoff, millis, run, calls),
        rested(backoff, millis, saga_action(run_after(run, calls))),
    ensures
        all_paused(backoff, millis, run, calls.push(call)),
{
    let more = calls.push(call);
    assert forall|i: int| 0 <= i < more.len() implies rested(
        backoff,
        millis,
        #[trigger] asked(run, more, i),
    ) by {
        reveal(asked);
        assert(more.take(i) =~= calls.take(i));
        if i == calls.len() {
            assert(calls.take(i) =~= calls);
        } else {
            assert(asked(run, calls, i) == asked(run, more, i));
        }
    }
}

proof fn lemma_one_more(
    steps: Seq<SagaStep>,
    run: SagaRunView,
    ctx: SagaContext,
    calls: Seq<SagaCall>,
    call: SagaCall,
)
    requires
        faithful(steps, run, ctx, calls),
        call_fits(steps, run_after(run, calls), context_after(ctx, calls), call),
    ensures
        faithful(steps, run, ctx, calls.push(call)),
        run_after(run, calls.push(call)) == saga_called(run_after(run, calls), call),
        context_after(ctx, calls.push(call)) == call.after,
{
    let more = calls.push(call);
    assert(more.drop_last() =~= calls);
    assert forall|i: int| #![trigger more[i]] 0 <= i < more.len() implies call_fits(
        steps,
        run_after(run, more.take(i)),
        context_after(ctx, more.take(i)),
        more[i],
    ) by {
        assert(more.take(i) =~= calls.take(i));
        if i == calls.len() {
            assert(calls.take(i) =~= calls);
        } else {
            assert(more[i] == calls[i]);
        }
    }
}

// ---- the service ----

struct SagaDefinition {
    steps: Vec<SagaStep>,
    state: SagaState,
}

/// A saga as the service knows it: the names of its steps and its state.
pub struct SagaView {
    pub steps: Seq<Seq<char>>,
    pub state: SagaState,
}

closed spec fn saga_view(d: SagaDefinition) -> SagaView {
    SagaView { steps: Seq::new(d.steps@.len(), |i: int| d.steps@[i].name@), state: d.state }
}

/// The sagas with one of them in another state.
pub open spec fn with_state(
    sagas: Map<Seq<char>, SagaView>,
    id: Seq<char>,
    state: SagaState,
) -> Map<Seq<char>, SagaView> {
    if sagas.dom().contains(id) {
        sagas.insert(id, SagaView { state, ..sagas[id] })
    } else {
        sagas
    }
}

/// Sagas, their steps and their states.
pub struct SagaService {
    config: SagaConfig,
    sagas: NameMap<SagaDefinition>,
}

impl SagaService {
    /// The sagas by id.
    pub closed spec fn sagas(&self) -> Map<Seq<char>, SagaView> {
        self.sagas@.map_values(|d: SagaDefinition| saga_view(d))
    }

    /// The steps of the sagas by id.
    pub closed spec fn works(&self) -> Map<Seq<char>, Seq<SagaStep>> {
        self.sagas@.map_values(|d: SagaDefinition| d.steps@)
    }

    /// How steps are retried.
    pub closed spec fn settings(&self) -> SagaConfig {
        self.config
    }

    /// A service without sagas.
    pub fn new(config: SagaConfig) -> (r: Self)
        ensures
            r.settings() == config,
            r.sagas() == Map::<Seq<char>, SagaView>::empty(),
            r.works() == Map::<Seq<char>, Seq<SagaStep>>::empty(),
    {
        let r = SagaService { config, sagas: NameMap::new() };
        assert(r.sagas() =~= Map::<Seq<char>, SagaView>::empty());
        assert(r.works() =~= Map::<Seq<char>, Seq<SagaStep>>::empty());
        r
    }

    /// Adds a step to a saga, which comes into being with its first step.
    pub fn add_step(&mut self, saga_id: &str, step: SagaStep)
        ensures
            final(self).settings() == old(self).settings(),
            final(self).sagas() == old(self).sagas().insert(
                saga_id@,
                if old(self).sagas().dom().contains(saga_id@) {
                    SagaView {
                        steps: old(self).sagas()[saga_id@].steps.push(step.name@),
                        ..old(self).sagas()[saga_id@]
                    }
                } else {
                    SagaView { steps: seq![step.name@], state: SagaState::Pending }
                },
            ),
            final(self).works() == old(self).works().insert(
                saga_id@,
                if old(self).sagas().dom().contains(saga_id@) {
                    old(self).works()[saga_id@].push(step)
                } else {
                    seq![step]
                },
            ),
    {
        let mut def = match self.sagas.remove(saga_id) {
            Some(d) => d,
            None => SagaDefinition { steps: Vec::new(), state: SagaState::Pending },
        };
        let ghost before = saga_view(def);
        let ghost name = step.name@;
        def.steps.push(step);
        assert(saga_view(def).steps =~= before.steps.push(name));
        assert(before.steps.len() == 0 ==> saga_view(def).steps =~= seq![name]);
        let ghost now = saga_view(def);
        let ghost work = def.steps@;
        assert(before.steps.len() == 0 ==> work =~= seq![step]);
        let _ = self.sagas.insert(saga_id.to_owned(), def);
        assert(self.sagas() =~= old(self).sagas().insert(saga_id@, now));
        assert(self.works() =~= old(self).works().insert(saga_id@, work));
    }

    /// Puts a saga into a state.
    pub fn set_state(&mut self, saga_id: &str, state: SagaState)
        ensures
            final(self).settings() == old(self).settings(),
            final(self).sagas() == with_state(old(self).sagas(), saga_id@, state),
            final(self).works() == old(self).works(),
    {
        match self.sagas.remove(saga_id) {
            Some(d) => {
                let def = SagaDefinition { steps: d.steps, state };
                let ghost now = saga_view(def);
                let _ = self.sagas.insert(saga_id.to_owned(), def);
                assert(self.sagas() =~= old(self).sagas().insert(saga_id@, now));
                assert(self.works() =~= old(self).works());
            },
            None => {
                assert(self.sagas() =~= old(self).sagas());
                assert(self.works() =~= old(self).works());
            },
        }
    }

    /// State of a saga.
    pub fn get_state(&self, saga_id: &str) -> (r: Result<SagaState, SagaError>)
        ensures
            match r {
                Ok(state) => self.sagas().dom().contains(saga_id@) && state
                    == self.sagas()[saga_id@].state,
                Err(SagaError::NotFound(id)) => !self.sagas().dom().contains(saga_id@) && id@
                    == saga_id@,
            },
    {
        match self.sagas.get(saga_id) {
            Some(d) => Ok(d.state),
            None => Err(SagaError::NotFound(saga_id.to_owned())),
        }
    }

    /// How many steps a saga has.
    pub fn step_count(&self, saga_id: &str) -> (r: Option<usize>)
        ensures
            r is Some <==> self.sagas().dom().contains(saga_id@),
            r matches Some(n) ==> n == self.sagas()[saga_id@].steps.len(),
            r matches Some(n) ==> n == self.works()[saga_id@].len(),
    {
        match self.sagas.get(saga_id) {
            Some(d) => Some(d.steps.len()),
            None => None,
        }
    }

    /// Runs the action of a step, or its compensation.
    fn run_step(&self, saga_id: &str, step: usize, forward: bool, ctx: &mut SagaContext) -> (r: Result<
        (),
        String,
    >)
        requires
            self.sagas().dom().contains(saga_id@),
            step < self.works()[saga_id@].len(),
        ensures
            forward ==> self.works()[saga_id@][step as int].action.may(*old(ctx), *final(ctx), r),
            !forward ==> self.works()[saga_id@][step as int].compensation.may(
                *old(ctx),
                *final(ctx),
                r,
            ),
    {
        match self.sagas.get(saga_id) {
            Some(d) => if forward {
                d.steps[step].action.run(ctx)
            } else {
                d.steps[step].compensation.run(ctx)
            },
            None => Err("saga not found".to_owned()),
        }
    }

    /// Name of a step.
    fn step_name(&self, saga_id: &str, step: usize) -> (r: String)
        requires
            self.sagas().dom().contains(saga_id@),
            step < self.works()[saga_id@].len(),
        ensures
            r@ == self.works()[saga_id@][step as int].name@,
    {
        match self.sagas.get(saga_id) {
            Some(d) => d.steps[step].name.clone(),
            None => String::new(),
        }
    }

    /// Runs a saga: its steps in order, each with its attempts and a pause before each further
    /// one; where a step fails for good, those before it are undone, the last one first.
    pub fn execute(
        &mut self,
        saga_id: &str,
        ctx: &mut SagaContext,
        backoff: &dyn Backoff,
    ) -> (r: Result<StepResult, SagaError>)
        ensures
            final(self).settings() == old(self).settings(),
            final(self).works() == old(self).works(),
            match r {
                Err(SagaError::NotFound(id)) => {
                    &&& !old(self).sagas().dom().contains(saga_id@)
                    &&& id@ == saga_id@
                    &&& final(self).sagas() == old(self).sagas()
                    &&& *final(ctx) == *old(ctx)
                },
                Ok(result) => {
                    &&& old(self).sagas().dom().contains(saga_id@)
                    &&& exists|calls: Seq<SagaCall>|
                        #[trigger] carried_out(
                            old(self).works()[saga_id@],
                            old(self).settings(),
                            *old(ctx),
                            calls,
                            *final(ctx),
                            result,
                        ) && all_paused(
                            backoff,
                            old(self).settings().retry_backoff_ms,
                            saga_begin(
                                old(self).works()[saga_id@].len() as usize,
                                old(self).settings().retry_max_attempts,
                            ),
                            calls,
                        ) && old(self).works()[saga_id@].len() <= usize::MAX
                    &&& final(self).sagas() == with_state(
                        old(self).sagas(),
                        saga_id@,
                        match result {
                            StepResult::Completed => SagaState::Completed,
                            _ => SagaState::Failed,
                        },
                    )
                    &&& result is Completed ==> final(self).sagas()[saga_id@].state is Completed
                    &&& !(result is Completed) ==> final(self).sagas()[saga_id@].state is Failed
                    &&& final(self).sagas()[saga_id@].steps == old(self).sagas()[saga_id@].steps
                    &&& forall|other: Seq<char>|
                        other != saga_id@ ==> (#[trigger] final(self).sagas().dom().contains(other)
                            <==> old(self).sagas().dom().contains(other)) && (old(
                            self,
                        ).sagas().dom().contains(other) ==> final(self).sagas()[other] == old(
                            self,
                        ).sagas()[other])
                },
            },
    {
        let total: usize = match self.step_count(saga_id) {
            Some(n) => n,
            None => {
                return Err(SagaError::NotFound(saga_id.to_owned()));
            },
        };
        let ghost start = self.sagas();
        let ghost steps = self.works()[saga_id@];
        let ghost mut current: SagaState = start[saga_id@].state;
        let pause_ms: u64 = self.config.retry_backoff_ms;
        let mut run = SagaRun::new(total, self.config.retry_max_attempts);
        let ghost begun = run@;
        let ghost mut calls: Seq<SagaCall> = Seq::empty();
        assert(self.sagas() =~= with_state(start, saga_id@, current));
        loop
            invariant
                self.settings() == old(self).settings(),
                self.works() == old(self).works(),
                start == old(self).sagas(),
                start.dom().contains(saga_id@),
                steps == old(self).works()[saga_id@],
                total == steps.len(),
                begun == saga_begin(total, old(self).settings().retry_max_attempts),
                self.sagas() == with_state(start, saga_id@, current),
                run@ == run_after(begun, calls),
                run@.total == total,
                *ctx == context_after(*old(ctx), calls),
                faithful(steps, begun, *old(ctx), calls),
                pause_ms == old(self).settings().retry_backoff_ms,
                all_paused(backoff, pause_ms, begun, calls),
            decreases phase_rank(run@.phase), steps_to_go(run@), attempts_to_go(run@),
        {
            proof {
                use_type_invariant(&run);
            }
            let state = run.state();
            self.set_state(saga_id, state);
            proof {
                current = state;
                assert(self.sagas() =~= with_state(start, saga_id@, current));
            }
            match run.action() {
                SagaAction::Attempt { step, attempt } => {
                    if attempt > 0 {
                        wait(backoff, step, attempt, pause_ms);
                    }
                    let outcome = self.run_step(saga_id, step, true, ctx);
                    proof {
                        let call = SagaCall { after: *ctx, outcome };
                        lemma_one_more(steps, begun, *old(ctx), calls, call);
                        lemma_one_more_pause(backoff, pause_ms, begun, calls, call);
                        calls = calls.push(call);
                    }
                    run = run.on_attempt(outcome);
                },
                SagaAction::Compensate { step } => {
                    let outcome = self.run_step(saga_id, step, false, ctx);
                    proof {
                        let call = SagaCall { after: *ctx, outcome };
                        lemma_one_more(steps, begun, *old(ctx), calls, call);
                        lemma_one_more_pause(backoff, pause_ms, begun, calls, call);
                        calls = calls.push(call);
                    }
                    run = run.on_compensated();
                },
                SagaAction::Finished => {
                    let result = match run.failed_step() {
                        None => StepResult::Completed,
                        Some(step) => {
                            let step_name = self.step_name(saga_id, step);
                            StepResult::Failed { step_name, error: run.error() }
                        },
                    };
                    assert(carried_out(
                        steps,
                        old(self).settings(),
                        *old(ctx),
                        calls,
                        *ctx,
                        result,
                    ));
                    return Ok(result);
                },
            }
        }
    }
}

/// Whether calls carry a saga out: they are those that its run asks for, to the end, and the result
/// and the context are what they lead to.
pub open spec fn carried_out(
    steps: Seq<SagaStep>,
    config: SagaConfig,
    before: SagaContext,
    calls: Seq<SagaCall>,
    after: SagaContext,
    result: StepResult,
) -> bool {
    let begun = saga_begin(steps.len() as usize, config.retry_max_attempts);
    &&& faithful(steps, begun, before, calls)
    &&& after == context_after(before, calls)
    &&& ended_with(steps, run_after(begun, calls), result)
}

/// Whether a result is that of a run that is over.
pub open spec fn ended_with(steps: Seq<SagaStep>, end: SagaRunView, result: StepResult) -> bool {
    match (end.phase, result) {
        (SagaPhase::Completed, StepResult::Completed) => true,
        (SagaPhase::Failed { step }, StepResult::Failed { step_name, error }) => step < steps.len()
            && step_name@ == steps[step as int].name@ && error@ == end.error,
        _ => false,
    }
}

// ---- laws of the calls of a saga ----

/// How many calls, from one on, the attempts of a step take up: to the first that succeeds, and
/// no more than there are attempts.
pub open spec fn tries(calls: Seq<SagaCall>, from: int, attempts: int) -> int
    decreases attempts,
{
    if attempts <= 0 || from >= calls.len() {
        0
    } else if calls[from].outcome is Ok {
        1
    } else {
        1 + tries(calls, from + 1, attempts - 1)
    }
}

/// The call with which the attempts of a step begin, where the steps before it are carried out
/// one after the other.
pub open spec fn step_start(calls: Seq<SagaCall>, attempts: int, step: int) -> int
    decreases step,
{
    if step <= 0 {
        0
    } else {
        let before = step_start(calls, attempts, step - 1);
        before + tries(calls, before, attempts)
    }
}

/// Whether the attempts of a step are calls and the last of them succeeded.
pub open spec fn step_succeeded(calls: Seq<SagaCall>, attempts: int, step: int) -> bool {
    let end = step_start(calls, attempts, step + 1);
    &&& step_start(calls, attempts, step) < end <= calls.len()
    &&& calls[end - 1].outcome is Ok
}

/// Whether all attempts of a step are calls and failed.
pub open spec fn step_gave_up(calls: Seq<SagaCall>, attempts: int, step: int) -> bool {
    let start = step_start(calls, attempts, step);
    &&& start + attempts <= calls.len()
    &&& forall|k: int| start <= k < start + attempts ==> (#[trigger] calls[k]).outcome is Err
}

/// Whether a call is an attempt of a step, and the last of them if it succeeded.
pub open spec fn attempt_of(
    begun: SagaRunView,
    calls: Seq<SagaCall>,
    step: int,
    k: int,
) -> bool {
    let m = begun.attempts as int;
    &&& asked(begun, calls, k) == (SagaAction::Attempt {
        step: step as usize,
        attempt: (k - step_start(calls, m, step)) as u32,
    })
    &&& k + 1 < step_start(calls, m, step + 1) ==> calls[k].outcome is Err
}

/// Whether the first steps succeeded, and their calls are their attempts, in order.
pub open spec fn succeeded_in_order(begun: SagaRunView, calls: Seq<SagaCall>, steps: int) -> bool {
    let m = begun.attempts as int;
    &&& forall|i: int| 0 <= i < steps ==> #[trigger] step_succeeded(calls, m, i)
    &&& forall|i: int, k: int|
        0 <= i < steps && step_start(calls, m, i) <= k < step_start(calls, m, i + 1)
            ==> #[trigger] attempt_of(begun, calls, i, k)
}

/// Whether calls from one on are attempts of a step that failed.
pub open spec fn failing(
    begun: SagaRunView,
    calls: Seq<SagaCall>,
    step: usize,
    from: int,
    to: int,
) -> bool {
    &&& forall|k: int| from <= k < to ==> (#[trigger] calls[k]).outcome is Err
    &&& forall|k: int|
        from <= k < to ==> #[trigger] asked(begun, calls, k) == (SagaAction::Attempt {
            step,
            attempt: (k - from) as u32,
        })
}

/// Whether calls from one on undo the steps before one, the last one first.
pub open spec fn undone_in_reverse(
    begun: SagaRunView,
    calls: Seq<SagaCall>,
    step: int,
    from: int,
    to: int,
) -> bool {
    forall|k: int|
        from <= k < to ==> #[trigger] asked(begun, calls, k) == (SagaAction::Compensate {
            step: (step - 1 - (k - from)) as usize,
        })
}

/// Whether a saga gave a step up: the steps before it succeeded, all its attempts failed, and the
/// error is that of the last one.
pub open spec fn gave_up_at(
    begun: SagaRunView,
    calls: Seq<SagaCall>,
    step: int,
    error: Seq<char>,
) -> bool {
    let m = begun.attempts as int;
    let start = step_start(calls, m, step);
    &&& 0 <= step < begun.total
    &&& succeeded_in_order(begun, calls, step)
    &&& step_gave_up(calls, m, step)
    &&& failing(begun, calls, step as usize, start, start + m)
    &&& error == if m > 0 {
        call_error(calls[start + m - 1])->0
    } else {
        Seq::empty()
    }
}

/// Whether a saga failed at a step: it gave the step up, and what follows undoes exactly the steps
/// before it.
pub open spec fn failed_at(
    begun: SagaRunView,
    calls: Seq<SagaCall>,
    step: int,
    error: Seq<char>,
) -> bool {
    let end = step_start(calls, begun.attempts as int, step) + begun.attempts;
    &&& gave_up_at(begun, calls, step, error)
    &&& calls.len() == end + step
    &&& undone_in_reverse(begun, calls, step, end, calls.len() as int)
}

/// Where a run stands after a number of calls, read off the calls themselves.
#[verifier::opaque]
spec fn standing(begun: SagaRunView, run: SagaRunView, calls: Seq<SagaCall>, k: int) -> bool {
    let m = begun.attempts as int;
    match run.phase {
        SagaPhase::Forward { step, attempt } => {
            let start = step_start(calls, m, step as int);
            &&& k == start + attempt
            &&& succeeded_in_order(begun, calls, step as int)
            &&& failing(begun, calls, step, start, k)
        },
        SagaPhase::Backward { failed, left } => {
            let end = step_start(calls, m, failed as int) + m;
            &&& k == end + failed - left
            &&& gave_up_at(begun, calls, failed as int, run.error)
            &&& undone_in_reverse(begun, calls, failed as int, end, k)
        },
        SagaPhase::Completed => {
            &&& k == step_start(calls, m, run.total as int)
            &&& succeeded_in_order(begun, calls, run.total as int)
        },
        SagaPhase::Failed { step } => {
            let end = step_start(calls, m, step as int) + m;
            &&& k == end + step
            &&& gave_up_at(begun, calls, step as int, run.error)
            &&& undone_in_reverse(begun, calls, step as int, end, k)
        },
    }
}

proof fn lemma_tries_to_success(calls: Seq<SagaCall>, from: int, attempts: int, failed: int)
    requires
        0 <= failed < attempts,
        0 <= from,
        from + failed < calls.len(),
        forall|j: int| from <= j < from + failed ==> (#[trigger] calls[j]).outcome is Err,
        calls[from + failed].outcome is Ok,
    ensures
        tries(calls, from, attempts) == failed + 1,
    decreases failed,
{
    if failed > 0 {
        assert(calls[from].outcome is Err);
        lemma_tries_to_success(calls, from + 1, attempts - 1, failed - 1);
    }
}

proof fn lemma_tries_bound(calls: Seq<SagaCall>, from: int, attempts: int)
    ensures
        0 <= tries(calls, from, attempts),
        attempts >= 0 ==> tries(calls, from, attempts) <= attempts,
    decreases attempts,
{
    if attempts > 0 && from < calls.len() {
        lemma_tries_bound(calls, from + 1, attempts - 1);
    }
}

proof fn lemma_step_start(calls: Seq<SagaCall>, attempts: int, step: int)
    ensures
        0 <= step_start(calls, attempts, step),
    decreases step,
{
    if step > 0 {
        lemma_step_start(calls, attempts, step - 1);
        lemma_tries_bound(calls, step_start(calls, attempts, step - 1), attempts);
    }
}

proof fn lemma_standing_success(begun: SagaRunView, run: SagaRunView, calls: Seq<SagaCall>, k: int)
    requires
        1 <= k <= calls.len(),
        run.attempts == begun.attempts,
        run.total == begun.total,
        run.phase is Forward,
        saga_in_range(run),
        standing(begun, run, calls, k - 1),
        asked(begun, calls, k - 1) == saga_action(run),
        calls[k - 1].outcome is Ok,
    ensures
        standing(begun, saga_attempted(run, None), calls, k),
{
    reveal(standing);
    let m = begun.attempts as int;
    let step = run.phase->Forward_step;
    let attempt = run.phase->attempt;
    let start = step_start(calls, m, step as int);
    lemma_step_start(calls, m, step as int);
    lemma_tries_to_success(calls, start, m, attempt as int);
    assert(step_start(calls, m, step + 1) == k);
    assert(step_succeeded(calls, m, step as int));
    assert forall|i: int, j: int|
        0 <= i < step + 1 && step_start(calls, m, i) <= j < step_start(
            calls,
            m,
            i + 1,
        ) implies #[trigger] attempt_of(begun, calls, i, j) by {
        if i == step && j < k - 1 {
            assert(calls[j].outcome is Err);
            assert(asked(begun, calls, j) == (SagaAction::Attempt {
                step,
                attempt: (j - start) as u32,
            }));
        }
    }
    assert(succeeded_in_order(begun, calls, step + 1));
}

proof fn lemma_standing_failure(
    begun: SagaRunView,
    run: SagaRunView,
    calls: Seq<SagaCall>,
    k: int,
)
    requires
        1 <= k <= calls.len(),
        run.attempts == begun.attempts,
        run.total == begun.total,
        run.phase is Forward,
        saga_in_range(run),
        standing(begun, run, calls, k - 1),
        asked(begun, calls, k - 1) == saga_action(run),
        calls[k - 1].outcome is Err,
    ensures
        standing(begun, saga_attempted(run, call_error(calls[k - 1])), calls, k),
{
    reveal(standing);
    let m = begun.attempts as int;
    let step = run.phase->Forward_step;
    let attempt = run.phase->attempt;
    let start = step_start(calls, m, step as int);
    let next = saga_attempted(run, call_error(calls[k - 1]));
    assert(failing(begun, calls, step, start, k));
    if attempt + 1 >= m {
        assert(k == start + m);
        assert(step_gave_up(calls, m, step as int));
        assert(gave_up_at(begun, calls, step as int, next.error));
    }
}

proof fn lemma_standing_undone(begun: SagaRunView, run: SagaRunView, calls: Seq<SagaCall>, k: int)
    requires
        1 <= k <= calls.len(),
        run.phase is Backward,
        saga_in_range(run),
        standing(begun, run, calls, k - 1),
        asked(begun, calls, k - 1) == saga_action(run),
    ensures
        standing(begun, saga_compensated(run), calls, k),
{
    reveal(standing);
}

/// What one more call leads to.
proof fn lemma_standing_step(begun: SagaRunView, run: SagaRunView, calls: Seq<SagaCall>, k: int)
    requires
        1 <= k <= calls.len(),
        run.attempts == begun.attempts,
        run.total == begun.total,
        run.phase is Forward || run.phase is Backward,
        saga_in_range(run),
        standing(begun, run, calls, k - 1),
        asked(begun, calls, k - 1) == saga_action(run),
    ensures
        standing(begun, saga_called(run, calls[k - 1]), calls, k),
        saga_in_range(saga_called(run, calls[k - 1])),
        saga_called(run, calls[k - 1]).total == begun.total,
        saga_called(run, calls[k - 1]).attempts == begun.attempts,
{
    if run.phase is Forward {
        if calls[k - 1].outcome is Ok {
            lemma_standing_success(begun, run, calls, k);
        } else {
            lemma_standing_failure(begun, run, calls, k);
        }
    } else {
        lemma_standing_undone(begun, run, calls, k);
    }
}

proof fn lemma_standing(
    steps: Seq<SagaStep>,
    begun: SagaRunView,
    ctx: SagaContext,
    calls: Seq<SagaCall>,
    k: int,
)
    requires
        begun == saga_begin(begun.total, begun.attempts),
        faithful(steps, begun, ctx, calls),
        0 <= k <= calls.len(),
    ensures
        ({
            let run = run_after(begun, calls.take(k));
            &&& standing(begun, run, calls, k)
            &&& saga_in_range(run)
            &&& run.total == begun.total
            &&& run.attempts == begun.attempts
        }),
    decreases k,
{
    if k == 0 {
        assert(run_after(begun, calls.take(0)) == begun);
        assert(standing(begun, begun, calls, 0)) by {
            reveal(standing);
        }
    } else {
        lemma_standing(steps, begun, ctx, calls, k - 1);
        let run = run_after(begun, calls.take(k - 1));
        let call = calls[k - 1];
        assert(call_fits(steps, run, context_after(ctx, calls.take(k - 1)), call));
        assert(asked(begun, calls, k - 1) == saga_action(run)) by {
            reveal(asked);
        }
        assert(calls.take(k).drop_last() =~= calls.take(k - 1));
        assert(calls.take(k).last() == call);
        lemma_standing_step(begun, run, calls, k);
    }
}

/// A saga that is carried out runs the actions of its steps in order, each until its first success
/// and at most as often as there are attempts. It completes exactly where every step succeeds,
/// and then nothing is undone. Otherwise the first step whose attempts all fail is the one that is
/// reported, with the error of its last attempt; no later action is run, and exactly the steps
/// before it are undone, once each and the last one first, whatever comes of undoing one of them.
pub proof fn law_sagas_complete_or_are_undone(
    steps: Seq<SagaStep>,
    config: SagaConfig,
    before: SagaContext,
    calls: Seq<SagaCall>,
    after: SagaContext,
    result: StepResult,
)
    requires
        carried_out(steps, config, before, calls, after, result),
        steps.len() <= usize::MAX,
    ensures
        ({
            let m = config.retry_max_attempts as int;
            let begun = saga_begin(steps.len() as usize, config.retry_max_attempts);
            &&& result is Completed <==> forall|i: int|
                0 <= i < steps.len() ==> #[trigger] step_succeeded(calls, m, i)
            &&& result is Completed ==> calls.len() == step_start(calls, m, steps.len() as int)
                && succeeded_in_order(begun, calls, steps.len() as int)
            &&& result matches StepResult::Failed { step_name, error } ==> exists|f: int|
                #[trigger] failed_at(begun, calls, f, error@) && step_name@ == steps[f].name@
            &&& !(result is Compensated)
        }),
{
    let m = config.retry_max_attempts as int;
    let begun = saga_begin(steps.len() as usize, config.retry_max_attempts);
    lemma_standing(steps, begun, before, calls, calls.len() as int);
    assert(calls.take(calls.len() as int) =~= calls);
    let end = run_after(begun, calls);
    reveal(standing);
    if let SagaPhase::Failed { step } = end.phase {
        let f = step as int;
        assert(failed_at(begun, calls, f, end.error));
        assert(!step_succeeded(calls, m, f)) by {
            let start = step_start(calls, m, f);
            lemma_tries_bound(calls, start, m);
            if step_succeeded(calls, m, f) {
                let last = step_start(calls, m, f + 1) - 1;
                assert(calls[last].outcome is Err);
            }
        }
    }
}

/// The calls of a saga are calls of its own steps, in the context that the call before left: an
/// attempt of a step runs its action, and undoing a step runs its compensation. The saga ends in
/// the context that the last call left.
pub proof fn law_calls_run_the_work_of_their_step(
    steps: Seq<SagaStep>,
    config: SagaConfig,
    before: SagaContext,
    calls: Seq<SagaCall>,
    after: SagaContext,
    result: StepResult,
    i: int,
)
    requires
        carried_out(steps, config, before, calls, after, result),
        steps.len() <= usize::MAX,
        0 <= i < calls.len(),
    ensures
        ({
            let begun = saga_begin(steps.len() as usize, config.retry_max_attempts);
            let found = if i == 0 {
                before
            } else {
                calls[i - 1].after
            };
            match asked(begun, calls, i) {
                SagaAction::Attempt { step, .. } => step < steps.len()
                    && steps[step as int].action.may(found, calls[i].after, calls[i].outcome),
                SagaAction::Compensate { step } => step < steps.len()
                    && steps[step as int].compensation.may(found, calls[i].after, calls[i].outcome),
                SagaAction::Finished => false,
            }
        }),
        after == calls[calls.len() - 1].after,
{
    let begun = saga_begin(steps.len() as usize, config.retry_max_attempts);
    reveal(asked);
    assert(call_fits(
        steps,
        run_after(begun, calls.take(i)),
        context_after(before, calls.take(i)),
        calls[i],
    ));
    if i > 0 {
        assert(calls.take(i).last() == calls[i - 1]);
    }
}

/// It was waited before every attempt of a step but its first, for as long as is configured.
pub proof fn law_further_attempts_are_waited_for<B: Backoff + ?Sized>(
    backoff: &B,
    millis: u64,
    run: SagaRunView,
    calls: Seq<SagaCall>,
    i: int,
)
    requires
        all_paused(backoff, millis, run, calls),
        0 <= i < calls.len(),
    ensures
        asked(run, calls, i) matches SagaAction::Attempt { step, attempt } ==> (attempt > 0
            ==> call_ensures(B::pause, (backoff, step, attempt, millis), ())),
{
    assert(rested(backoff, millis, asked(run, calls, i)));
}

/// While steps are attempted a saga is running, while they are undone it is compensating, and at
/// the end it has completed or failed.
pub proof fn law_a_saga_is_in_the_state_of_its_run(run: SagaRun, r: SagaState)
    requires
        call_ensures(SagaRun::state, (&run,), r),
    ensures
        r is Running <==> run@.phase is Forward,
        r is Compensating <==> run@.phase is Backward,
        r is Completed <==> run@.phase is Completed,
        r is Failed <==> run@.phase is Failed,
{
}

/// Putting a saga into a state changes the state of that saga alone; its steps and all other sagas
/// stay.
pub proof fn law_states_are_set_one_at_a_time(
    service: &mut SagaService,
    saga_id: &str,
    state: SagaState,
    other: Seq<char>,
)
    requires
        call_ensures(SagaService::set_state, (service, saga_id, state), ()),
    ensures
        final(service).sagas().dom() == old(service).sagas().dom(),
        old(service).sagas().dom().contains(saga_id@) ==> final(service).sagas()[saga_id@].state == state
            && final(service).sagas()[saga_id@].steps == old(service).sagas()[saga_id@].steps,
        other != saga_id@ && old(service).sagas().dom().contains(other)
            ==> final(service).sagas()[other] == old(service).sagas()[other],
        final(service).works() == old(service).works(),
{
    assert(final(service).sagas().dom() =~= old(service).sagas().dom());
}

/// A step that is added is the last of its saga, after those that were there; a saga comes into
/// being with its first step, pending, and no other saga changes.
pub proof fn law_steps_are_added_in_order(
    service: &mut SagaService,
    saga_id: &str,
    step: SagaStep,
    other: Seq<char>,
)
    requires
        call_ensures(SagaService::add_step, (service, saga_id, step), ()),
    ensures
        ({
            let known = old(service).sagas().dom().contains(saga_id@);
            let steps = final(service).works()[saga_id@];
            &&& final(service).sagas().dom().contains(saga_id@)
            &&& steps.len() > 0 && steps.last() == step
            &&& known ==> steps.drop_last() == old(service).works()[saga_id@]
                && final(service).sagas()[saga_id@].state == old(service).sagas()[saga_id@].state
            &&& !known ==> steps.len() == 1 && final(service).sagas()[saga_id@].state is Pending
            &&& other != saga_id@ ==> (final(service).sagas().dom().contains(other)
                == old(service).sagas().dom().contains(other))
            &&& other != saga_id@ && old(service).sagas().dom().contains(other)
                ==> final(service).sagas()[other] == old(service).sagas()[other]
        }),
{
    if old(service).sagas().dom().contains(saga_id@) {
        assert(final(service).works()[saga_id@].drop_last() =~= old(service).works()[saga_id@]);
    }
}

/// Forward, then backward, then over.
spec fn phase_rank(phase: SagaPhase) -> int {
    match phase {
        SagaPhase::Forward { .. } => 2,
        SagaPhase::Backward { .. } => 1,
        _ => 0,
    }
}

/// Steps that a phase still goes through.
spec fn steps_to_go(run: SagaRunView) -> int {
    match run.phase {
        SagaPhase::Forward { step, .. } => run.total - step,
        SagaPhase::Backward { left, .. } => left as int,
        _ => 0,
    }
}

/// Attempts that the step at hand still has.
spec fn attempts_to_go(run: SagaRunView) -> int {
    match run.phase {
        SagaPhase::Forward { attempt, .. } => run.attempts - attempt,
        _ => 0,
    }
}

} // verus!
