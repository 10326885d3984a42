//! How sagas run: step by step, again after a failure, and back where a step fails for good.
use crate::saga;
use crate::saga::{
    SagaAction, SagaConfig, SagaContext, SagaError, SagaRun, SagaService, SagaState, SagaStep,
};
use vstd::prelude::*;

verus! {

/// A run begins with the first attempt of its first step; one without steps is complete, and one
/// without attempts fails at once.
pub proof fn law_runs_begin_with_their_first_step(
    total: usize,
    attempts: u32,
    run: SagaRun,
    action: SagaAction,
    failed: Option<usize>,
    state: SagaState,
)
    requires
        call_ensures(SagaRun::new, (total, attempts), run),
        call_ensures(SagaRun::action, (&run,), action),
        call_ensures(SagaRun::failed_step, (&run,), failed),
        call_ensures(SagaRun::state, (&run,), state),
    ensures
        total > 0 && attempts > 0 ==> action == (SagaAction::Attempt { step: 0, attempt: 0 }) && state is Running,
        total == 0 ==> action is Finished && state is Completed && failed is None,
        total > 0 && attempts == 0 ==> action is Finished && state is Failed && failed == Some(0usize),
{
}

/// A step that succeeds is followed by the next one, or completes the saga. A step that fails is
/// attempted again as long as there are attempts; after that, the step before it is undone first, and
/// where there is none the saga has failed. The saga keeps the error of the last attempt.
pub proof fn law_steps_are_attempted_one_after_the_other(
    run: SagaRun,
    step: usize,
    attempt: u32,
    outcome: Result<(), String>,
    next: SagaRun,
    action: SagaAction,
    state: SagaState,
    failed: Option<usize>,
    error: String,
)
    requires
        call_ensures(SagaRun::action, (&run,), SagaAction::Attempt { step, attempt }),
        call_ensures(SagaRun::on_attempt, (run, outcome), next),
        call_ensures(SagaRun::action, (&next,), action),
        call_ensures(SagaRun::state, (&next,), state),
        call_ensures(SagaRun::failed_step, (&next,), failed),
        call_ensures(SagaRun::error, (&next,), error),
    ensures
        outcome is Ok && step + 1 < run@.total ==> action == (SagaAction::Attempt {
            step: (step + 1) as usize,
            attempt: 0,
        }),
        outcome is Ok && step + 1 >= run@.total ==> action is Finished && state is Completed,
        outcome is Err && attempt + 1 < run@.attempts ==> action == (SagaAction::Attempt {
            step,
            attempt: (attempt + 1) as u32,
        }),
        outcome matches Err(e) && attempt + 1 >= run@.attempts ==> {
            &&& error@ == (outcome->Err_0)@
            &&& step > 0 ==> action == (SagaAction::Compensate { step: (step - 1) as usize })
                && state is Compensating
            &&& step == 0 ==> action is Finished && state is Failed && failed == Some(step)
        },
        next@.total == run@.total && next@.attempts == run@.attempts,
{
}

/// After a step was undone the step before it is, down to the first; then the saga has failed, at the
/// step that failed, with its error.
pub proof fn law_steps_are_undone_one_after_the_other(
    run: SagaRun,
    step: usize,
    next: SagaRun,
    action: SagaAction,
    state: SagaState,
    failed: Option<usize>,
    was: String,
    error: String,
)
    requires
        call_ensures(SagaRun::action, (&run,), SagaAction::Compensate { step }),
        call_ensures(SagaRun::on_compensated, (run,), next),
        call_ensures(SagaRun::action, (&next,), action),
        call_ensures(SagaRun::state, (&next,), state),
        call_ensures(SagaRun::failed_step, (&next,), failed),
        call_ensures(SagaRun::error, (&run,), was),
        call_ensures(SagaRun::error, (&next,), error),
        saga::saga_in_range(run@),
    ensures
        step > 0 ==> action == (SagaAction::Compensate { step: (step - 1) as usize }),
        step == 0 ==> action is Finished && state is Failed && failed is Some,
        error@ == was@,
        next@.total == run@.total,
{
}

/// What a step sets, later steps read; other values and the saga's name stay.
pub proof fn law_steps_share_what_they_set(
    ctx: &mut SagaContext,
    key: &str,
    value: &str,
    before: SagaContext,
    after: SagaContext,
    got: Option<&String>,
    other: &str,
    was: Option<&String>,
    now: Option<&String>,
    name: (&str, &str),
)
    requires
        call_ensures(SagaContext::set, (ctx, key, value), ()),
        before == *old(ctx),
        after == *final(ctx),
        call_ensures(SagaContext::get, (&after, key), got),
        call_ensures(SagaContext::get, (&before, other), was),
        call_ensures(SagaContext::get, (&after, other), now),
        call_ensures(SagaContext::saga_id, (&before,), name.0),
        call_ensures(SagaContext::saga_id, (&after,), name.1),
    ensures
        got matches Some(v) && v@ == value@,
        other@ != key@ ==> (was is Some <==> now is Some) && (was is Some ==> was->0@ == now->0@),
        name.0@ == name.1@,
{
}

/// A context begins without values and with its saga's name, steps are attempted three times with a
/// second between, and a missing saga is named.
pub proof fn law_sagas_begin_with_nothing(
    id: &str,
    ctx: SagaContext,
    name: &str,
    key: &str,
    got: Option<&String>,
    config: SagaConfig,
    e: SagaError,
    line: String,
)
    requires
        call_ensures(SagaContext::new, (id,), ctx),
        call_ensures(SagaContext::saga_id, (&ctx,), name),
        call_ensures(SagaContext::get, (&ctx, key), got),
        call_ensures(SagaConfig::default, (), config),
        call_ensures(SagaError::to_text, (&e,), line),
    ensures
        name@ == id@,
        got is None,
        config.retry_max_attempts == 3 && config.retry_backoff_ms == 1_000,
        e matches SagaError::NotFound(missing) && line@ == "saga not found: "@ + missing@,
{
}

/// The state that a saga is put into is the one that is read of it, and the steps that are counted are
/// those that were added; a service begins without sagas.
pub proof fn law_states_and_steps_are_read_back(
    service: &mut SagaService,
    id: &str,
    state: SagaState,
    before: SagaService,
    known: Result<SagaState, SagaError>,
    after: SagaService,
    now: Result<SagaState, SagaError>,
    count: (Option<usize>, Option<usize>),
    adding: &mut SagaService,
    step: SagaStep,
    grown: SagaService,
    more: Option<usize>,
    config: SagaConfig,
    fresh: SagaService,
    none: Option<usize>,
)
    requires
        before == *old(service),
        call_ensures(SagaService::get_state, (&before, id), known),
        call_ensures(SagaService::step_count, (&before, id), count.0),
        call_ensures(SagaService::set_state, (service, id, state), ()),
        after == *final(service),
        call_ensures(SagaService::get_state, (&after, id), now),
        call_ensures(SagaService::step_count, (&after, id), count.1),
        *old(adding) == before,
        call_ensures(SagaService::add_step, (adding, id, step), ()),
        grown == *final(adding),
        call_ensures(SagaService::step_count, (&grown, id), more),
        call_ensures(SagaService::new, (config,), fresh),
        call_ensures(SagaService::step_count, (&fresh, id), none),
    ensures
        known is Ok ==> now == Ok::<SagaState, SagaError>(state),
        known matches Err(SagaError::NotFound(missing)) ==> missing@ == id@ && now is Err,
        count.0 == count.1,
        count.0 matches Some(n) ==> n < usize::MAX ==> more == Some((n + 1) as usize),
        count.0 is None ==> more == Some(1usize),
        none is None,
{
}

} // verus!
