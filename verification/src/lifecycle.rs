use vstd::prelude::*;

verus! {

/// Where the selected reader and its card stand.
#[derive(Clone, Copy, Debug, PartialEq, Eq, Structural)]
pub enum LifecycleState {
    NoReader,
    Empty,
    Reading,
    Delivered,
    Failed,
}

/// What the reader monitor or the read attempt reports.
#[derive(Clone, Copy, Debug, PartialEq, Eq, Structural)]
pub enum LifecycleEvent {
    ReaderAttached,
    ReaderDetached,
    CardInserted,
    CardRemoved,
    ReadSucceeded,
    ReadFailed,
}

/// What the caller must do after an event.
#[derive(Clone, Copy, Debug, PartialEq, Eq, Structural)]
pub enum LifecycleAction {
    Nothing,
    StartRead,
}

/// The transition table of the card lifecycle.
pub open spec fn next(
    state: LifecycleState,
    event: LifecycleEvent,
) -> (LifecycleState, LifecycleAction) {
    match event {
        LifecycleEvent::ReaderDetached => (LifecycleState::NoReader, LifecycleAction::Nothing),
        LifecycleEvent::ReaderAttached => if state == LifecycleState::NoReader {
            (LifecycleState::Empty, LifecycleAction::Nothing)
        } else {
            (state, LifecycleAction::Nothing)
        },
        LifecycleEvent::CardInserted => if state == LifecycleState::Empty {
            (LifecycleState::Reading, LifecycleAction::StartRead)
        } else {
            (state, LifecycleAction::Nothing)
        },
        LifecycleEvent::ReadSucceeded => if state == LifecycleState::Reading {
            (LifecycleState::Delivered, LifecycleAction::Nothing)
        } else {
            (state, LifecycleAction::Nothing)
        },
        LifecycleEvent::ReadFailed => if state == LifecycleState::Reading {
            (LifecycleState::Failed, LifecycleAction::Nothing)
        } else {
            (state, LifecycleAction::Nothing)
        },
        LifecycleEvent::CardRemoved => match state {
            LifecycleState::Delivered | LifecycleState::Failed | LifecycleState::Reading => (
                LifecycleState::Empty,
                LifecycleAction::Nothing,
            ),
            _ => (state, LifecycleAction::Nothing),
        },
    }
}

/// The state after a whole sequence of events.
pub open spec fn run_events(state: LifecycleState, events: Seq<LifecycleEvent>) -> LifecycleState
    decreases events.len(),
{
    if events.len() == 0 {
        state
    } else {
        run_events(next(state, events[0]).0, events.drop_first())
    }
}

/// The actions produced by a whole sequence of events, in order.
pub open spec fn run_actions(state: LifecycleState, events: Seq<LifecycleEvent>) -> Seq<
    LifecycleAction,
>
    decreases events.len(),
{
    if events.len() == 0 {
        Seq::empty()
    } else {
        seq![next(state, events[0]).1] + run_actions(next(state, events[0]).0, events.drop_first())
    }
}

/// A state in which a read has started for the card that is in the reader.
pub open spec fn card_in_cycle(state: LifecycleState) -> bool {
    state == LifecycleState::Reading || state == LifecycleState::Delivered || state
        == LifecycleState::Failed
}

/// The events that end the presence of the card that was read.
pub open spec fn ends_card(event: LifecycleEvent) -> bool {
    event == LifecycleEvent::CardRemoved || event == LifecycleEvent::ReaderDetached
}

fn transition(state: LifecycleState, event: LifecycleEvent) -> (r: (LifecycleState, LifecycleAction))
    ensures
        r == next(state, event),
{
    match (state, event) {
        (_, LifecycleEvent::ReaderDetached) => (LifecycleState::NoReader, LifecycleAction::Nothing),
        (LifecycleState::NoReader, LifecycleEvent::ReaderAttached) => (
            LifecycleState::Empty,
            LifecycleAction::Nothing,
        ),
        (LifecycleState::Empty, LifecycleEvent::CardInserted) => (
            LifecycleState::Reading,
            LifecycleAction::StartRead,
        ),
        (LifecycleState::Reading, LifecycleEvent::ReadSucceeded) => (
            LifecycleState::Delivered,
            LifecycleAction::Nothing,
        ),
        (LifecycleState::Reading, LifecycleEvent::ReadFailed) => (
            LifecycleState::Failed,
            LifecycleAction::Nothing,
        ),
        (LifecycleState::Delivered, LifecycleEvent::CardRemoved) => (
            LifecycleState::Empty,
            LifecycleAction::Nothing,
        ),
        (LifecycleState::Failed, LifecycleEvent::CardRemoved) => (
            LifecycleState::Empty,
            LifecycleAction::Nothing,
        ),
        (LifecycleState::Reading, LifecycleEvent::CardRemoved) => (
            LifecycleState::Empty,
            LifecycleAction::Nothing,
        ),
        _ => (state, LifecycleAction::Nothing),
    }
}

/// The card lifecycle of one selected reader: one read per insertion.
#[derive(Clone, Copy, Debug, PartialEq, Eq, Structural)]
pub struct CardLifecycle {
    state: LifecycleState,
}

impl View for CardLifecycle {
    type V = LifecycleState;

    closed spec fn view(&self) -> LifecycleState {
        self.state
    }
}

impl CardLifecycle {
    pub fn new(reader_attached: bool) -> (r: Self)
        ensures
            r@ == (if reader_attached {
                LifecycleState::Empty
            } else {
                LifecycleState::NoReader
            }),
    {
        let state = if reader_attached {
            LifecycleState::Empty
        } else {
            LifecycleState::NoReader
        };
        CardLifecycle { state }
    }

    pub fn state(&self) -> (r: LifecycleState)
        ensures
            r == self@,
    {
        self.state
    }

    pub fn handle(&mut self, event: LifecycleEvent) -> (action: LifecycleAction)
        ensures
            final(self)@ == next(old(self)@, event).0,
            action == next(old(self)@, event).1,
    {
        let (state, action) = transition(self.state, event);
        self.state = state;
        action
    }
}

/// Detaching the reader always forgets the card, whatever the state.
pub proof fn lemma_detach_resets(state: LifecycleState)
    ensures
        next(state, LifecycleEvent::ReaderDetached) == (
            LifecycleState::NoReader,
            LifecycleAction::Nothing,
        ),
{
}

/// A read starts exactly when a card is inserted into an empty, attached reader.
pub proof fn lemma_start_read_only_on_insertion(state: LifecycleState, event: LifecycleEvent)
    ensures
        (next(state, event).1 == LifecycleAction::StartRead) <==> (state == LifecycleState::Empty
            && event == LifecycleEvent::CardInserted),
        next(state, event).1 == LifecycleAction::StartRead ==> next(state, event).0
            == LifecycleState::Reading,
{
}

/// Once a read has started, no event sequence without a removal or a detachment
/// starts another read, and the lifecycle stays with that card.
pub proof fn lemma_one_read_per_insertion(state: LifecycleState, events: Seq<LifecycleEvent>)
    requires
        card_in_cycle(state),
        forall|i: int| 0 <= i < events.len() ==> !ends_card(#[trigger] events[i]),
    ensures
        forall|i: int|
            0 <= i < run_actions(state, events).len() ==> #[trigger] run_actions(state, events)[i]
                == LifecycleAction::Nothing,
        run_actions(state, events).len() == events.len(),
        card_in_cycle(run_events(state, events)),
    decreases events.len(),
{
    if events.len() > 0 {
        let rest = events.drop_first();
        assert(forall|i: int| 0 <= i < rest.len() ==> rest[i] == events[i + 1]);
        assert(!ends_card(events[0]));
        lemma_one_read_per_insertion(next(state, events[0]).0, rest);
        let tail = run_actions(next(state, events[0]).0, rest);
        assert(run_actions(state, events) == seq![next(state, events[0]).1] + tail);
        assert forall|i: int| 0 <= i < run_actions(state, events).len() implies #[trigger] run_actions(
            state,
            events,
        )[i] == LifecycleAction::Nothing by {
            if i > 0 {
                assert(run_actions(state, events)[i] == tail[i - 1]);
            }
        }
    }
}

proof fn lemma_actions_unfold(state: LifecycleState, events: Seq<LifecycleEvent>)
    ensures
        run_actions(state, events).len() == events.len(),
        events.len() > 0 ==> run_actions(state, events)[0] == next(state, events[0]).1,
        forall|i: int|
            0 < i < events.len() ==> #[trigger] run_actions(state, events)[i] == run_actions(
                next(state, events[0]).0,
                events.drop_first(),
            )[i - 1],
    decreases events.len(),
{
    if events.len() > 0 {
        lemma_actions_unfold(next(state, events[0]).0, events.drop_first());
    }
}

/// From a state in which a read has started, a later read starts only after an event
/// that ends the card.
proof fn lemma_restart_needs_card_end(state: LifecycleState, events: Seq<LifecycleEvent>, j: int)
    requires
        card_in_cycle(state),
        0 <= j < events.len(),
        run_actions(state, events)[j] == LifecycleAction::StartRead,
    ensures
        exists|k: int| 0 <= k < j && ends_card(#[trigger] events[k]),
    decreases events.len(),
{
    lemma_actions_unfold(state, events);
    if ends_card(events[0]) {
        assert(j > 0);
        assert(ends_card(events[0]));
    } else {
        let rest = events.drop_first();
        assert(j > 0);
        assert(run_actions(next(state, events[0]).0, rest)[j - 1] == LifecycleAction::StartRead);
        lemma_restart_needs_card_end(next(state, events[0]).0, rest, j - 1);
        let k = choose|k: int| 0 <= k < j - 1 && ends_card(#[trigger] rest[k]);
        assert(events[k + 1] == rest[k]);
    }
}

/// Whatever the starting state, between two reads started by the same sequence of
/// events, the card was removed or the reader was detached: a second read never
/// starts before the card has gone away.
pub proof fn lemma_second_read_needs_removal(
    state: LifecycleState,
    events: Seq<LifecycleEvent>,
    i: int,
    j: int,
)
    requires
        0 <= i < j < events.len(),
        run_actions(state, events)[i] == LifecycleAction::StartRead,
        run_actions(state, events)[j] == LifecycleAction::StartRead,
    ensures
        exists|k: int| i < k < j && ends_card(#[trigger] events[k]),
    decreases i,
{
    lemma_actions_unfold(state, events);
    let rest = events.drop_first();
    let after = next(state, events[0]).0;
    if i == 0 {
        lemma_start_read_only_on_insertion(state, events[0]);
        assert(run_actions(after, rest)[j - 1] == LifecycleAction::StartRead);
        lemma_restart_needs_card_end(after, rest, j - 1);
        let k = choose|k: int| 0 <= k < j - 1 && ends_card(#[trigger] rest[k]);
        assert(events[k + 1] == rest[k]);
    } else {
        assert(run_actions(after, rest)[i - 1] == LifecycleAction::StartRead);
        assert(run_actions(after, rest)[j - 1] == LifecycleAction::StartRead);
        lemma_second_read_needs_removal(after, rest, i - 1, j - 1);
        let k = choose|k: int| i - 1 < k < j - 1 && ends_card(#[trigger] rest[k]);
        assert(events[k + 1] == rest[k]);
    }
}

/// Removing the card after a read, failed or not, makes the reader ready for the next card.
pub proof fn lemma_removal_rearms(state: LifecycleState)
    requires
        card_in_cycle(state),
    ensures
        next(state, LifecycleEvent::CardRemoved).0 == LifecycleState::Empty,
        next(next(state, LifecycleEvent::CardRemoved).0, LifecycleEvent::CardInserted).1
            == LifecycleAction::StartRead,
{
}

/// Why a retried operation gave up.
#[derive(Debug, PartialEq, Eq)]
pub struct RetryFailure<E> {
    pub attempts: u8,
    pub last_error: E,
}

/// The operation, in some state, may answer `outcome` to the attempt numbered `attempt`.
pub open spec fn answers<T, E, Operation: FnMut(u8) -> Result<T, E>>(
    operation: Operation,
    attempt: u8,
    outcome: Result<T, E>,
) -> bool {
    call_ensures(operation, (attempt,), outcome)
}

/// The failed attempts numbered 1 to `errors.len()`: each answered its error, which
/// `is_retryable` accepted, and was announced to `on_retry` before the next attempt.
pub open spec fn retried<T, E, Operation, Retryable, OnRetry>(
    operation: Operation,
    is_retryable: Retryable,
    on_retry: OnRetry,
    errors: Seq<E>,
) -> bool where
    Operation: FnMut(u8) -> Result<T, E>,
    Retryable: Fn(&E) -> bool,
    OnRetry: FnMut(u8, &E),
 {
    forall|i: int|
        0 <= i < errors.len() ==> {
            &&& answers::<T, E, Operation>(operation, (i + 1) as u8, Err::<T, E>(#[trigger] errors[i]))
            &&& call_ensures(is_retryable, (&errors[i],), true)
            &&& call_ensures(on_retry, ((i + 1) as u8, &errors[i]), ())
        }
}

/// A run that succeeded: after some retried failures, the next attempt answered
/// `Ok(value)`, within `max_attempts` attempts.
pub open spec fn succeeded_after_retries<T, E, Operation, Retryable, OnRetry>(
    operation: Operation,
    is_retryable: Retryable,
    on_retry: OnRetry,
    max_attempts: u8,
    value: T,
) -> bool where
    Operation: FnMut(u8) -> Result<T, E>,
    Retryable: Fn(&E) -> bool,
    OnRetry: FnMut(u8, &E),
 {
    exists|errors: Seq<E>|
        #[trigger] retried::<T, E, Operation, Retryable, OnRetry>(
            operation,
            is_retryable,
            on_retry,
            errors,
        ) && errors.len() < max_attempts && answers::<T, E, Operation>(
            operation,
            (errors.len() + 1) as u8,
            Ok::<T, E>(value),
        )
}

/// A run that gave up: after `failure.attempts - 1` retried failures, the attempt
/// numbered `failure.attempts` answered `failure.last_error`, and it was the last
/// allowed attempt or `is_retryable` refused its error.
pub open spec fn gave_up_after_retries<T, E, Operation, Retryable, OnRetry>(
    operation: Operation,
    is_retryable: Retryable,
    on_retry: OnRetry,
    max_attempts: u8,
    failure: RetryFailure<E>,
) -> bool where
    Operation: FnMut(u8) -> Result<T, E>,
    Retryable: Fn(&E) -> bool,
    OnRetry: FnMut(u8, &E),
 {
    &&& 1 <= failure.attempts <= max_attempts
    &&& answers::<T, E, Operation>(operation, failure.attempts, Err::<T, E>(failure.last_error))
    &&& (failure.attempts == max_attempts || call_ensures(
        is_retryable,
        (&failure.last_error,),
        false,
    ))
    &&& exists|errors: Seq<E>|
        #[trigger] retried::<T, E, Operation, Retryable, OnRetry>(
            operation,
            is_retryable,
            on_retry,
            errors,
        ) && errors.len() + 1 == failure.attempts
}

/// Runs `operation` with attempt numbers 1, 2, ... until it succeeds, fails with an
/// error that `is_retryable` refuses, or `max_attempts` attempts have been made.
/// `on_retry` is told of each failed attempt that is followed by another one.
pub fn run_with_retries<T, E, Operation, Retryable, OnRetry>(
    max_attempts: u8,
    operation: Operation,
    is_retryable: Retryable,
    on_retry: OnRetry,
) -> (r: Result<T, RetryFailure<E>>) where
    Operation: FnMut(u8) -> Result<T, E>,
    Retryable: Fn(&E) -> bool,
    OnRetry: FnMut(u8, &E),

    requires
        max_attempts > 0,
        forall|attempt: u8| call_requires(operation, (attempt,)),
        forall|error: &E| call_requires(is_retryable, (error,)),
        forall|attempt: u8, error: &E| call_requires(on_retry, (attempt, error)),
    ensures
        r matches Ok(value) ==> succeeded_after_retries::<T, E, Operation, Retryable, OnRetry>(
            operation,
            is_retryable,
            on_retry,
            max_attempts,
            value,
        ),
        r matches Err(failure) ==> gave_up_after_retries::<T, E, Operation, Retryable, OnRetry>(
            operation,
            is_retryable,
            on_retry,
            max_attempts,
            failure,
        ),
{
    let mut attempt_fn = operation;
    let mut retry_hook = on_retry;
    let mut attempt: u8 = 1;
    let ghost mut errors: Seq<E> = Seq::empty();
    loop
        invariant
            1 <= attempt <= max_attempts,
            attempt_fn == operation,
            retry_hook == on_retry,
            errors.len() + 1 == attempt,
            retried::<T, E, Operation, Retryable, OnRetry>(operation, is_retryable, on_retry, errors),
            forall|a: u8| call_requires(operation, (a,)),
            forall|error: &E| call_requires(is_retryable, (error,)),
            forall|a: u8, error: &E| call_requires(on_retry, (a, error)),
        decreases max_attempts - attempt,
    {
        let outcome = attempt_fn(attempt);
        proof {
            assert(answers(operation, attempt, outcome));
        }
        match outcome {
            Ok(value) => {
                let r: Result<T, RetryFailure<E>> = Ok(value);
                assert(answers(operation, attempt, Ok::<T, E>(value)));
                assert(succeeded_after_retries::<T, E, Operation, Retryable, OnRetry>(
                    operation,
                    is_retryable,
                    on_retry,
                    max_attempts,
                    value,
                ));
                return r;
            },
            Err(error) => {
                assert(answers(operation, attempt, Err::<T, E>(error)));
                if attempt < max_attempts {
                    let retryable = is_retryable(&error);
                    if retryable {
                        retry_hook(attempt, &error);
                        proof {
                            let before = errors;
                            errors = errors.push(error);
                            assert forall|i: int| 0 <= i < errors.len() implies {
                                &&& answers::<T, E, Operation>(
                                    operation,
                                    (i + 1) as u8,
                                    Err::<T, E>(#[trigger] errors[i]),
                                )
                                &&& call_ensures(is_retryable, (&errors[i],), true)
                                &&& call_ensures(on_retry, ((i + 1) as u8, &errors[i]), ())
                            } by {
                                if i < before.len() {
                                    assert(errors[i] == before[i]);
                                }
                            }
                        }
                        attempt = attempt + 1;
                    } else {
                        let r: Result<T, RetryFailure<E>> = Err(
                            RetryFailure { attempts: attempt, last_error: error },
                        );
                        assert(gave_up_after_retries::<T, E, Operation, Retryable, OnRetry>(
                            operation,
                            is_retryable,
                            on_retry,
                            max_attempts,
                            RetryFailure { attempts: attempt, last_error: error },
                        ));
                        return r;
                    }
                } else {
                    let r: Result<T, RetryFailure<E>> = Err(
                        RetryFailure { attempts: attempt, last_error: error },
                    );
                    assert(gave_up_after_retries::<T, E, Operation, Retryable, OnRetry>(
                        operation,
                        is_retryable,
                        on_retry,
                        max_attempts,
                        RetryFailure { attempts: attempt, last_error: error },
                    ));
                    return r;
                }
            },
        }
    }
}

} // verus!
