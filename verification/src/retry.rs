//! Retrying an operation on a fixed delay schedule. Durations are counted in
//! whole nanoseconds, the resolution of `std::time::Duration`.
use vstd::prelude::*;

verus! {

/// The longest duration `std::time::Duration` can hold, in nanoseconds.
pub const MAX_DURATION_NANOS: u128 = 18_446_744_073_709_551_615_999_999_999u128;

/// A delay schedule that waits the same duration before every retry.
#[derive(Debug)]
pub struct Fixed {
    duration: u128,
}

impl View for Fixed {
    type V = u128;

    /// The delay of the schedule, in nanoseconds.
    closed spec fn view(&self) -> u128 {
        self.duration
    }
}

impl Fixed {
    /// Whether the delay is one a `Duration` can hold.
    pub closed spec fn wf(&self) -> bool {
        self.duration <= MAX_DURATION_NANOS
    }

    /// A schedule of `millis` milliseconds between tries.
    pub fn from_millis(millis: u64) -> (f: Fixed)
        ensures
            f@ == millis as int * 1_000_000,
            f.wf(),
    {
        Fixed { duration: millis as u128 * 1_000_000 }
    }

    /// A schedule of `secs` seconds between tries; the number of
    /// milliseconds must fit a `u64`.
    pub fn from_secs(secs: u64) -> (f: Fixed)
        requires
            secs * 1000 <= u64::MAX,
        ensures
            f@ == secs as int * 1_000_000_000,
            f.wf(),
    {
        Fixed::from_millis(secs * 1000)
    }

    /// A schedule of the given delay, in nanoseconds.
    pub fn from(delay: u128) -> (f: Fixed)
        requires
            delay <= MAX_DURATION_NANOS,
        ensures
            f@ == delay,
            f.wf(),
    {
        Fixed { duration: delay }
    }

    /// The next delay: always the fixed one; the schedule never runs out.
    pub fn next(&mut self) -> (d: Option<u128>)
        ensures
            d == Some(old(self)@),
            *final(self) == *old(self),
    {
        Some(self.duration)
    }
}

/// The outcome of one try of an operation: a value, an error worth another
/// try, or an error that ends the retrying.
#[derive(Clone, Copy, PartialEq, Eq, PartialOrd, Ord, Debug, Hash)]
pub enum OperationResult<T, E> {
    Success(T),
    Retry(E),
    #[allow(dead_code)]
    Failure(E),
}

impl<T, E> From<Result<T, E>> for OperationResult<T, E> {
    /// A value is a success; an error is worth another try.
    fn from(item: Result<T, E>) -> (r: OperationResult<T, E>) {
        match item {
            Ok(v) => OperationResult::Success(v),
            Err(e) => OperationResult::Retry(e),
        }
    }
}

impl<T, E> vstd::std_specs::convert::FromSpecImpl<Result<T, E>> for OperationResult<T, E> {
    open spec fn obeys_from_spec() -> bool {
        true
    }

    open spec fn from_spec(item: Result<T, E>) -> OperationResult<T, E> {
        match item {
            Ok(v) => OperationResult::Success(v),
            Err(e) => OperationResult::Retry(e),
        }
    }
}

/// The error that ends a retry: the last error, the time waited in total
/// (nanoseconds) and the number of tries made.
#[derive(Debug, PartialEq, Eq)]
pub struct RetryError<E> {
    pub error: E,
    pub total_delay: u128,
    pub tries: u64,
}

/// The bookkeeping of a retry in progress: the number of the try under way
/// and the time waited so far (nanoseconds).
#[derive(Debug, Clone, Copy, PartialEq, Eq)]
pub struct RetryState {
    pub current_try: u64,
    pub total_delay: u128,
}

/// What to do with the outcome of a try.
#[derive(Debug)]
pub enum RetryDecision<R, E> {
    /// The retry is over, with this result.
    Done(Result<R, RetryError<E>>),
    /// Ask the schedule for the next delay; the error is kept in case none
    /// is left.
    Backoff(E),
}

/// The error ending a retry in the given state.
pub open spec fn retry_error<E>(state: RetryState, error: E) -> RetryError<E> {
    RetryError { error, total_delay: state.total_delay, tries: state.current_try }
}

/// What the outcome of a try decides: a value or a final error ends the
/// retry, an error worth retrying asks for a delay.
pub open spec fn decide<R, E>(state: RetryState, outcome: OperationResult<R, E>) -> RetryDecision<R, E> {
    match outcome {
        OperationResult::Success(v) => RetryDecision::Done(Ok(v)),
        OperationResult::Failure(e) => RetryDecision::Done(Err(retry_error(state, e))),
        OperationResult::Retry(e) => RetryDecision::Backoff(e),
    }
}

/// The state after waiting `delay` before the next try.
pub open spec fn backed_off(state: RetryState, delay: u128) -> RetryState {
    RetryState {
        current_try: (state.current_try + 1) as u64,
        total_delay: (state.total_delay + delay) as u128,
    }
}

/// Whether one more wait of `delay` keeps the counters in range.
pub open spec fn can_back_off(state: RetryState, delay: u128) -> bool {
    state.current_try < u64::MAX && state.total_delay + delay <= MAX_DURATION_NANOS
}

impl RetryState {
    /// The state before the first try: try number one, nothing waited.
    pub fn new() -> (s: RetryState)
        ensures
            s.current_try == 1,
            s.total_delay == 0,
    {
        RetryState { current_try: 1, total_delay: 0 }
    }

    /// What the outcome of the current try decides (see `decide`).
    pub fn on_outcome<R, E>(&self, outcome: OperationResult<R, E>) -> (d: RetryDecision<R, E>)
        ensures
            d == decide(*self, outcome),
    {
        match outcome {
            OperationResult::Success(v) => RetryDecision::Done(Ok(v)),
            OperationResult::Failure(e) => RetryDecision::Done(
                Err(RetryError { error: e, total_delay: self.total_delay, tries: self.current_try }),
            ),
            OperationResult::Retry(e) => RetryDecision::Backoff(e),
        }
    }

    /// After a try worth retrying: with a delay left, count the wait and the
    /// next try (the caller sleeps `delay`); with none left, the retry ends
    /// with the last error.
    pub fn on_backoff<E>(&mut self, error: E, delay: Option<u128>) -> (r: Option<RetryError<E>>)
        requires
            delay matches Some(d) ==> can_back_off(*old(self), d),
        ensures
            match delay {
                Some(d) => r is None && *final(self) == backed_off(*old(self), d),
                None => r == Some(retry_error(*old(self), error)) && *final(self) == *old(self),
            },
    {
        match delay {
            Some(d) => {
                self.current_try = self.current_try + 1;
                self.total_delay = self.total_delay + d;
                None
            },
            None => Some(RetryError { error, total_delay: self.total_delay, tries: self.current_try }),
        }
    }
}

/// The sum of a sequence of delays.
pub open spec fn sum_delays(delays: Seq<u128>) -> int
    decreases delays.len(),
{
    if delays.len() == 0 {
        0
    } else {
        sum_delays(delays.drop_last()) + delays.last()
    }
}

/// The result of retrying from `state`, when the tries from the current one
/// on have the given outcomes and the schedule has the given delays left;
/// `None` when the outcomes run out first.
pub open spec fn retry_run<R, E>(
    state: RetryState,
    delays: Seq<u128>,
    outcomes: Seq<OperationResult<R, E>>,
) -> Option<Result<R, RetryError<E>>>
    decreases outcomes.len(),
{
    if outcomes.len() == 0 {
        None
    } else {
        match decide(state, outcomes[0]) {
            RetryDecision::Done(r) => Some(r),
            RetryDecision::Backoff(e) => if delays.len() == 0 {
                Some(Err(retry_error(state, e)))
            } else {
                retry_run(backed_off(state, delays[0]), delays.drop_first(), outcomes.drop_first())
            },
        }
    }
}

/// Whether every wait of the schedule keeps the counters in range.
pub open spec fn schedule_fits(state: RetryState, delays: Seq<u128>) -> bool {
    state.current_try + delays.len() <= u64::MAX
        && state.total_delay + sum_delays(delays) <= MAX_DURATION_NANOS
}

proof fn lemma_sum_delays_first(delays: Seq<u128>)
    requires
        delays.len() > 0,
    ensures
        sum_delays(delays) == delays[0] + sum_delays(delays.drop_first()),
    decreases delays.len(),
{
    if delays.len() > 1 {
        lemma_sum_delays_first(delays.drop_last());
        assert(delays.drop_last().drop_first() =~= delays.drop_first().drop_last());
    } else {
        assert(delays.drop_first() =~= Seq::<u128>::empty());
        assert(delays.drop_last() =~= Seq::<u128>::empty());
    }
}

proof fn lemma_sum_delays_nonneg(delays: Seq<u128>)
    ensures
        sum_delays(delays) >= 0,
    decreases delays.len(),
{
    if delays.len() > 0 {
        lemma_sum_delays_nonneg(delays.drop_last());
    }
}

/// Retrying with a schedule of `n` delays makes at most `n + 1` tries, and
/// ends as soon as a try succeeds or fails for good. When it ends with an
/// error, `tries` is the number of tries made and `total_delay` the sum of
/// the delays waited between them: the first `tries - 1` of the schedule.
pub proof fn lemma_retry_bounds<R, E>(
    delays: Seq<u128>,
    outcomes: Seq<OperationResult<R, E>>,
)
    requires
        outcomes.len() > delays.len(),
        schedule_fits(RetryState { current_try: 1, total_delay: 0 }, delays),
    ensures
        retry_run(RetryState { current_try: 1, total_delay: 0 }, delays, outcomes) matches Some(r)
            && (r matches Err(e) ==> 1 <= e.tries <= delays.len() + 1
                && e.total_delay == sum_delays(delays.take(e.tries - 1))
                && (e.tries <= delays.len() ==> !(outcomes[e.tries - 1] is Retry))
                && (outcomes[e.tries - 1] is Retry || outcomes[e.tries - 1] is Failure))
            && (forall|k: int| 0 <= k < outcomes.len() && #[trigger] outcomes[k] is Success
                && (forall|j: int| 0 <= j < k ==> #[trigger] outcomes[j] is Retry)
                && k <= delays.len() ==> r is Ok),
{
    lemma_retry_bounds_from(RetryState { current_try: 1, total_delay: 0 }, delays, outcomes, seq![]);
}

proof fn lemma_retry_bounds_from<R, E>(
    state: RetryState,
    delays: Seq<u128>,
    outcomes: Seq<OperationResult<R, E>>,
    waited: Seq<u128>,
)
    requires
        outcomes.len() > delays.len(),
        schedule_fits(state, delays),
        state.current_try == waited.len() + 1,
        state.total_delay == sum_delays(waited),
    ensures
        retry_run(state, delays, outcomes) matches Some(r)
            && (r matches Err(e) ==> state.current_try <= e.tries <= state.current_try + delays.len()
                && e.total_delay == sum_delays((waited + delays).take(e.tries - 1))
                && (e.tries < state.current_try + delays.len()
                    ==> !(outcomes[e.tries - state.current_try] is Retry))
                && (outcomes[e.tries - state.current_try] is Retry
                    || outcomes[e.tries - state.current_try] is Failure))
            && (forall|k: int| 0 <= k < outcomes.len() && #[trigger] outcomes[k] is Success
                && (forall|j: int| 0 <= j < k ==> #[trigger] outcomes[j] is Retry)
                && k <= delays.len() ==> r is Ok),
    decreases outcomes.len(),
{
    assert((waited + delays).take(waited.len() as int) =~= waited);
    match outcomes[0] {
        OperationResult::Success(_) => {},
        OperationResult::Failure(_) => {
            assert forall|k: int| 0 <= k < outcomes.len() && #[trigger] outcomes[k] is Success
                && (forall|j: int| 0 <= j < k ==> #[trigger] outcomes[j] is Retry)
                && k <= delays.len() implies false by {
                if k > 0 {
                    assert(outcomes[0] is Retry);
                }
            }
        },
        OperationResult::Retry(_) => {
            if delays.len() > 0 {
                lemma_sum_delays_first(delays);
                lemma_sum_delays_nonneg(delays.drop_first());
                let next = backed_off(state, delays[0]);
                let waited2 = waited.push(delays[0]);
                assert(waited2.drop_last() =~= waited);
                assert(waited2 + delays.drop_first() =~= waited + delays);
                lemma_retry_bounds_from(next, delays.drop_first(), outcomes.drop_first(), waited2);
                assert forall|k: int| 0 <= k < outcomes.len() && #[trigger] outcomes[k] is Success
                    && (forall|j: int| 0 <= j < k ==> #[trigger] outcomes[j] is Retry)
                    && k <= delays.len() implies retry_run(state, delays, outcomes).unwrap() is Ok by {
                    assert(k > 0);
                    assert(outcomes.drop_first()[k - 1] is Success);
                    assert forall|j: int| 0 <= j < k - 1 implies #[trigger] outcomes.drop_first()[j] is Retry by {
                        assert(outcomes[j + 1] is Retry);
                    }
                }
            } else {
                assert forall|k: int| 0 <= k < outcomes.len() && #[trigger] outcomes[k] is Success
                    && (forall|j: int| 0 <= j < k ==> #[trigger] outcomes[j] is Retry)
                    && k <= delays.len() implies false by {
                    assert(k == 0);
                }
            }
        },
    }
}

/// The counters of a retry account for its waits: after backing off with
/// each delay of a schedule in turn, the try number is one more than the
/// number of waits and the total delay is their sum.
pub proof fn lemma_backoff_accounting(delays: Seq<u128>)
    requires
        schedule_fits(RetryState { current_try: 1, total_delay: 0 }, delays),
    ensures
        delays.fold_left(
            RetryState { current_try: 1, total_delay: 0 },
            |s: RetryState, d: u128| backed_off(s, d),
        ) == (RetryState { current_try: (delays.len() + 1) as u64, total_delay: sum_delays(delays) as u128 }),
    decreases delays.len(),
{
    if delays.len() > 0 {
        let prefix = delays.drop_last();
        lemma_sum_delays_nonneg(prefix);
        lemma_backoff_accounting(prefix);
    }
}

/// The numbers the tries of a retry from `state` are made with, in order,
/// when the tries have the given outcomes and the schedule the given delays.
pub open spec fn try_numbers<R, E>(
    state: RetryState,
    delays: Seq<u128>,
    outcomes: Seq<OperationResult<R, E>>,
) -> Seq<int>
    decreases outcomes.len(),
{
    if outcomes.len() == 0 {
        Seq::empty()
    } else {
        seq![state.current_try as int] + match decide(state, outcomes[0]) {
            RetryDecision::Done(_) => Seq::empty(),
            RetryDecision::Backoff(_) => if delays.len() == 0 {
                Seq::empty()
            } else {
                try_numbers(backed_off(state, delays[0]), delays.drop_first(), outcomes.drop_first())
            },
        }
    }
}

proof fn lemma_try_numbers_from<R, E>(state: RetryState, delays: Seq<u128>, outcomes: Seq<OperationResult<R, E>>)
    requires
        schedule_fits(state, delays),
    ensures
        try_numbers(state, delays, outcomes) =~= Seq::new(
            try_numbers(state, delays, outcomes).len(),
            |k: int| state.current_try + k,
        ),
        try_numbers(state, delays, outcomes).len() <= delays.len() + 1,
    decreases outcomes.len(),
{
    if outcomes.len() > 0 && decide(state, outcomes[0]) is Backoff && delays.len() > 0 {
        lemma_sum_delays_first(delays);
        lemma_sum_delays_nonneg(delays.drop_first());
        lemma_try_numbers_from(backed_off(state, delays[0]), delays.drop_first(), outcomes.drop_first());
    }
}

/// The operation is tried with the numbers 1, 2, 3, ... in order, once each,
/// and at most once more than the schedule has delays.
pub proof fn lemma_tries_numbered_in_order<R, E>(delays: Seq<u128>, outcomes: Seq<OperationResult<R, E>>)
    requires
        schedule_fits(RetryState { current_try: 1, total_delay: 0 }, delays),
    ensures
        try_numbers(RetryState { current_try: 1, total_delay: 0 }, delays, outcomes) =~= Seq::new(
            try_numbers(RetryState { current_try: 1, total_delay: 0 }, delays, outcomes).len(),
            |k: int| k + 1,
        ),
        try_numbers(RetryState { current_try: 1, total_delay: 0 }, delays, outcomes).len() <= delays.len() + 1,
{
    lemma_try_numbers_from(RetryState { current_try: 1, total_delay: 0 }, delays, outcomes);
}

/// A final error ends the retry at once, whatever the try: the retry fails
/// with that error, the try's number and the time waited so far; a success
/// ends it with the value; only an error worth retrying asks for a delay.
pub proof fn lemma_outcome_decides<R, E>(state: RetryState, outcome: OperationResult<R, E>)
    ensures
        outcome matches OperationResult::Failure(e) ==> decide(state, outcome) == RetryDecision::<R, E>::Done(
            Err(RetryError { error: e, total_delay: state.total_delay, tries: state.current_try }),
        ),
        outcome matches OperationResult::Success(v) ==> decide(state, outcome) == RetryDecision::<R, E>::Done(Ok(v)),
        outcome matches OperationResult::Retry(e) ==> decide(state, outcome) == RetryDecision::<R, E>::Backoff(e),
{
}

proof fn lemma_first_final_error_from<R, E>(
    state: RetryState,
    delays: Seq<u128>,
    outcomes: Seq<OperationResult<R, E>>,
    k: int,
)
    requires
        0 <= k < outcomes.len(),
        k <= delays.len(),
        outcomes[k] is Failure,
        forall|j: int| 0 <= j < k ==> #[trigger] outcomes[j] is Retry,
        schedule_fits(state, delays),
    ensures
        retry_run(state, delays, outcomes) == Some(
            Err::<R, RetryError<E>>(
                RetryError {
                    error: outcomes[k]->Failure_0,
                    total_delay: (state.total_delay + sum_delays(delays.take(k))) as u128,
                    tries: (state.current_try + k) as u64,
                },
            ),
        ),
    decreases k,
{
    if k == 0 {
        assert(delays.take(0) =~= Seq::<u128>::empty());
    } else {
        lemma_sum_delays_first(delays);
        lemma_sum_delays_nonneg(delays.drop_first());
        let next = backed_off(state, delays[0]);
        assert forall|j: int| 0 <= j < k - 1 implies #[trigger] outcomes.drop_first()[j] is Retry by {
            assert(outcomes[j + 1] is Retry);
        }
        assert(outcomes[0] is Retry);
        lemma_first_final_error_from(next, delays.drop_first(), outcomes.drop_first(), k - 1);
        let t = delays.take(k);
        assert(t.len() > 0);
        lemma_sum_delays_first(t);
        assert(t.drop_first() =~= delays.drop_first().take(k - 1));
    }
}

/// A retry stops at its first final error: when the tries before it were
/// all worth retrying and the schedule had a delay for each, the retry
/// fails with that error, after that many tries and the sum of the delays
/// waited between them.
pub proof fn lemma_first_final_error_stops<R, E>(delays: Seq<u128>, outcomes: Seq<OperationResult<R, E>>, k: int)
    requires
        0 <= k < outcomes.len(),
        k <= delays.len(),
        outcomes[k] is Failure,
        forall|j: int| 0 <= j < k ==> #[trigger] outcomes[j] is Retry,
        schedule_fits(RetryState { current_try: 1, total_delay: 0 }, delays),
    ensures
        retry_run(RetryState { current_try: 1, total_delay: 0 }, delays, outcomes) == Some(
            Err::<R, RetryError<E>>(
                RetryError {
                    error: outcomes[k]->Failure_0,
                    total_delay: sum_delays(delays.take(k)) as u128,
                    tries: (k + 1) as u64,
                },
            ),
        ),
{
    lemma_first_final_error_from(RetryState { current_try: 1, total_delay: 0 }, delays, outcomes, k);
}

} // verus!
