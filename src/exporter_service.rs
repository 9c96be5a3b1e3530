use crate::entsoe_client::{
    doc_spans, fails_on_unknown, priced_all, to_spot_price_response, EntsoeDayAheadPrices,
};
use crate::interval::DAY;
use crate::retry::{backoff, RetryPolicy, MAX_ATTEMPTS};
use crate::types::{ExportError, SpotPrice, State};
use vstd::prelude::*;

verus! {

/// The midnight (UTC) that starts the calendar day holding `t`.
pub open spec fn day_start(t: int) -> int {
    t - t % (DAY as int)
}

/// The one-day window `[start, end)` of the calendar day (UTC) holding `reference`.
pub fn day_window(reference: i64) -> (r: (i64, i64))
    requires
        i64::MIN + DAY <= reference <= i64::MAX - DAY,
    ensures
        r.0 == day_start(reference as int),
        r.1 == r.0 + DAY,
        r.0 <= reference < r.1,
        (r.0 as int) % (DAY as int) == 0,
{
    let rem: i64 = if reference >= 0 {
        reference % DAY
    } else {
        let back: i64 = (-(reference + 1)) % DAY;
        DAY - 1 - back
    };
    proof {
        let t = reference as int;
        let d = DAY as int;
        if t < 0 {
            let b = -(t + 1);
            assert(b % d == (-(t + 1)) % d);
            assert(t % d == d - 1 - b % d) by (nonlinear_arith)
                requires
                    d == 86400,
                    b == -(t + 1),
                    b >= 0,
            {
                let q = b / d;
                let s = b % d;
                assert(b == q * d + s);
                assert(t == (-q - 1) * d + (d - 1 - s));
                assert(0 <= d - 1 - s < d);
                vstd::arithmetic::div_mod::lemma_fundamental_div_mod_converse(t, d, -q - 1, d - 1 - s);
            }
        }
        vstd::arithmetic::div_mod::lemma_fundamental_div_mod(t, d);
        vstd::arithmetic::div_mod::lemma_mod_multiples_basic(t / d, d);
        assert((t - t % d) == (t / d) * d);
        assert(rem as int == t % d);
    }
    let start = reference - rem;
    (start, start + DAY)
}

/// The `yyyyMMddHHmm` text of an instant in UTC, or `None` out of range.
pub uninterp spec fn compact_utc_of(t: int) -> Option<Seq<char>>;

/// Relies on chrono's `DateTime::<Utc>::from_timestamp` and `DateTime::format`
/// with `%Y%m%d%H%M`.
#[verifier::external_body]
fn compact_utc(t: i64) -> (r: Option<String>)
    ensures
        r is None <==> compact_utc_of(t as int) is None,
        r matches Some(s) ==> compact_utc_of(t as int) == Some(s@),
{
    match chrono::DateTime::<chrono::Utc>::from_timestamp(t, 0) {
        Some(d) => Some(d.format("%Y%m%d%H%M").to_string()),
        None => None,
    }
}

/// The period that a run fetches for the day holding `reference`, as the
/// request writes it: start and end of that UTC day in `yyyyMMddHHmm`.
pub fn request_period(reference: i64) -> (r: Result<(String, String), ExportError>)
    requires
        i64::MIN + DAY <= reference <= i64::MAX - DAY,
    ensures
        r is Ok <==> (compact_utc_of(day_start(reference as int)) is Some && compact_utc_of(
            day_start(reference as int) + DAY,
        ) is Some),
        r matches Ok((a, b)) ==> compact_utc_of(day_start(reference as int)) == Some(a@)
            && compact_utc_of(day_start(reference as int) + DAY) == Some(b@),
        r matches Err(e) ==> e matches ExportError::OutOfRange { start } && start == reference,
{
    let (start, end) = day_window(reference);
    match (compact_utc(start), compact_utc(end)) {
        (Some(a), Some(b)) => Ok((a, b)),
        _ => Err(ExportError::OutOfRange { start: reference }),
    }
}

/// Whether an interval starting at `from` is new against a checkpoint
/// whose last written start is `prior` (`None`: no checkpoint).
pub open spec fn is_new(prior: Option<int>, from: int) -> bool {
    match prior {
        None => true,
        Some(t) => from > t,
    }
}

/// The last written start that a checkpoint records.
pub open spec fn prior_of(state: Option<State>) -> Option<int> {
    match state {
        None => None,
        Some(s) => Some(s.last_from as int),
    }
}

/// The positions, in order, of the first `n` intervals that are new.
pub open spec fn new_positions(prices: Seq<SpotPrice>, prior: Option<int>, n: nat) -> Seq<int>
    decreases n,
{
    if n == 0 {
        Seq::empty()
    } else {
        let before = new_positions(prices, prior, (n - 1) as nat);
        if is_new(prior, prices[n - 1].from as int) {
            before.push(n - 1)
        } else {
            before
        }
    }
}

/// The start of the last new interval among the first `n`.
pub open spec fn last_written(prices: Seq<SpotPrice>, prior: Option<int>, n: nat) -> Option<int>
    decreases n,
{
    if n == 0 {
        None
    } else if is_new(prior, prices[n - 1].from as int) {
        Some(prices[n - 1].from as int)
    } else {
        last_written(prices, prior, (n - 1) as nat)
    }
}

/// The intervals among the first `n` that end after `now`, in order.
pub open spec fn future_of(prices: Seq<SpotPrice>, now: int, n: nat) -> Seq<SpotPrice>
    decreases n,
{
    if n == 0 {
        Seq::empty()
    } else {
        let before = future_of(prices, now, (n - 1) as nat);
        if prices[n - 1].till > now {
            before.push(prices[n - 1])
        } else {
            before
        }
    }
}

/// What one export run does with the intervals it normalized: the positions
/// it writes, in order, and the checkpoint it stores once all of them are
/// written (`None`: the checkpoint stays as it is).
#[derive(Debug)]
pub struct ExportPlan {
    pub writes: Vec<usize>,
    pub new_state: Option<State>,
}

/// Decides, for the intervals of one run in processing order, which are
/// written and what the next checkpoint is.
pub fn plan_export(prices: &Vec<SpotPrice>, state: &Option<State>, now: i64) -> (r: ExportPlan)
    ensures
        r.writes@.map_values(|k: usize| k as int) == new_positions(
            prices@,
            prior_of(*state),
            prices@.len(),
        ),
        r.new_state is Some <==> last_written(prices@, prior_of(*state), prices@.len()) is Some,
        r.new_state matches Some(s) ==> {
            &&& s.last_from as int == last_written(prices@, prior_of(*state), prices@.len())->Some_0
            &&& s.future_spot_prices@ == future_of(prices@, now as int, prices@.len())
        },
{
    let ghost prior = prior_of(*state);
    let prior_from: Option<i64> = match state {
        Some(s) => Some(s.last_from),
        None => None,
    };
    let mut writes: Vec<usize> = Vec::new();
    let mut future_spot_prices: Vec<SpotPrice> = Vec::new();
    let mut last_from: Option<i64> = None;
    let mut i: usize = 0;
    while i < prices.len()
        invariant
            0 <= i <= prices@.len(),
            prior == prior_of(*state),
            prior_from matches Some(t) ==> prior == Some(t as int),
            prior_from is None ==> prior is None,
            writes@.map_values(|k: usize| k as int) == new_positions(prices@, prior, i as nat),
            future_spot_prices@ == future_of(prices@, now as int, i as nat),
            last_from is Some <==> last_written(prices@, prior, i as nat) is Some,
            last_from matches Some(t) ==> last_written(prices@, prior, i as nat) == Some(t as int),
        decreases prices@.len() - i,
    {
        let spot_price = &prices[i];
        if spot_price.till > now {
            future_spot_prices.push(spot_price.copy());
        }
        let write_spot_price = match prior_from {
            Some(t) => spot_price.from > t,
            None => true,
        };
        if write_spot_price {
            let ghost prev = writes@;
            writes.push(i);
            assert(writes@.map_values(|k: usize| k as int) =~= prev.map_values(|k: usize| k as int).push(
                i as int,
            ));
            last_from = Some(spot_price.from);
        }
        i = i + 1;
    }
    let new_state = match last_from {
        Some(t) => Some(State { future_spot_prices, last_from: t }),
        None => None,
    };
    ExportPlan { writes, new_state }
}

/// Where a run stands.
#[derive(Clone, Copy, Debug, PartialEq, Eq, Structural)]
pub enum Phase {
    Fetching,
    Writing,
    Storing,
    Done,
    Failed,
}

/// What the caller of a run does next.
#[derive(Debug)]
pub enum RunAction {
    /// Fetch the document of the run's window and report it to `on_fetched`.
    Fetch,
    /// Sleep this long, then ask `resume` for the step to try again.
    Wait { millis: u64 },
    /// Write the interval at this position of `prices` and report to `on_written`.
    Write { index: usize },
    /// Store `new_state` and report to `on_stored`.
    StoreState,
    /// The run succeeded.
    Finish,
    /// The run failed with this error.
    Abort { error: ExportError },
}

/// One export run as a state machine: it takes the outcome of each outside
/// step and answers with the next one, retrying each step under its own
/// retry policy.
#[derive(Debug)]
pub struct ExportRun {
    phase: Phase,
    retry: RetryPolicy,
    now: i64,
    state: Option<State>,
    prices: Vec<SpotPrice>,
    writes: Vec<usize>,
    next_write: usize,
    new_state: Option<State>,
}

impl ExportRun {
    pub closed spec fn spec_phase(&self) -> Phase {
        self.phase
    }

    pub closed spec fn spec_now(&self) -> i64 {
        self.now
    }

    pub closed spec fn spec_state(&self) -> Option<State> {
        self.state
    }

    pub closed spec fn spec_prices(&self) -> Seq<SpotPrice> {
        self.prices@
    }

    /// Positions of the intervals the run writes, in order.
    pub closed spec fn spec_writes(&self) -> Seq<int> {
        self.writes@.map_values(|k: usize| k as int)
    }

    /// How many of those writes have succeeded.
    pub closed spec fn spec_written(&self) -> nat {
        self.next_write as nat
    }

    pub closed spec fn spec_new_state(&self) -> Option<State> {
        self.new_state
    }

    /// Failed attempts of the current step.
    pub closed spec fn spec_failed(&self) -> nat {
        self.retry.failed()
    }

    pub closed spec fn wf(&self) -> bool {
        &&& self.retry.wf()
        &&& (self.phase == Phase::Fetching || self.phase == Phase::Writing || self.phase
            == Phase::Storing) ==> self.retry.failed() < MAX_ATTEMPTS
        &&& self.phase == Phase::Fetching ==> self.writes@.len() == 0 && self.next_write == 0
            && self.new_state is None
        &&& self.phase == Phase::Writing ==> self.next_write < self.writes@.len()
            && self.new_state is Some
        &&& self.phase == Phase::Storing ==> self.new_state is Some
        &&& self.next_write <= self.writes@.len()
        &&& forall|k: int| 0 <= k < self.writes@.len() ==> self.writes@[k] < self.prices@.len()
    }

    /// A run against the checkpoint `state` (`None`: first run) at instant
    /// `now`; its first step is `RunAction::Fetch`.
    pub fn new(state: Option<State>, now: i64) -> (r: ExportRun)
        ensures
            r.wf(),
            r.spec_phase() == Phase::Fetching,
            r.spec_failed() == 0,
            r.spec_state() == state,
            r.spec_now() == now,
            r.spec_written() == 0,
            r.spec_new_state() is None,
    {
        ExportRun {
            phase: Phase::Fetching,
            retry: RetryPolicy::new(),
            now,
            state,
            prices: Vec::new(),
            writes: Vec::new(),
            next_write: 0,
            new_state: None,
        }
    }

    pub fn phase(&self) -> (r: Phase)
        ensures
            r == self.spec_phase(),
    {
        self.phase
    }

    /// The intervals the run normalized.
    pub fn prices(&self) -> (r: &Vec<SpotPrice>)
        ensures
            r@ == self.spec_prices(),
    {
        &self.prices
    }

    /// The checkpoint the run stores once all its writes succeeded.
    pub fn new_state(&self) -> (r: &Option<State>)
        ensures
            *r == self.spec_new_state(),
    {
        &self.new_state
    }

    /// The step to try again after a `RunAction::Wait`.
    pub fn resume(&self) -> (r: RunAction)
        requires
            self.wf(),
            self.spec_phase() == Phase::Fetching || self.spec_phase() == Phase::Writing
                || self.spec_phase() == Phase::Storing,
        ensures
            self.spec_phase() == Phase::Fetching ==> r is Fetch,
            self.spec_phase() == Phase::Writing ==> (r matches RunAction::Write { index }
                && index == self.spec_writes()[self.spec_written() as int]),
            self.spec_phase() == Phase::Storing ==> r is StoreState,
    {
        match self.phase {
            Phase::Writing => RunAction::Write { index: self.writes[self.next_write] },
            Phase::Storing => RunAction::StoreState,
            _ => RunAction::Fetch,
        }
    }

    /// A failed attempt of the current step: wait and retry, or give up
    /// with the error once the attempts are spent.
    fn failed_attempt(&mut self, error: ExportError, jitter_millis: u32) -> (r: RunAction)
        requires
            old(self).wf(),
            old(self).phase == Phase::Fetching || old(self).phase == Phase::Writing
                || old(self).phase == Phase::Storing,
        ensures
            final(self).wf(),
            final(self).retry.failed() == old(self).retry.failed() + 1 || final(self).phase
                == Phase::Failed,
            old(self).retry.failed() + 1 < MAX_ATTEMPTS ==> {
                &&& r matches RunAction::Wait { millis } && millis == backoff(
                    old(self).retry.failed(),
                ) + jitter_millis
                &&& final(self).phase == old(self).phase
            },
            old(self).retry.failed() + 1 >= MAX_ATTEMPTS ==> (r matches RunAction::Abort {
                error: e,
            } && e == error) && final(self).phase == Phase::Failed,
            final(self).prices@ == old(self).prices@,
            final(self).writes@ == old(self).writes@,
            final(self).next_write == old(self).next_write,
            final(self).new_state == old(self).new_state,
            final(self).state == old(self).state,
            final(self).now == old(self).now,
    {
        match self.retry.next_delay(jitter_millis) {
            Some(millis) => RunAction::Wait { millis },
            None => {
                self.phase = Phase::Failed;
                RunAction::Abort { error }
            },
        }
    }

    /// The outcome of a fetch. A failure is retried; a document is
    /// normalized and planned, and the run goes on to its first write, or
    /// finishes where nothing is new.
    pub fn on_fetched(
        &mut self,
        outcome: Result<EntsoeDayAheadPrices, ExportError>,
        jitter_millis: u32,
    ) -> (r: RunAction)
        requires
            old(self).wf(),
            old(self).spec_phase() == Phase::Fetching,
        ensures
            final(self).wf(),
            final(self).spec_state() == old(self).spec_state(),
            final(self).spec_now() == old(self).spec_now(),
            outcome matches Err(e) ==> {
                &&& !(r is Write) && !(r is StoreState)
                &&& old(self).spec_failed() + 1 < MAX_ATTEMPTS ==> (r matches RunAction::Wait {
                    millis,
                } && millis == backoff(old(self).spec_failed()) + jitter_millis
                    && final(self).spec_phase() == Phase::Fetching && final(self).spec_failed()
                    == old(self).spec_failed() + 1)
                &&& old(self).spec_failed() + 1 >= MAX_ATTEMPTS ==> (r matches RunAction::Abort {
                    error,
                } && error == e && final(self).spec_phase() == Phase::Failed)
            },
            outcome matches Ok(doc) ==> match doc_spans(doc.time_series@) {
                None => r matches RunAction::Abort { error } && final(self).spec_phase()
                    == Phase::Failed && (error is UnknownResolution <==> fails_on_unknown(
                    doc.time_series@,
                )),
                Some(spans) => {
                    let prior = prior_of(old(self).spec_state());
                    let n = final(self).spec_prices().len();
                    &&& priced_all(final(self).spec_prices(), spans)
                    &&& final(self).spec_writes() == new_positions(final(self).spec_prices(), prior, n)
                    &&& final(self).spec_written() == 0
                    &&& final(self).spec_failed() == 0
                    &&& final(self).spec_new_state() is Some <==> last_written(final(self).spec_prices(), prior, n) is Some
                    &&& final(self).spec_new_state() matches Some(st) ==> {
                        &&& st.last_from as int == last_written(final(self).spec_prices(), prior, n)->Some_0
                        &&& st.future_spot_prices@ == future_of(final(self).spec_prices(), old(self).spec_now() as int, n)
                    }
                    &&& final(self).spec_new_state() is Some ==> (r matches RunAction::Write { index }
                        && index == final(self).spec_writes()[0] && final(self).spec_phase() == Phase::Writing)
                    &&& final(self).spec_new_state() is None ==> (r is Finish && final(self).spec_phase() == Phase::Done)
                },
            },
    {
        match outcome {
            Err(e) => self.failed_attempt(e, jitter_millis),
            Ok(doc) => match to_spot_price_response(&doc) {
                Err(e) => {
                    self.phase = Phase::Failed;
                    RunAction::Abort { error: e }
                },
                Ok(response) => {
                    let prices = response.data.market_prices_electricity;
                    let plan = plan_export(&prices, &self.state, self.now);
                    self.prices = prices;
                    self.writes = plan.writes;
                    self.new_state = plan.new_state;
                    self.retry = RetryPolicy::new();
                    proof {
                        lemma_last_written_iff_new(self.prices@, prior_of(self.state), self.prices@.len());
                        lemma_new_positions_members(self.prices@, prior_of(self.state), self.prices@.len());
                        assert(self.writes@.len() == self.spec_writes().len());
                        assert forall|k: int| 0 <= k < self.writes@.len() implies self.writes@[k] < self.prices@.len() by {
                            assert(self.spec_writes()[k] == self.writes@[k] as int);
                            assert(self.spec_writes().contains(self.writes@[k] as int));
                        }
                    }
                    if self.writes.len() == 0 {
                        self.phase = Phase::Done;
                        RunAction::Finish
                    } else {
                        proof {
                            lemma_last_written_iff_new(self.prices@, prior_of(self.state), self.prices@.len());
                        }
                        self.phase = Phase::Writing;
                        RunAction::Write { index: self.writes[0] }
                    }
                },
            },
        }
    }


    /// The outcome of writing the interval `resume` or the previous step
    /// named. A failure is retried; after the last write the run goes on to
    /// store its checkpoint.
    pub fn on_written(&mut self, outcome: Result<(), ExportError>, jitter_millis: u32) -> (r: RunAction)
        requires
            old(self).wf(),
            old(self).spec_phase() == Phase::Writing,
        ensures
            final(self).wf(),
            final(self).spec_prices() == old(self).spec_prices(),
            final(self).spec_writes() == old(self).spec_writes(),
            final(self).spec_new_state() == old(self).spec_new_state(),
            final(self).spec_state() == old(self).spec_state(),
            final(self).spec_now() == old(self).spec_now(),
            outcome is Ok ==> {
                &&& final(self).spec_written() == old(self).spec_written() + 1
                &&& final(self).spec_failed() == 0
                &&& final(self).spec_written() < final(self).spec_writes().len() ==> (r matches RunAction::Write {
                    index,
                } && index == final(self).spec_writes()[final(self).spec_written() as int]
                    && final(self).spec_phase() == Phase::Writing)
                &&& final(self).spec_written() == final(self).spec_writes().len() ==> (r is StoreState
                    && final(self).spec_phase() == Phase::Storing)
            },
            outcome matches Err(e) ==> {
                &&& final(self).spec_written() == old(self).spec_written()
                &&& !(r is StoreState)
                &&& old(self).spec_failed() + 1 < MAX_ATTEMPTS ==> (r matches RunAction::Wait {
                    millis,
                } && millis == backoff(old(self).spec_failed()) + jitter_millis
                    && final(self).spec_phase() == Phase::Writing && final(self).spec_failed()
                    == old(self).spec_failed() + 1)
                &&& old(self).spec_failed() + 1 >= MAX_ATTEMPTS ==> (r matches RunAction::Abort {
                    error,
                } && error == e && final(self).spec_phase() == Phase::Failed)
            },
    {
        match outcome {
            Err(e) => self.failed_attempt(e, jitter_millis),
            Ok(()) => {
                let n: usize = self.writes.len();
                assert(self.next_write < n);
                self.next_write = self.next_write + 1;
                self.retry = RetryPolicy::new();
                if self.next_write < n {
                    RunAction::Write { index: self.writes[self.next_write] }
                } else {
                    self.phase = Phase::Storing;
                    RunAction::StoreState
                }
            },
        }
    }

    /// The outcome of storing the new checkpoint. A failure is retried.
    pub fn on_stored(&mut self, outcome: Result<(), ExportError>, jitter_millis: u32) -> (r: RunAction)
        requires
            old(self).wf(),
            old(self).spec_phase() == Phase::Storing,
        ensures
            final(self).wf(),
            final(self).spec_new_state() == old(self).spec_new_state(),
            outcome is Ok ==> r is Finish && final(self).spec_phase() == Phase::Done,
            outcome matches Err(e) ==> {
                &&& old(self).spec_failed() + 1 < MAX_ATTEMPTS ==> (r matches RunAction::Wait {
                    millis,
                } && millis == backoff(old(self).spec_failed()) + jitter_millis
                    && final(self).spec_phase() == Phase::Storing)
                &&& old(self).spec_failed() + 1 >= MAX_ATTEMPTS ==> (r matches RunAction::Abort {
                    error,
                } && error == e && final(self).spec_phase() == Phase::Failed)
            },
    {
        match outcome {
            Err(e) => self.failed_attempt(e, jitter_millis),
            Ok(()) => {
                self.phase = Phase::Done;
                RunAction::Finish
            },
        }
    }
}

proof fn lemma_last_written_iff_new(prices: Seq<SpotPrice>, prior: Option<int>, n: nat)
    requires
        n <= prices.len(),
    ensures
        last_written(prices, prior, n) is Some <==> new_positions(prices, prior, n).len() > 0,
    decreases n,
{
    if n > 0 {
        lemma_last_written_iff_new(prices, prior, (n - 1) as nat);
    }
}

proof fn lemma_new_positions_members(prices: Seq<SpotPrice>, prior: Option<int>, n: nat)
    requires
        n <= prices.len(),
    ensures
        forall|k: int| #[trigger]
            new_positions(prices, prior, n).contains(k) <==> (0 <= k < n && is_new(
                prior,
                prices[k].from as int,
            )),
    decreases n,
{
    if n > 0 {
        lemma_new_positions_members(prices, prior, (n - 1) as nat);
        let before = new_positions(prices, prior, (n - 1) as nat);
        assert forall|k: int| #[trigger]
            new_positions(prices, prior, n).contains(k) <==> (0 <= k < n && is_new(
                prior,
                prices[k].from as int,
            )) by {
            if is_new(prior, prices[n - 1].from as int) {
                let after = before.push(n - 1);
                if after.contains(k) && k != n - 1 {
                    let j = choose|j: int| 0 <= j < after.len() && after[j] == k;
                    assert(before[j] == k);
                }
                if before.contains(k) {
                    let j = choose|j: int| 0 <= j < before.len() && before[j] == k;
                    assert(after[j] == k);
                }
                if k == n - 1 {
                    assert(after[after.len() - 1] == k);
                }
            }
        }
    }
}

/// Re-running against a checkpoint whose last written start is `t` writes
/// exactly the intervals that start strictly after `t`, and skips the others.
pub proof fn lemma_rerun_writes_exactly_newer(prices: Seq<SpotPrice>, t: int)
    ensures
        forall|k: int| #[trigger]
            new_positions(prices, Some(t), prices.len()).contains(k) <==> (0 <= k < prices.len()
                && prices[k].from > t),
{
    lemma_new_positions_members(prices, Some(t), prices.len());
}

/// Where the intervals come in chronological order, the start a new
/// checkpoint records is the greatest start among the intervals written.
pub proof fn lemma_checkpoint_is_latest_written(prices: Seq<SpotPrice>, prior: Option<int>)
    requires
        forall|a: int, b: int| 0 <= a <= b < prices.len() ==> prices[a].from <= prices[b].from,
        last_written(prices, prior, prices.len()) is Some,
    ensures
        ({
            let m = last_written(prices, prior, prices.len())->Some_0;
            &&& exists|k: int| #[trigger]
                new_positions(prices, prior, prices.len()).contains(k) && prices[k].from == m
            &&& forall|k: int| #[trigger]
                new_positions(prices, prior, prices.len()).contains(k) ==> prices[k].from <= m
        }),
{
    lemma_new_positions_members(prices, prior, prices.len());
    lemma_last_written_is_last_new(prices, prior, prices.len());
    let m = last_written(prices, prior, prices.len())->Some_0;
    let j = choose|j: int|
        0 <= j < prices.len() && is_new(prior, prices[j].from as int) && prices[j].from == m
            && forall|k: int| j < k < prices.len() ==> !is_new(prior, prices[k].from as int);
    assert(new_positions(prices, prior, prices.len()).contains(j));
    assert forall|k: int| #[trigger]
        new_positions(prices, prior, prices.len()).contains(k) implies prices[k].from <= m by {
        if k > j {
            assert(!is_new(prior, prices[k].from as int));
        }
    }
}

proof fn lemma_last_written_is_last_new(prices: Seq<SpotPrice>, prior: Option<int>, n: nat)
    requires
        n <= prices.len(),
        last_written(prices, prior, n) is Some,
    ensures
        exists|j: int|
            0 <= j < n && is_new(prior, prices[j].from as int) && prices[j].from == last_written(
                prices,
                prior,
                n,
            )->Some_0 && forall|k: int| j < k < n ==> !is_new(prior, prices[k].from as int),
    decreases n,
{
    if is_new(prior, prices[n - 1].from as int) {
        assert(forall|k: int| n - 1 < k < n ==> !is_new(prior, prices[k].from as int));
    } else {
        lemma_last_written_is_last_new(prices, prior, (n - 1) as nat);
    }
}

} // verus!
