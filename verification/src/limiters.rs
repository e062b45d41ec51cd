//! Limits against floods: the token pool and negative cache that guard container
//! lookups, and the ceiling on ingested lines per second.
use std::collections::VecDeque;
use std::time::Instant;
use vstd::hash_set::StringHashSet;
use vstd::prelude::*;

verus! {

/// How many container IDs the negative cache holds.
pub const MAX_NEGATIVE_CACHE: usize = 1000;

/// How many container lookups may be made per second.
pub const MAX_LOOKUP_TOKENS: u32 = 10;

/// Nanoseconds in a second.
pub const NANOS_PER_SECOND: u128 = 1_000_000_000;

/// Seconds between two warnings about the ingestion ceiling.
pub const WARNING_INTERVAL_SECONDS: u128 = 5;

/// A reading of the monotonic clock.
#[verifier::external_type_specification]
#[verifier::external_body]
pub struct ExInstant(std::time::Instant);

/// Where a reading stands on the monotonic clock, in nanoseconds from a fixed origin.
pub uninterp spec fn instant_nanos(reading: Instant) -> int;

/// `Instant::now` reads the monotonic clock. Nothing is assumed of the reading.
pub assume_specification[ std::time::Instant::now ]() -> (r: Instant)
;

/// The time from `earlier` to `later` in nanoseconds, by
/// `Instant::saturating_duration_since`, which gives zero where `earlier` is not the
/// earlier one.
#[verifier::external_body]
pub(crate) fn nanos_between(later: Instant, earlier: Instant) -> (r: u128)
    ensures
        r as int == elapsed(instant_nanos(later), instant_nanos(earlier)),
{
    later.saturating_duration_since(earlier).as_nanos()
}

/// The time from `earlier` to `later`, and never less than nothing.
pub open spec fn elapsed(later: int, earlier: int) -> int {
    if later > earlier {
        later - earlier
    } else {
        0
    }
}

/// At least `seconds` have passed from `earlier` to `later`.
pub open spec fn passed(later: int, earlier: int, seconds: int) -> bool {
    elapsed(later, earlier) >= seconds * NANOS_PER_SECOND
}

/// What guards the lookups of unknown containers: IDs that the engine is known not
/// to have, in the order in which they were learnt, and the tokens that are left.
pub struct AntiDosState {
    pub negative_cache: StringHashSet,
    pub negative_queue: VecDeque<String>,
    pub tokens: u32,
    pub last_refill: Instant,
}

/// What becomes of a request to look up a container.
#[derive(Debug, Clone, Copy, PartialEq, Eq, Structural)]
pub enum LookupVerdict {
    /// The engine is known not to have the container.
    KnownMissing,
    /// The lookup may be made; it has been paid for.
    Granted,
    /// There are no tokens left.
    Exhausted,
}

impl AntiDosState {
    /// The IDs of the queue, oldest first.
    pub open spec fn queued(self) -> Seq<Seq<char>> {
        self.negative_queue@.map_values(|id: String| id@)
    }

    /// The queue lists the cache without repetition, and both limits hold.
    pub open spec fn consistent(self) -> bool {
        &&& self.negative_cache@ == self.queued().to_set()
        &&& self.queued().no_duplicates()
        &&& self.queued().len() <= MAX_NEGATIVE_CACHE
        &&& self.tokens <= MAX_LOOKUP_TOKENS
    }

    /// The tokens that can be spent at `now`: a full pool if a second has passed since
    /// the last refill.
    pub open spec fn tokens_at(self, now: Instant) -> u32 {
        if passed(instant_nanos(now), instant_nanos(self.last_refill), 1) {
            MAX_LOOKUP_TOKENS
        } else {
            self.tokens
        }
    }

    /// When the pool was last refilled, seen from `now`.
    pub open spec fn refill_at(self, now: Instant) -> Instant {
        if passed(instant_nanos(now), instant_nanos(self.last_refill), 1) {
            now
        } else {
            self.last_refill
        }
    }

    /// What becomes of a request at `now` to look up `id`.
    pub open spec fn verdict_at(self, id: Seq<char>, now: Instant) -> LookupVerdict {
        if self.negative_cache@.contains(id) {
            LookupVerdict::KnownMissing
        } else if self.tokens_at(now) > 0 {
            LookupVerdict::Granted
        } else {
            LookupVerdict::Exhausted
        }
    }

    /// `after` has the tokens that are left once a lookup of `id` was asked for at `now`.
    pub open spec fn spends(self, after: Self, id: Seq<char>, now: Instant) -> bool {
        &&& after.last_refill == self.refill_at(now)
        &&& after.tokens == self.tokens_at(now) - (if self.verdict_at(id, now) is Granted {
            1int
        } else {
            0
        })
    }

    /// An empty negative cache and a full pool, refilled at `now`.
    pub fn new_at(now: Instant) -> (r: Self)
        ensures
            r.consistent(),
            r.negative_cache@ == Set::<Seq<char>>::empty(),
            r.negative_queue@ == Seq::<String>::empty(),
            r.tokens == MAX_LOOKUP_TOKENS,
            r.last_refill == now,
    {
        let state = AntiDosState {
            negative_cache: StringHashSet::new(),
            negative_queue: VecDeque::new(),
            tokens: MAX_LOOKUP_TOKENS,
            last_refill: now,
        };
        assert(state.queued() =~= Seq::<Seq<char>>::empty());
        assert(state.negative_cache@ =~= state.queued().to_set());
        state
    }

    /// An empty negative cache and a full pool.
    pub fn new() -> (r: Self)
        ensures
            r.consistent(),
            r.negative_cache@ == Set::<Seq<char>>::empty(),
            r.negative_queue@ == Seq::<String>::empty(),
            r.tokens == MAX_LOOKUP_TOKENS,
    {
        AntiDosState::new_at(Instant::now())
    }

    /// Asks at `now` to look up `container_id`: refills the pool if it is due, passes
    /// over IDs that are known to be missing, and spends a token on any other.
    pub fn request_lookup(&mut self, container_id: &str, now: Instant) -> (r: LookupVerdict)
        ensures
            r == old(self).verdict_at(container_id@, now),
            final(self).negative_cache@ == old(self).negative_cache@,
            final(self).negative_queue@ == old(self).negative_queue@,
            old(self).spends(*final(self), container_id@, now),
            old(self).consistent() ==> final(self).consistent(),
    {
        if nanos_between(now, self.last_refill) >= NANOS_PER_SECOND {
            self.tokens = MAX_LOOKUP_TOKENS;
            self.last_refill = now;
        }
        if self.negative_cache.contains(container_id) {
            return LookupVerdict::KnownMissing;
        }
        if self.tokens > 0 {
            self.tokens = self.tokens - 1;
            LookupVerdict::Granted
        } else {
            LookupVerdict::Exhausted
        }
    }

    /// The oldest entry has to make room for a new one.
    pub open spec fn must_evict(self) -> bool {
        self.negative_cache@.len() >= MAX_NEGATIVE_CACHE && self.negative_queue@.len() > 0
    }

    /// `after` is the state once `id` is remembered as missing. A full cache first
    /// forgets its oldest entry.
    pub open spec fn remembers(self, after: Self, id: Seq<char>) -> bool {
        &&& after.negative_cache@ == (if self.must_evict() {
            self.negative_cache@.remove(self.negative_queue@[0]@)
        } else {
            self.negative_cache@
        }).insert(id)
        &&& after.queued() == (if self.must_evict() {
            self.queued().drop_first()
        } else {
            self.queued()
        }).push(id)
        &&& after.tokens == self.tokens
        &&& after.last_refill == self.last_refill
    }

    /// Remembers that the engine does not have `container_id`.
    pub fn record_missing(&mut self, container_id: String)
        ensures
            old(self).remembers(*final(self), container_id@),
            old(self).consistent() && !old(self).negative_cache@.contains(container_id@)
                ==> final(self).consistent(),
    {
        let ghost before = *self;
        let ghost id = container_id@;
        if self.negative_cache.len() >= MAX_NEGATIVE_CACHE {
            if let Some(oldest) = self.negative_queue.pop_front() {
                self.negative_cache.remove(oldest.as_str());
            }
        }
        self.negative_cache.insert(container_id.clone());
        self.negative_queue.push_back(container_id);
        proof {
            assert(self.queued() =~= (if before.must_evict() {
                before.queued().drop_first()
            } else {
                before.queued()
            }).push(id));
            if before.consistent() && !before.negative_cache@.contains(id) {
                lemma_recording_keeps_consistency(before, *self, id);
            }
        }
    }
}

/// Recording a new ID in a consistent state leaves a consistent state.
proof fn lemma_recording_keeps_consistency(before: AntiDosState, after: AntiDosState, id: Seq<char>)
    requires
        before.consistent(),
        !before.negative_cache@.contains(id),
        before.remembers(after, id),
    ensures
        after.consistent(),
{
    let queue = before.queued();
    queue.unique_seq_to_set();
    assert(forall|i: int| 0 <= i < queue.len() ==> queue.to_set().contains(#[trigger] queue[i]));
    let kept = if before.must_evict() {
        queue.drop_first()
    } else {
        queue
    };
    assert(after.queued() == kept.push(id));
    if before.must_evict() {
        assert(queue[0] == before.negative_queue@[0]@);
        assert(forall|i: int| 0 <= i < kept.len() ==> kept[i] == queue[i + 1]);
        assert(kept.to_set() =~= queue.to_set().remove(queue[0])) by {
            assert forall|x: Seq<char>| queue.to_set().remove(queue[0]).contains(
                x,
            ) implies kept.to_set().contains(x) by {
                let k = choose|k: int| 0 <= k < queue.len() && queue[k] == x;
                assert(kept[k - 1] == x);
            }
        }
    }
    assert(!kept.contains(id)) by {
        if kept.contains(id) {
            let k = choose|k: int| 0 <= k < kept.len() && kept[k] == id;
            assert(queue.contains(id));
        }
    }
    let grown = kept.push(id);
    assert(grown.to_set() =~= kept.to_set().insert(id)) by {
        assert(grown[kept.len() as int] == id);
        assert forall|x: Seq<char>| kept.to_set().insert(id).contains(
            x,
        ) implies grown.to_set().contains(x) by {
            if x != id {
                let k = choose|k: int| 0 <= k < kept.len() && kept[k] == x;
                assert(grown[k] == x);
            }
        }
    }
    assert(grown.no_duplicates());
}

/// A container that was just found missing is not looked up again: the next request
/// for it is answered from memory and costs nothing.
pub proof fn law_missing_container_is_remembered(
    before: AntiDosState,
    after: AntiDosState,
    later: AntiDosState,
    id: Seq<char>,
    now: Instant,
)
    requires
        before.remembers(after, id),
        after.spends(later, id, now),
    ensures
        after.verdict_at(id, now) is KnownMissing,
        later.tokens == after.tokens_at(now),
{
}

/// How many of the first `n` requests are granted, each made to its own state of the
/// guard.
pub open spec fn lookups_granted(
    states: Seq<AntiDosState>,
    requests: Seq<(Seq<char>, Instant)>,
    n: nat,
) -> nat
    decreases n,
{
    if n == 0 {
        0
    } else {
        let last = n - 1;
        lookups_granted(states, requests, last as nat) + (if states[last].verdict_at(
            requests[last].0,
            requests[last].1,
        ) is Granted {
            1nat
        } else {
            0
        })
    }
}

/// Within a second of a refill no more lookups are granted than there were tokens,
/// whatever is remembered as missing in between.
pub proof fn law_lookups_are_bounded(
    states: Seq<AntiDosState>,
    requests: Seq<(Seq<char>, Instant)>,
    n: nat,
)
    requires
        states.len() == requests.len() + 1,
        n <= requests.len(),
        forall|i: int|
            0 <= i < requests.len() ==> (#[trigger] states[i]).spends(
                states[i + 1],
                requests[i].0,
                requests[i].1,
            ),
        forall|i: int|
            0 <= i < requests.len() ==> instant_nanos((#[trigger] requests[i]).1) < instant_nanos(
                states[0].last_refill,
            ) + NANOS_PER_SECOND,
    ensures
        lookups_granted(states, requests, n) == states[0].tokens - states[n as int].tokens,
        lookups_granted(states, requests, n) <= states[0].tokens,
        states[n as int].last_refill == states[0].last_refill,
    decreases n,
{
    if n > 0 {
        let last = n - 1;
        law_lookups_are_bounded(states, requests, last as nat);
        assert(states[last].spends(states[last + 1], requests[last].0, requests[last].1));
        assert(instant_nanos(requests[last].1) < instant_nanos(states[0].last_refill)
            + NANOS_PER_SECOND);
    }
}

/// The state of the ingestion ceiling after a line arrived at `now`, and whether the
/// line is let in: the start of the window and the lines it has admitted.
pub open spec fn window_after(
    start: int,
    admitted: nat,
    max_per_second: nat,
    now: int,
) -> (int, nat, bool) {
    let (open, count) = if passed(now, start, 1) {
        (now, 0)
    } else {
        (start, admitted)
    };
    if count < max_per_second {
        (open, count + 1, true)
    } else {
        (open, count, false)
    }
}

/// The ceiling on the lines ingested per second, and when it was last warned about.
pub struct GlobalRateLimiter {
    pub window_start: Instant,
    pub admitted: usize,
    pub last_warning: Option<Instant>,
    pub max_per_second: usize,
}

impl GlobalRateLimiter {
    /// The window has not admitted more than it may.
    pub open spec fn within_ceiling(self) -> bool {
        self.admitted <= self.max_per_second
    }

    /// What a line that arrives at `now` makes of the limiter.
    pub open spec fn window_at(self, now: Instant) -> (int, nat, bool) {
        window_after(
            instant_nanos(self.window_start),
            self.admitted as nat,
            self.max_per_second as nat,
            instant_nanos(now),
        )
    }

    /// `after` is what a line that arrives at `now` makes of `self`, and `admitted`
    /// tells whether the line was let in.
    pub open spec fn acquires(self, now: Instant, after: Self, admitted: bool) -> bool {
        &&& instant_nanos(after.window_start) == self.window_at(now).0
        &&& after.admitted as nat == self.window_at(now).1
        &&& admitted == self.window_at(now).2
        &&& after.last_warning == self.last_warning
        &&& after.max_per_second == self.max_per_second
    }

    /// A warning about the ceiling is due at `now`: none was given yet, or the last one
    /// lies long enough back.
    pub open spec fn warning_due(self, now: Instant) -> bool {
        match self.last_warning {
            None => true,
            Some(last) => passed(
                instant_nanos(now),
                instant_nanos(last),
                WARNING_INTERVAL_SECONDS as int,
            ),
        }
    }

    /// `after` is what asking for a warning at `now` makes of `self`, and `warned`
    /// tells whether it is to be given.
    pub open spec fn warns(self, now: Instant, after: Self, warned: bool) -> bool {
        &&& warned == self.warning_due(now)
        &&& after.last_warning == (if warned {
            Some(now)
        } else {
            self.last_warning
        })
        &&& after.window_start == self.window_start
        &&& after.admitted == self.admitted
        &&& after.max_per_second == self.max_per_second
    }

    /// A limiter whose first window opens at `now`.
    pub fn new_at(max_per_second: usize, now: Instant) -> (r: Self)
        ensures
            r.within_ceiling(),
            r.window_start == now,
            r.admitted == 0,
            r.last_warning is None,
            r.max_per_second == max_per_second,
    {
        GlobalRateLimiter { window_start: now, admitted: 0, last_warning: None, max_per_second }
    }

    /// A limiter whose first window opens now.
    pub fn new(max_per_second: usize) -> (r: Self)
        ensures
            r.within_ceiling(),
            r.admitted == 0,
            r.last_warning is None,
            r.max_per_second == max_per_second,
    {
        GlobalRateLimiter::new_at(max_per_second, Instant::now())
    }

    /// Asks to let in a line that arrives at `now`. A window that is a second old gives
    /// way to a new one.
    pub fn acquire_at(&mut self, now: Instant) -> (r: bool)
        ensures
            old(self).acquires(now, *final(self), r),
            old(self).within_ceiling() ==> final(self).within_ceiling(),
    {
        if nanos_between(now, self.window_start) >= NANOS_PER_SECOND {
            self.window_start = now;
            self.admitted = 0;
        }
        if self.admitted < self.max_per_second {
            self.admitted = self.admitted + 1;
            true
        } else {
            false
        }
    }

    /// Asks to let in a line that arrives now.
    pub fn acquire(&mut self) -> (r: bool)
        ensures
            exists|now: Instant| old(self).acquires(now, *final(self), r),
            old(self).within_ceiling() ==> final(self).within_ceiling(),
            old(self).max_per_second == 0 ==> !r,
            old(self).admitted < old(self).max_per_second ==> r,
    {
        let now = Instant::now();
        self.acquire_at(now)
    }

    /// Asks at `now` whether to warn about the ceiling.
    pub fn should_warn_at(&mut self, now: Instant) -> (r: bool)
        ensures
            old(self).warns(now, *final(self), r),
            old(self).within_ceiling() ==> final(self).within_ceiling(),
    {
        let due = match self.last_warning {
            None => true,
            Some(last) => nanos_between(now, last) >= WARNING_INTERVAL_SECONDS * NANOS_PER_SECOND,
        };
        if due {
            self.last_warning = Some(now);
        }
        due
    }

    /// Asks whether to warn about the ceiling now.
    pub fn should_warn(&mut self) -> (r: bool)
        ensures
            exists|now: Instant| old(self).warns(now, *final(self), r),
            old(self).within_ceiling() ==> final(self).within_ceiling(),
            old(self).last_warning is None ==> r,
    {
        let now = Instant::now();
        self.should_warn_at(now)
    }
}

/// How many of the lines that arrive at `arrivals`, one after the other, are let in.
pub open spec fn admissions(
    start: int,
    admitted: nat,
    max_per_second: nat,
    arrivals: Seq<int>,
) -> nat
    decreases arrivals.len(),
{
    if arrivals.len() == 0 {
        0
    } else {
        let (next_start, next_admitted, let_in) = window_after(
            start,
            admitted,
            max_per_second,
            arrivals[0],
        );
        (if let_in {
            1nat
        } else {
            0
        }) + admissions(next_start, next_admitted, max_per_second, arrivals.drop_first())
    }
}

/// Of the lines that arrive within a second of the start of a window, the limiter
/// lets in as many as the ceiling leaves room for, and no more.
pub proof fn law_window_admits_up_to_ceiling(
    start: int,
    admitted: nat,
    max_per_second: nat,
    arrivals: Seq<int>,
)
    requires
        admitted <= max_per_second,
        forall|i: int| 0 <= i < arrivals.len() ==> #[trigger] arrivals[i] < start + NANOS_PER_SECOND,
    ensures
        admissions(start, admitted, max_per_second, arrivals) == (if arrivals.len()
            <= max_per_second - admitted {
            arrivals.len() as int
        } else {
            max_per_second - admitted
        }),
    decreases arrivals.len(),
{
    if arrivals.len() > 0 {
        let rest = arrivals.drop_first();
        assert forall|i: int| 0 <= i < rest.len() implies #[trigger] rest[i] < start
            + NANOS_PER_SECOND by {
            assert(rest[i] == arrivals[i + 1]);
        }
        assert(arrivals[0] < start + NANOS_PER_SECOND);
        assert(!passed(arrivals[0], start, 1));
        if admitted < max_per_second {
            law_window_admits_up_to_ceiling(start, admitted + 1, max_per_second, rest);
        } else {
            law_window_admits_up_to_ceiling(start, admitted, max_per_second, rest);
        }
    }
}

/// A run of requests for a warning: request `i` was made at `times[i]` to a limiter in
/// the state `before[i]`, left it in the state `after[i]`, and was granted if `warned[i]`.
/// What happens between two requests does not touch the last warning.
pub open spec fn warning_run(
    before: Seq<GlobalRateLimiter>,
    after: Seq<GlobalRateLimiter>,
    times: Seq<Instant>,
    warned: Seq<bool>,
) -> bool {
    &&& before.len() == times.len()
    &&& after.len() == times.len()
    &&& warned.len() == times.len()
    &&& forall|i: int|
        0 <= i < times.len() ==> (#[trigger] before[i]).warns(times[i], after[i], warned[i])
    &&& forall|i: int|
        0 < i < times.len() ==> (#[trigger] before[i]).last_warning == after[i - 1].last_warning
}

/// Requests that were not granted do not restart the wait: between a warning and the
/// next request to be granted, the last warning stays the same, and that next request is
/// granted exactly if the interval has passed since.
pub proof fn law_wait_runs_from_the_last_warning(
    before: Seq<GlobalRateLimiter>,
    after: Seq<GlobalRateLimiter>,
    times: Seq<Instant>,
    warned: Seq<bool>,
    i: int,
    j: int,
)
    requires
        warning_run(before, after, times, warned),
        0 <= i < j < times.len(),
        warned[i],
        forall|k: int| i < k < j ==> !#[trigger] warned[k],
    ensures
        before[j].last_warning == Some(times[i]),
        warned[j] <==> passed(
            instant_nanos(times[j]),
            instant_nanos(times[i]),
            WARNING_INTERVAL_SECONDS as int,
        ),
    decreases j - i,
{
    assert(before[j].warns(times[j], after[j], warned[j]));
    assert(before[j - 1].warns(times[j - 1], after[j - 1], warned[j - 1]));
    if j > i + 1 {
        law_wait_runs_from_the_last_warning(before, after, times, warned, i, j - 1);
        assert(!warned[j - 1]);
    }
}

/// Two warnings are never closer to each other than the interval.
pub proof fn law_warnings_keep_their_distance(
    before: Seq<GlobalRateLimiter>,
    after: Seq<GlobalRateLimiter>,
    times: Seq<Instant>,
    warned: Seq<bool>,
    i: int,
    j: int,
)
    requires
        warning_run(before, after, times, warned),
        0 <= i < j < times.len(),
        warned[i],
        warned[j],
    ensures
        instant_nanos(times[j]) - instant_nanos(times[i]) >= WARNING_INTERVAL_SECONDS
            * NANOS_PER_SECOND,
    decreases j - i,
{
    if exists|k: int| i < k < j && #[trigger] warned[k] {
        let k = choose|k: int| i < k < j && #[trigger] warned[k];
        law_warnings_keep_their_distance(before, after, times, warned, i, k);
        law_warnings_keep_their_distance(before, after, times, warned, k, j);
    } else {
        law_wait_runs_from_the_last_warning(before, after, times, warned, i, j);
    }
}

} // verus!
