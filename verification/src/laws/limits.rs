//! Laws of the limits: lookups, what is remembered as missing, lines per second and
//! warnings.
use crate::limiters::{AntiDosState, GlobalRateLimiter, LookupVerdict};
use crate::limiters;
use std::time::Instant;
use vstd::prelude::*;

verus! {

/// Time passes forwards only: the seconds between two readings are counted in whole
/// billions of nanoseconds, and none have passed if the later reading is not the later.
pub proof fn law_seconds_pass_forwards(later: int, earlier: int, seconds: int)
    requires
        seconds > 0,
    ensures
        limiters::passed(later, earlier, seconds) <==> later - earlier >= seconds * 1_000_000_000,
{
    assert(seconds * 1_000_000_000 > 0);
}

/// A second after the last refill the pool is full again with ten tokens, and the wait
/// starts anew; before that nothing is refilled.
pub proof fn law_pool_is_refilled_each_second(guard: AntiDosState, now: Instant)
    ensures
        limiters::instant_nanos(now) - limiters::instant_nanos(guard.last_refill) >= 1_000_000_000
            ==> guard.tokens_at(now) == 10 && guard.refill_at(now) == now,
        limiters::instant_nanos(now) - limiters::instant_nanos(guard.last_refill) < 1_000_000_000
            ==> guard.tokens_at(now) == guard.tokens && guard.refill_at(now) == guard.last_refill,
{
}

/// A lookup is granted exactly if the container is not remembered as missing and a token
/// is left; what is remembered is never looked up.
pub proof fn law_lookups_are_granted_while_there_are_tokens(
    guard: AntiDosState,
    id: Seq<char>,
    now: Instant,
)
    ensures
        guard.verdict_at(id, now) == LookupVerdict::Granted <==> !guard.negative_cache@.contains(
            id,
        ) && guard.tokens_at(now) >= 1,
        guard.verdict_at(id, now) == LookupVerdict::KnownMissing
            <==> guard.negative_cache@.contains(id),
        guard.verdict_at(id, now) == LookupVerdict::Exhausted
            <==> !guard.negative_cache@.contains(id) && guard.tokens_at(now) == 0,
{
}

/// A granted lookup costs one token and a refused one none.
pub proof fn law_a_lookup_costs_one_token(
    before: AntiDosState,
    after: AntiDosState,
    id: Seq<char>,
    now: Instant,
)
    requires
        before.spends(after, id, now),
    ensures
        before.verdict_at(id, now) is Granted ==> after.tokens + 1 == before.tokens_at(now),
        !(before.verdict_at(id, now) is Granted) ==> after.tokens == before.tokens_at(now),
        after.last_refill == before.refill_at(now),
{
}

/// What is found missing is remembered; all that was remembered before stays so, but for
/// the oldest where the memory is full.
pub proof fn law_memory_is_first_in_first_out(
    before: AntiDosState,
    after: AntiDosState,
    id: Seq<char>,
    other: Seq<char>,
)
    requires
        before.remembers(after, id),
        other != id,
    ensures
        after.negative_cache@.contains(id),
        after.queued().last() == id,
        before.negative_cache@.len() < 1000 ==> (after.negative_cache@.contains(other)
            <==> before.negative_cache@.contains(other)),
        before.negative_cache@.len() >= 1000 && before.negative_queue@.len() > 0 ==> (
        after.negative_cache@.contains(other) <==> before.negative_cache@.contains(other) && other
            != before.negative_queue@[0]@),
        before.negative_cache@.len() >= 1000 && before.negative_queue@.len() > 0
            ==> after.queued().len() == before.queued().len() && forall|i: int|
            0 <= i < before.queued().len() - 1 ==> after.queued()[i] == #[trigger] before.queued()[i
                + 1],
        before.negative_cache@.len() < 1000 ==> after.queued().len() == before.queued().len() + 1
            && forall|i: int|
            0 <= i < before.queued().len() ==> after.queued()[i] == #[trigger] before.queued()[i],
        after.tokens == before.tokens,
        after.last_refill == before.last_refill,
{
    assert(before.queued().len() == before.negative_queue@.len());
}

/// A consistent guard holds no more than a thousand IDs, none of them twice, and no more
/// than ten tokens.
pub proof fn law_consistent_guards_are_bounded(guard: AntiDosState, i: int, j: int)
    requires
        guard.consistent(),
    ensures
        guard.negative_queue@.len() <= 1000,
        guard.negative_cache@.len() == guard.negative_queue@.len(),
        guard.tokens <= 10,
        0 <= i < j < guard.negative_queue@.len() ==> guard.negative_queue@[i]@
            != guard.negative_queue@[j]@,
        0 <= i < guard.negative_queue@.len() ==> guard.negative_cache@.contains(
            guard.negative_queue@[i]@,
        ),
{
    let queue = guard.queued();
    assert(queue.len() == guard.negative_queue@.len());
    queue.unique_seq_to_set();
    if 0 <= i < queue.len() {
        assert(queue[i] == guard.negative_queue@[i]@);
        assert(queue.contains(queue[i]));
    }
    if 0 <= j < queue.len() {
        assert(queue[j] == guard.negative_queue@[j]@);
    }
}

/// A line that arrives a second or more after the window was opened opens a new one, and
/// is let in as its first unless nothing is.
pub proof fn law_a_new_second_opens_a_new_window(
    start: int,
    admitted: nat,
    max_per_second: nat,
    now: int,
)
    requires
        now - start >= 1_000_000_000,
    ensures
        max_per_second > 0 ==> limiters::window_after(start, admitted, max_per_second, now) == (
            now,
            1nat,
            true,
        ),
        max_per_second == 0 ==> limiters::window_after(start, admitted, max_per_second, now) == (
            now,
            0nat,
            false,
        ),
{
}

/// Within the window a line is let in exactly if fewer were than may be, and counts only
/// then.
pub proof fn law_lines_are_let_in_up_to_the_ceiling(
    start: int,
    admitted: nat,
    max_per_second: nat,
    now: int,
)
    requires
        now - start < 1_000_000_000,
    ensures
        admitted < max_per_second ==> limiters::window_after(start, admitted, max_per_second, now)
            == (start, admitted + 1, true),
        admitted >= max_per_second ==> limiters::window_after(
            start,
            admitted,
            max_per_second,
            now,
        ) == (start, admitted, false),
{
}

/// A limiter counts in its own window, up to its own ceiling, and letting a line in or
/// not does not touch the last warning.
pub proof fn law_limiters_count_in_their_own_window(
    before: GlobalRateLimiter,
    now: Instant,
    after: GlobalRateLimiter,
    let_in: bool,
)
    requires
        before.acquires(now, after, let_in),
    ensures
        ({
            let (start, admitted, granted) = limiters::window_after(
                limiters::instant_nanos(before.window_start),
                before.admitted as nat,
                before.max_per_second as nat,
                limiters::instant_nanos(now),
            );
            &&& limiters::instant_nanos(after.window_start) == start
            &&& after.admitted == admitted
            &&& let_in == granted
        }),
        after.last_warning == before.last_warning,
        after.max_per_second == before.max_per_second,
        before.within_ceiling() ==> after.admitted <= after.max_per_second,
{
}

/// The first warning is given at once, a later one five seconds after the last, and a
/// warning that is given is the last one from then on.
pub proof fn law_warnings_wait_five_seconds(
    before: GlobalRateLimiter,
    now: Instant,
    after: GlobalRateLimiter,
    warned: bool,
)
    requires
        before.warns(now, after, warned),
    ensures
        before.last_warning is None ==> warned,
        before.last_warning matches Some(last) ==> (warned <==> limiters::instant_nanos(now)
            - limiters::instant_nanos(last) >= 5_000_000_000),
        warned ==> after.last_warning == Some(now),
        !warned ==> after.last_warning == before.last_warning,
        after.window_start == before.window_start,
        after.admitted == before.admitted,
        after.max_per_second == before.max_per_second,
{
}

/// Ten thousand lines are let in per second, ten lookups are granted, and a thousand
/// missing containers are remembered.
pub proof fn law_limits_have_their_values()
    ensures
        crate::ingestion::MAX_LINES_PER_SECOND == 10000,
        limiters::MAX_LOOKUP_TOKENS == 10,
        limiters::MAX_NEGATIVE_CACHE == 1000,
        limiters::WARNING_INTERVAL_SECONDS == 5,
{
}

} // verus!
