//! Routing of orders to workers: one worker per container, and no more workers than
//! the configuration allows.
use crate::logger::{LogEvent, LogEventView};
use vstd::hash_map::StringHashMap;
use vstd::prelude::*;

verus! {

/// How many orders wait for a worker at most.
pub const WORKER_QUEUE_DEPTH: usize = 64;

/// How long a worker waits for an order before it goes, in seconds.
pub const WORKER_IDLE_SECONDS: u64 = 30;

/// The workers by the containers that they serve, each with the channel to it.
#[verifier::reject_recursive_types(T)]
pub struct WorkerRegistry<T> {
    pub workers: StringHashMap<T>,
    pub max_workers: usize,
}

/// Where an order goes.
#[derive(Debug)]
pub enum Route {
    /// To the worker that serves the container.
    Existing,
    /// To a worker that is yet to be started.
    Spawn,
    /// Nowhere: there are too many workers, and the log says so.
    Refused { event: LogEvent },
}

/// What came of handing an order to a worker.
#[derive(Debug, Clone, Copy, PartialEq, Eq, Structural)]
pub enum SendOutcome {
    Sent,
    Full,
    Disconnected,
}

/// What the log says about the routing of an order.
pub open spec fn route_entry(
    level: Seq<char>,
    rule: Seq<char>,
    container_id: Seq<char>,
    status: Seq<char>,
    details: Seq<char>,
) -> LogEventView {
    LogEventView::plain(level, "orchestrator"@, status, details).under_rule(rule).about(
        container_id,
    ).on_action("route"@)
}

/// What the log says when there are too many workers.
pub open spec fn ceiling_entry(rule: Seq<char>, container_id: Seq<char>) -> LogEventView {
    route_entry(
        "CRITICAL"@,
        rule,
        container_id,
        "OOM_PREVENTION"@,
        "Maximum worker thread ceiling reached. Malicious ID flood detected. Payload dropped."@,
    )
}

/// Writes an entry about the routing of an order.
fn route_event(
    level: &str,
    rule: &str,
    container_id: &str,
    status: &str,
    details: &str,
) -> (r: LogEvent)
    ensures
        r@ == route_entry(level@, rule@, container_id@, status@, details@),
{
    LogEvent::plain(level, "orchestrator", status, details.to_owned()).under_rule(rule).about(
        container_id,
    ).on_action("route")
}

impl<T> WorkerRegistry<T> {
    /// There are no more workers than there may be.
    pub open spec fn within_ceiling(self) -> bool {
        &&& self.workers@.dom().finite()
        &&& self.workers@.len() <= self.max_workers
    }

    /// No workers yet.
    pub fn new(max_workers: usize) -> (r: Self)
        ensures
            r.within_ceiling(),
            r.workers@ == Map::<Seq<char>, T>::empty(),
            r.max_workers == max_workers,
    {
        WorkerRegistry { workers: StringHashMap::new(), max_workers }
    }

    /// The channel to the worker of a container.
    pub fn channel(&self, container_id: &str) -> (r: Option<&T>)
        ensures
            r is Some <==> self.workers@.contains_key(container_id@),
            r is Some ==> *r->0 == self.workers@[container_id@],
    {
        self.workers.get(container_id)
    }

    /// Decides where an order goes.
    pub fn route(&self, container_id: &str, rule: &str) -> (r: Route)
        ensures
            r is Existing <==> self.workers@.contains_key(container_id@),
            r is Refused <==> !self.workers@.contains_key(container_id@) && self.workers@.len()
                >= self.max_workers,
            r matches Route::Refused { event } ==> event@ == ceiling_entry(rule@, container_id@),
    {
        if self.workers.contains_key(container_id) {
            return Route::Existing;
        }
        if self.workers.len() >= self.max_workers {
            return Route::Refused {
                event: route_event(
                    "CRITICAL",
                    rule,
                    container_id,
                    "OOM_PREVENTION",
                    "Maximum worker thread ceiling reached. Malicious ID flood detected. Payload dropped.",
                ),
            };
        }
        Route::Spawn
    }

    /// Enters a new worker, unless its container has one or there are too many.
    /// Tells whether the worker was entered.
    pub fn enlist(&mut self, container_id: String, channel: T) -> (r: bool)
        ensures
            r == (!old(self).workers@.contains_key(container_id@) && old(self).workers@.len()
                < old(self).max_workers),
            final(self).workers@ == (if r {
                old(self).workers@.insert(container_id@, channel)
            } else {
                old(self).workers@
            }),
            final(self).max_workers == old(self).max_workers,
            old(self).within_ceiling() ==> final(self).within_ceiling(),
    {
        if self.workers.contains_key(container_id.as_str()) || self.workers.len()
            >= self.max_workers {
            return false;
        }
        self.workers.insert(container_id, channel);
        true
    }

    /// Strikes out the worker of a container.
    pub fn retire(&mut self, container_id: &str)
        ensures
            final(self).workers@ == old(self).workers@.remove(container_id@),
            final(self).max_workers == old(self).max_workers,
            old(self).within_ceiling() ==> final(self).within_ceiling(),
    {
        self.workers.remove(container_id);
        proof {
            if old(self).within_ceiling() {
                let before = old(self).workers@.dom();
                assert(self.workers@.dom() =~= before.remove(container_id@));
                vstd::set_lib::lemma_len_subset(before.remove(container_id@), before);
            }
        }
    }
}

/// What the log says of handing an order to a worker that was just started.
pub open spec fn send_entry(
    outcome: SendOutcome,
    rule: Seq<char>,
    container_id: Seq<char>,
) -> Option<LogEventView> {
    match outcome {
        SendOutcome::Sent => None,
        SendOutcome::Full => Some(
            route_entry(
                "CRITICAL"@,
                rule,
                container_id,
                "DROPPED"@,
                "Worker execution queue full. Action dropped to prevent OOM."@,
            ),
        ),
        SendOutcome::Disconnected => Some(
            route_entry(
                "ERROR"@,
                rule,
                container_id,
                "FAIL"@,
                "Worker channel broken unexpectedly."@,
            ),
        ),
    }
}

/// Judges what came of handing an order to a worker. Where the worker was there
/// before, nothing is said of it.
pub fn judge_send(
    outcome: SendOutcome,
    just_started: bool,
    rule: &str,
    container_id: &str,
) -> (r: Option<LogEvent>)
    ensures
        r is Some <==> just_started && send_entry(outcome, rule@, container_id@) is Some,
        r is Some ==> send_entry(outcome, rule@, container_id@) == Some(r->0@),
{
    if !just_started {
        return None;
    }
    match outcome {
        SendOutcome::Sent => None,
        SendOutcome::Full => Some(
            route_event(
                "CRITICAL",
                rule,
                container_id,
                "DROPPED",
                "Worker execution queue full. Action dropped to prevent OOM.",
            ),
        ),
        SendOutcome::Disconnected => Some(
            route_event(
                "ERROR",
                rule,
                container_id,
                "FAIL",
                "Worker channel broken unexpectedly.",
            ),
        ),
    }
}

/// What a worker does next.
#[derive(Debug, Clone, Copy, PartialEq, Eq, Structural)]
pub enum WorkerStep {
    /// It carries out the order that it got, and then waits for the next.
    CarryOut,
    /// It locks the registry and looks once more for an order that came late.
    LookAgain,
    /// It strikes itself out of the registry and goes.
    Retire,
}

/// Decides what a worker does that waited for an order, or looked for a late one while
/// no other could be sent to it. A worker goes only if there is no order even then, so
/// that none is lost.
pub fn worker_step(got_order: bool, registry_locked: bool) -> (r: WorkerStep)
    ensures
        r == (if got_order {
            WorkerStep::CarryOut
        } else if !registry_locked {
            WorkerStep::LookAgain
        } else {
            WorkerStep::Retire
        }),
        r is Retire ==> registry_locked && !got_order,
{
    if got_order {
        WorkerStep::CarryOut
    } else if !registry_locked {
        WorkerStep::LookAgain
    } else {
        WorkerStep::Retire
    }
}

} // verus!
