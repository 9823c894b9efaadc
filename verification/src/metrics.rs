//! Session-lifecycle counters shared by the adapter, the acceptor and the
//! connector.
//!
//! A churn test reads these to decide whether it passed: after traffic
//! quiesces, `sessions_active`, `registrations_pending` and `tasks_live` must
//! all be zero, and `registrations_orphaned` must not have grown.
use vstd::prelude::*;

use prometheus_client::metrics::counter::Counter;
use prometheus_client::metrics::family::Family;
use prometheus_client::metrics::gauge::Gauge;
use prometheus_client::registry::Registry;

use crate::split::rejoined;
use crate::text::push_signed;

verus! {

/// `prometheus_client`'s counter. Its value is an atomic that every clone
/// shares and any thread may move, so nothing is stated of what it reads.
#[verifier::external_type_specification]
#[verifier::external_body]
#[verifier::reject_recursive_types(N)]
#[verifier::reject_recursive_types(A)]
pub struct ExCounter<N, A>(prometheus_client::metrics::counter::Counter<N, A>);

/// `prometheus_client`'s gauge, shared as a counter is.
#[verifier::external_type_specification]
#[verifier::external_body]
#[verifier::reject_recursive_types(N)]
#[verifier::reject_recursive_types(A)]
pub struct ExGauge<N, A>(prometheus_client::metrics::gauge::Gauge<N, A>);

/// `prometheus_client`'s registry.
#[verifier::external_type_specification]
#[verifier::external_body]
pub struct ExRegistry(prometheus_client::registry::Registry);

/// `prometheus_client`'s family of counters, one per set of label pairs. The
/// family's own type names a function pointer, so it is held in here.
#[verifier::external_body]
#[derive(Debug)]
pub struct Events {
    family: Family<Vec<(String, String)>, Counter>,
}

/// What a registry exposes.
pub enum Metric {
    Counter(Counter),
    Gauge(Gauge),
    Events(Events),
}

/// What has been registered in a registry, in order: the name, the help text
/// and the metric. Of two metrics that are the same, one shares its value with
/// the other.
pub uninterp spec fn registered(registry: Registry) -> Seq<(Seq<char>, Seq<char>, Metric)>;

/// `Registry::register` of a counter: it is added under the name and the help
/// text, behind what is there.
#[verifier::external_body]
fn register_counter(registry: &mut Registry, name: &str, help: &str, metric: Counter)
    ensures
        registered(*final(registry)) == registered(*old(registry)).push(
            (name@, help@, Metric::Counter(metric)),
        ),
{
    registry.register(name, help, metric)
}

/// `Registry::register` of a gauge: it is added under the name and the help
/// text, behind what is there.
#[verifier::external_body]
fn register_gauge(registry: &mut Registry, name: &str, help: &str, metric: Gauge)
    ensures
        registered(*final(registry)) == registered(*old(registry)).push(
            (name@, help@, Metric::Gauge(metric)),
        ),
{
    registry.register(name, help, metric)
}

/// `Registry::register` of a family of counters: it is added under the name
/// and the help text, behind what is there.
#[verifier::external_body]
fn register_events(registry: &mut Registry, name: &str, help: &str, metric: Events)
    ensures
        registered(*final(registry)) == registered(*old(registry)).push(
            (name@, help@, Metric::Events(metric)),
        ),
{
    registry.register(name, help, metric.family)
}

/// `Counter::default`: a counter at zero that shares its value with no other
/// yet, so it is none of those that are there. What it reads later is left
/// unsaid.
#[verifier::external_body]
fn new_counter(_there: &Vec<Counter>) -> (r: Counter)
    ensures
        !_there@.contains(r),
{
    Counter::default()
}

/// `Gauge::default`: a gauge at zero that shares its value with no other yet,
/// so it is none of those that are there. What it reads later is left unsaid.
#[verifier::external_body]
fn new_gauge(_there: &Vec<Gauge>) -> (r: Gauge)
    ensures
        !_there@.contains(r),
{
    Gauge::default()
}

/// `Counter::clone`: the same counter, by another handle.
#[verifier::external_body]
fn same_counter(counter: &Counter) -> (r: Counter)
    ensures
        r == *counter,
{
    counter.clone()
}

/// `Gauge::clone`: the same gauge, by another handle.
#[verifier::external_body]
fn same_gauge(gauge: &Gauge) -> (r: Gauge)
    ensures
        r == *gauge,
{
    gauge.clone()
}

/// `Family::clone`: the same family, by another handle.
#[verifier::external_body]
fn same_events(events: &Events) -> (r: Events)
    ensures
        r == *events,
{
    Events { family: events.family.clone() }
}

/// `Counter::inc`: one more.
#[verifier::external_body]
fn count_one(counter: &Counter) {
    counter.inc();
}

/// `Counter::inc_by`: `n` more.
#[verifier::external_body]
fn count_many(counter: &Counter, n: u64) {
    counter.inc_by(n);
}

/// `Gauge::inc_by`: `n` more, or less where `n` is negative.
#[verifier::external_body]
fn move_gauge(gauge: &Gauge, n: i64) {
    gauge.inc_by(n);
}

/// `Counter::get`: the value at that moment.
#[verifier::external_body]
fn read_counter(counter: &Counter) -> u64 {
    counter.get()
}

/// `Gauge::get`: the value at that moment.
#[verifier::external_body]
fn read_gauge(gauge: &Gauge) -> i64 {
    gauge.get()
}

/// `Family::get_or_create`, and one more of the counter it returns.
#[verifier::external_body]
fn count_labelled(events: &Events, labels: &Vec<(String, String)>) {
    events.family.get_or_create(labels).inc();
}

/// `Family::default`: a family without a counter that shares its counters with
/// no other yet, so it is none of those that are there. What is counted in it
/// later is left unsaid.
#[verifier::external_body]
fn new_events(_there: &Vec<Events>) -> (r: Events)
    ensures
        !_there@.contains(r),
{
    Events { family: Family::default() }
}

/// `value` came back from a read of the counter.
pub closed spec fn counter_read(counter: Counter, value: u64) -> bool {
    call_ensures(read_counter, (&counter,), value)
}

/// `value` came back from a read of the gauge.
pub closed spec fn gauge_read(gauge: Gauge, value: i64) -> bool {
    call_ensures(read_gauge, (&gauge,), value)
}

/// One was added to the counter.
pub closed spec fn counted(counter: Counter) -> bool {
    call_ensures(count_one, (&counter,), ())
}

/// `n` was added to the counter.
pub closed spec fn counted_by(counter: Counter, n: u64) -> bool {
    call_ensures(count_many, (&counter, n), ())
}

/// The gauge was moved by `n`.
pub closed spec fn moved_by(gauge: Gauge, n: i64) -> bool {
    call_ensures(move_gauge, (&gauge, n), ())
}

/// One was added to the family's counter of the label pairs.
pub closed spec fn event_counted(events: Events, pairs: Seq<(Seq<char>, Seq<char>)>) -> bool {
    exists|labels: &Vec<(String, String)>|
        labels_are(labels@, pairs) && #[trigger] call_ensures(
            count_labelled,
            (&events, labels),
            (),
        )
}

/// Add one to a counter.
pub(crate) fn count(counter: &Counter)
    ensures
        counted(*counter),
{
    count_one(counter);
}

/// Add `n` to a counter.
pub(crate) fn count_by(counter: &Counter, n: u64)
    ensures
        counted_by(*counter, n),
{
    count_many(counter, n);
}

/// Move a gauge by `n`.
pub(crate) fn move_by(gauge: &Gauge, n: i64)
    ensures
        moved_by(*gauge, n),
{
    move_gauge(gauge, n);
}

/// The counter was made by `Counter::default`, which starts it at zero.
pub closed spec fn counter_made(counter: Counter) -> bool {
    exists|there: &Vec<Counter>| #[trigger] call_ensures(new_counter, (there,), counter)
}

/// The gauge was made by `Gauge::default`, which starts it at zero.
pub closed spec fn gauge_made(gauge: Gauge) -> bool {
    exists|there: &Vec<Gauge>| #[trigger] call_ensures(new_gauge, (there,), gauge)
}

/// So many counters, of which no two are the same.
fn new_counters(n: usize) -> (r: Vec<Counter>)
    ensures
        r@.len() == n,
        r@.no_duplicates(),
        forall|i: int| 0 <= i < r@.len() ==> counter_made(#[trigger] r@[i]),
{
    let mut made: Vec<Counter> = Vec::new();
    while made.len() < n
        invariant
            made@.len() <= n,
            made@.no_duplicates(),
            forall|i: int| 0 <= i < made@.len() ==> counter_made(#[trigger] made@[i]),
        decreases n - made@.len(),
    {
        let next = new_counter(&made);
        assert(call_ensures(new_counter, (&made,), next));
        assert(counter_made(next));
        made.push(next);
    }
    made
}

/// So many gauges, of which no two are the same.
fn new_gauges(n: usize) -> (r: Vec<Gauge>)
    ensures
        r@.len() == n,
        r@.no_duplicates(),
        forall|i: int| 0 <= i < r@.len() ==> gauge_made(#[trigger] r@[i]),
{
    let mut made: Vec<Gauge> = Vec::new();
    while made.len() < n
        invariant
            made@.len() <= n,
            made@.no_duplicates(),
            forall|i: int| 0 <= i < made@.len() ==> gauge_made(#[trigger] made@[i]),
        decreases n - made@.len(),
    {
        let next = new_gauge(&made);
        assert(call_ensures(new_gauge, (&made,), next));
        assert(gauge_made(next));
        made.push(next);
    }
    made
}

impl Events {
    /// The family was made by `Family::default`, which starts it without a
    /// counter.
    pub closed spec fn made(self) -> bool {
        exists|there: &Vec<Events>| #[trigger] call_ensures(new_events, (there,), self)
    }

    /// A family without a counter.
    pub fn new() -> (r: Events)
        ensures
            r.made(),
    {
        Events::beside(&Vec::new())
    }

    /// A family without a counter, which is none of those that are there.
    fn beside(there: &Vec<Events>) -> (r: Events)
        ensures
            r.made(),
            !there@.contains(r),
    {
        let events = new_events(there);
        assert(call_ensures(new_events, (there,), events));
        events
    }
}

/// A label set of one pair.
pub open spec fn labels_are(labels: Seq<(String, String)>, pairs: Seq<(Seq<char>, Seq<char>)>) -> bool {
    &&& labels.len() == pairs.len()
    &&& forall|i: int|
        0 <= i < pairs.len() ==> (#[trigger] labels[i]).0@ == pairs[i].0 && labels[i].1@ == pairs[i].1
}

/// Why a control-plane admission decision was reached.
#[derive(Debug)]
pub struct ControlEventLabels {
    /// The decision surface: `grant`, `membership`, `revocation` or `peer`.
    pub kind: String,
    /// A stable lowercase slug, `ok` for the accepting outcome.
    pub reason: String,
}

impl ControlEventLabels {
    /// The label pairs, in the order they are exposed.
    pub fn pairs(&self) -> (r: Vec<(String, String)>)
        ensures
            labels_are(r@, seq![("kind"@, self.kind@), ("reason"@, self.reason@)]),
    {
        let mut labels: Vec<(String, String)> = Vec::new();
        labels.push(("kind".to_owned(), self.kind.clone()));
        labels.push(("reason".to_owned(), self.reason.clone()));
        labels
    }
}

/// Why the adapter refused a session.
#[derive(Debug)]
pub struct DeclineLabels {
    pub reason: String,
}

impl DeclineLabels {
    /// The label pairs.
    pub fn pairs(&self) -> (r: Vec<(String, String)>)
        ensures
            labels_are(r@, seq![("reason"@, self.reason@)]),
    {
        let mut labels: Vec<(String, String)> = Vec::new();
        labels.push(("reason".to_owned(), self.reason.clone()));
        labels
    }
}

/// Count one control-plane admission decision.
///
/// Registration decisions are taken on one thread and peer refusals on
/// another, so one family is shared by the whole process.
pub fn record_control_event(control_events: &Events, kind: &str, reason: &str)
    ensures
        event_counted(*control_events, seq![("kind"@, kind@), ("reason"@, reason@)]),
{
    let labels = ControlEventLabels { kind: kind.to_owned(), reason: reason.to_owned() };
    let pairs = labels.pairs();
    count_labelled(control_events, &pairs);
    assert(call_ensures(count_labelled, (control_events, &pairs), ()));
}

/// The counters of one worker.
#[derive(Debug)]
pub struct SessionMetrics {
    /// Sessions the adapter opened.
    pub sessions_opened: Counter,
    /// Sessions the adapter closed.
    pub sessions_closed: Counter,
    /// Sessions the adapter is carrying.
    pub sessions_active: Gauge,
    /// Endpoints registered with the acceptor and not yet bound to a session.
    pub registrations_pending: Gauge,
    /// Registrations that arrived for a session that had already closed.
    pub registrations_orphaned: Counter,
    /// Endpoints aborted by a close, a poison or a worker stop.
    pub endpoints_aborted: Counter,
    /// Connection tasks the acceptor is driving.
    pub tasks_live: Gauge,
    /// Connection tasks cancelled by a close rather than by completion.
    pub tasks_cancelled: Counter,
    /// Backend channels a connector could not take.
    pub backend_take_errors: Counter,
    /// Discovery selected a target outside the authoritative service snapshot.
    pub backend_target_mismatches: Counter,
    /// The session a connection carried disagreed with the one its stack was
    /// built for.
    pub backend_session_mismatches: Counter,
    /// Sessionless connects to a DMesh-provided address refused rather than
    /// dialled over TCP.
    pub backend_sessionless_refusals: Counter,
    /// Per-session outbound stacks built for DPUmesh frontend connections.
    pub session_stack_builds: Counter,
    /// Frontend connections served by a reused per-workload outbound stack.
    pub session_stack_cache_hits: Counter,
    /// Frontend connections that had to build their workload's outbound stack.
    pub session_stack_cache_misses: Counter,
    /// Time spent cloning/configuring the per-session outbound template.
    pub session_stack_configure_nanoseconds: Counter,
    /// Time spent constructing the per-session outbound layers.
    pub session_stack_layers_nanoseconds: Counter,
    /// Time spent instantiating the target service from those layers.
    pub session_stack_service_nanoseconds: Counter,
    /// Slots withdrawn from reuse because their generation space ran out.
    pub slots_retired: Gauge,
    /// Calls into the C worker's drain path.
    pub worker_drain_calls: Counter,
    /// Drain calls that moved Linkerd or transport work.
    pub worker_drain_progressed: Counter,
    /// Drain calls that retained work behind backpressure.
    pub worker_drain_pending: Counter,
    /// Drain calls that found no work.
    pub worker_drain_idle: Counter,
    /// Drain calls where the completion PE made progress.
    pub worker_pe_progressed: Counter,
    /// Drain calls where the routing/proxy path made progress.
    pub worker_data_progressed: Counter,
    /// Times the runtime armed its notification sources.
    pub worker_arms: Counter,
    /// Times the runtime cleared armed notification sources.
    pub worker_notification_clears: Counter,
    /// Worker maintenance calls. This must continue advancing even when idle.
    pub worker_maintenances: Counter,
    /// DPA completions processed by their local worker.
    pub worker_local_completions: Counter,
    /// Completions handed to a different worker.
    pub worker_cross_out: Counter,
    /// Cross-worker completions consumed by their owner.
    pub worker_cross_in: Counter,
    /// Milliseconds since this runtime last made observable progress.
    pub worker_last_progress_age_milliseconds: Gauge,
    /// Completions waiting on the worker's DPA receive queue.
    pub worker_completion_queue_depth: Gauge,
    /// Completions waiting in the cross-worker handoff queue.
    pub worker_cross_queue_depth: Gauge,
    /// Receive tasks held back by queue pressure.
    pub worker_deferred_receives: Gauge,
    /// Submitted DMA tasks whose callbacks have not completed.
    pub worker_dma_tasks_inflight: Gauge,
    /// DMA batches waiting for a serialized retry probe.
    pub worker_dma_retry_batches: Gauge,
    /// Whether the worker's DMA context is faulted.
    pub worker_dma_stalled: Gauge,
    /// Connections parked behind proxy resource pressure.
    pub worker_stalled_connections: Gauge,
    /// Whether completed output still waits to be emitted.
    pub worker_emit_pending: Gauge,
    /// ACK releases waiting in the worker queue.
    pub worker_ack_release_depth: Gauge,
    /// Whether an ACK release waits on the fallback retry list.
    pub worker_ack_retry_pending: Gauge,
    /// Remote FINs waiting for landing-lane space.
    pub worker_remote_fin_pending: Gauge,
    /// Whether the worker currently considers itself parked.
    pub worker_parked: Gauge,
    /// Whether its explicit wake eventfd holds a posted tick.
    pub worker_wake_posted: Gauge,
    /// Sessions the adapter refused, by the cause it refused them for.
    pub sessions_declined: Events,
}

pub open spec fn saturated_nanos(nanoseconds: u128) -> u64 {
    if nanoseconds <= u64::MAX {
        nanoseconds as u64
    } else {
        u64::MAX
    }
}

/// Saturate a number of nanoseconds.
pub fn nanos(nanoseconds: u128) -> (r: u64)
    ensures
        r == saturated_nanos(nanoseconds),
{
    if nanoseconds <= u64::MAX as u128 {
        nanoseconds as u64
    } else {
        u64::MAX
    }
}

impl SessionMetrics {
    /// The metrics, with what they are registered as.
    pub open spec fn table(self, control_events: Events) -> Seq<(Seq<char>, Seq<char>, Metric)> {
        self.session_table() + self.worker_counter_table() + self.worker_gauge_table()
            + self.labelled_table(control_events)
    }

    /// What a session's life moves.
    pub open spec fn session_table(self) -> Seq<(Seq<char>, Seq<char>, Metric)> {
        seq![
            (
                "sessions_opened"@,
                "DPUmesh sessions opened"@,
                Metric::Counter(self.sessions_opened),
            ),
            (
                "sessions_closed"@,
                "DPUmesh sessions closed"@,
                Metric::Counter(self.sessions_closed),
            ),
            (
                "sessions_active"@,
                "DPUmesh sessions currently carried by the adapter"@,
                Metric::Gauge(self.sessions_active),
            ),
            (
                "registrations_pending"@,
                "Endpoints registered with the acceptor and not yet bound to a session"@,
                Metric::Gauge(self.registrations_pending),
            ),
            (
                "registrations_orphaned"@,
                "Registrations that arrived after their session closed"@,
                Metric::Counter(self.registrations_orphaned),
            ),
            (
                "endpoints_aborted"@,
                "DPUmesh endpoints aborted by a close, a poison or a worker stop"@,
                Metric::Counter(self.endpoints_aborted),
            ),
            (
                "tasks_live"@,
                "Connection tasks the DPUmesh acceptor is driving"@,
                Metric::Gauge(self.tasks_live),
            ),
            (
                "tasks_cancelled"@,
                "Connection tasks cancelled by a session close"@,
                Metric::Counter(self.tasks_cancelled),
            ),
            (
                "backend_take_errors"@,
                "Backend channels a connector could not take"@,
                Metric::Counter(self.backend_take_errors),
            ),
            (
                "backend_target_mismatches"@,
                "Linkerd-selected targets rejected outside the authoritative DPUmesh Service"@,
                Metric::Counter(self.backend_target_mismatches),
            ),
            (
                "backend_session_mismatches"@,
                "Connections whose carried session disagreed with their stack's"@,
                Metric::Counter(self.backend_session_mismatches),
            ),
            (
                "backend_sessionless_refusals"@,
                "Sessionless connects to DMesh-provided addresses refused"@,
                Metric::Counter(self.backend_sessionless_refusals),
            ),
            (
                "session_stack_builds"@,
                "Per-session DPUmesh outbound stacks built"@,
                Metric::Counter(self.session_stack_builds),
            ),
            (
                "session_stack_cache_hits"@,
                "Frontend connections served by a reused per-workload outbound stack"@,
                Metric::Counter(self.session_stack_cache_hits),
            ),
            (
                "session_stack_cache_misses"@,
                "Frontend connections that built their workload's outbound stack"@,
                Metric::Counter(self.session_stack_cache_misses),
            ),
            (
                "session_stack_configure_nanoseconds"@,
                "Nanoseconds spent cloning and configuring per-session outbound templates"@,
                Metric::Counter(self.session_stack_configure_nanoseconds),
            ),
            (
                "session_stack_layers_nanoseconds"@,
                "Nanoseconds spent constructing per-session outbound layers"@,
                Metric::Counter(self.session_stack_layers_nanoseconds),
            ),
            (
                "session_stack_service_nanoseconds"@,
                "Nanoseconds spent instantiating target services from per-session outbound layers"@,
                Metric::Counter(self.session_stack_service_nanoseconds),
            ),
            (
                "slots_retired"@,
                "Session slots withdrawn from reuse because their generations ran out"@,
                Metric::Gauge(self.slots_retired),
            ),
        ]
    }

    fn register_session_metrics(&self, registry: &mut Registry)
        ensures
            registered(*final(registry)) == registered(*old(registry)) + self.session_table(),
    {
        let ghost all = self.session_table();
        let ghost base = registered(*registry);
        assert(base =~= base + all.take(0));
        register_counter(
            registry,
            "sessions_opened",
            "DPUmesh sessions opened",
            same_counter(&self.sessions_opened),
        );
        proof {
            one_more(base, all, 0);
        }
        register_counter(
            registry,
            "sessions_closed",
            "DPUmesh sessions closed",
            same_counter(&self.sessions_closed),
        );
        proof {
            one_more(base, all, 1);
        }
        register_gauge(
            registry,
            "sessions_active",
            "DPUmesh sessions currently carried by the adapter",
            same_gauge(&self.sessions_active),
        );
        proof {
            one_more(base, all, 2);
        }
        register_gauge(
            registry,
            "registrations_pending",
            "Endpoints registered with the acceptor and not yet bound to a session",
            same_gauge(&self.registrations_pending),
        );
        proof {
            one_more(base, all, 3);
        }
        register_counter(
            registry,
            "registrations_orphaned",
            "Registrations that arrived after their session closed",
            same_counter(&self.registrations_orphaned),
        );
        proof {
            one_more(base, all, 4);
        }
        register_counter(
            registry,
            "endpoints_aborted",
            "DPUmesh endpoints aborted by a close, a poison or a worker stop",
            same_counter(&self.endpoints_aborted),
        );
        proof {
            one_more(base, all, 5);
        }
        register_gauge(
            registry,
            "tasks_live",
            "Connection tasks the DPUmesh acceptor is driving",
            same_gauge(&self.tasks_live),
        );
        proof {
            one_more(base, all, 6);
        }
        register_counter(
            registry,
            "tasks_cancelled",
            "Connection tasks cancelled by a session close",
            same_counter(&self.tasks_cancelled),
        );
        proof {
            one_more(base, all, 7);
        }
        register_counter(
            registry,
            "backend_take_errors",
            "Backend channels a connector could not take",
            same_counter(&self.backend_take_errors),
        );
        proof {
            one_more(base, all, 8);
        }
        register_counter(
            registry,
            "backend_target_mismatches",
            "Linkerd-selected targets rejected outside the authoritative DPUmesh Service",
            same_counter(&self.backend_target_mismatches),
        );
        proof {
            one_more(base, all, 9);
        }
        register_counter(
            registry,
            "backend_session_mismatches",
            "Connections whose carried session disagreed with their stack's",
            same_counter(&self.backend_session_mismatches),
        );
        proof {
            one_more(base, all, 10);
        }
        register_counter(
            registry,
            "backend_sessionless_refusals",
            "Sessionless connects to DMesh-provided addresses refused",
            same_counter(&self.backend_sessionless_refusals),
        );
        proof {
            one_more(base, all, 11);
        }
        register_counter(
            registry,
            "session_stack_builds",
            "Per-session DPUmesh outbound stacks built",
            same_counter(&self.session_stack_builds),
        );
        proof {
            one_more(base, all, 12);
        }
        register_counter(
            registry,
            "session_stack_cache_hits",
            "Frontend connections served by a reused per-workload outbound stack",
            same_counter(&self.session_stack_cache_hits),
        );
        proof {
            one_more(base, all, 13);
        }
        register_counter(
            registry,
            "session_stack_cache_misses",
            "Frontend connections that built their workload's outbound stack",
            same_counter(&self.session_stack_cache_misses),
        );
        proof {
            one_more(base, all, 14);
        }
        register_counter(
            registry,
            "session_stack_configure_nanoseconds",
            "Nanoseconds spent cloning and configuring per-session outbound templates",
            same_counter(&self.session_stack_configure_nanoseconds),
        );
        proof {
            one_more(base, all, 15);
        }
        register_counter(
            registry,
            "session_stack_layers_nanoseconds",
            "Nanoseconds spent constructing per-session outbound layers",
            same_counter(&self.session_stack_layers_nanoseconds),
        );
        proof {
            one_more(base, all, 16);
        }
        register_counter(
            registry,
            "session_stack_service_nanoseconds",
            "Nanoseconds spent instantiating target services from per-session outbound layers",
            same_counter(&self.session_stack_service_nanoseconds),
        );
        proof {
            one_more(base, all, 17);
        }
        register_gauge(
            registry,
            "slots_retired",
            "Session slots withdrawn from reuse because their generations ran out",
            same_gauge(&self.slots_retired),
        );
        proof {
            one_more(base, all, 18);
        }
        assert(all.take(19) =~= all);
    }

    /// What the worker counts.
    pub open spec fn worker_counter_table(self) -> Seq<(Seq<char>, Seq<char>, Metric)> {
        seq![
            (
                "worker_drain_calls"@,
                "Calls into the DPUmesh worker drain path"@,
                Metric::Counter(self.worker_drain_calls),
            ),
            (
                "worker_drain_progressed"@,
                "DPUmesh worker drain calls that made progress"@,
                Metric::Counter(self.worker_drain_progressed),
            ),
            (
                "worker_drain_pending"@,
                "DPUmesh worker drain calls retaining pending work"@,
                Metric::Counter(self.worker_drain_pending),
            ),
            (
                "worker_drain_idle"@,
                "DPUmesh worker drain calls that found no work"@,
                Metric::Counter(self.worker_drain_idle),
            ),
            (
                "worker_pe_progressed"@,
                "DPUmesh worker drains progressed by the completion PE"@,
                Metric::Counter(self.worker_pe_progressed),
            ),
            (
                "worker_data_progressed"@,
                "DPUmesh worker drains progressed by routing or proxy work"@,
                Metric::Counter(self.worker_data_progressed),
            ),
            (
                "worker_arms"@,
                "DPUmesh worker notification arm calls"@,
                Metric::Counter(self.worker_arms),
            ),
            (
                "worker_notification_clears"@,
                "DPUmesh worker notification clear calls"@,
                Metric::Counter(self.worker_notification_clears),
            ),
            (
                "worker_maintenances"@,
                "DPUmesh worker maintenance calls"@,
                Metric::Counter(self.worker_maintenances),
            ),
            (
                "worker_local_completions"@,
                "DPA completions processed by their local DPUmesh worker"@,
                Metric::Counter(self.worker_local_completions),
            ),
            (
                "worker_cross_out"@,
                "DPA completions handed to another DPUmesh worker"@,
                Metric::Counter(self.worker_cross_out),
            ),
            (
                "worker_cross_in"@,
                "Cross-worker completions processed by their owner"@,
                Metric::Counter(self.worker_cross_in),
            ),
        ]
    }

    fn register_worker_counters(&self, registry: &mut Registry)
        ensures
            registered(*final(registry)) == registered(*old(registry)) + self.worker_counter_table(),
    {
        let ghost all = self.worker_counter_table();
        let ghost base = registered(*registry);
        assert(base =~= base + all.take(0));
        register_counter(
            registry,
            "worker_drain_calls",
            "Calls into the DPUmesh worker drain path",
            same_counter(&self.worker_drain_calls),
        );
        proof {
            one_more(base, all, 0);
        }
        register_counter(
            registry,
            "worker_drain_progressed",
            "DPUmesh worker drain calls that made progress",
            same_counter(&self.worker_drain_progressed),
        );
        proof {
            one_more(base, all, 1);
        }
        register_counter(
            registry,
            "worker_drain_pending",
            "DPUmesh worker drain calls retaining pending work",
            same_counter(&self.worker_drain_pending),
        );
        proof {
            one_more(base, all, 2);
        }
        register_counter(
            registry,
            "worker_drain_idle",
            "DPUmesh worker drain calls that found no work",
            same_counter(&self.worker_drain_idle),
        );
        proof {
            one_more(base, all, 3);
        }
        register_counter(
            registry,
            "worker_pe_progressed",
            "DPUmesh worker drains progressed by the completion PE",
            same_counter(&self.worker_pe_progressed),
        );
        proof {
            one_more(base, all, 4);
        }
        register_counter(
            registry,
            "worker_data_progressed",
            "DPUmesh worker drains progressed by routing or proxy work",
            same_counter(&self.worker_data_progressed),
        );
        proof {
            one_more(base, all, 5);
        }
        register_counter(
            registry,
            "worker_arms",
            "DPUmesh worker notification arm calls",
            same_counter(&self.worker_arms),
        );
        proof {
            one_more(base, all, 6);
        }
        register_counter(
            registry,
            "worker_notification_clears",
            "DPUmesh worker notification clear calls",
            same_counter(&self.worker_notification_clears),
        );
        proof {
            one_more(base, all, 7);
        }
        register_counter(
            registry,
            "worker_maintenances",
            "DPUmesh worker maintenance calls",
            same_counter(&self.worker_maintenances),
        );
        proof {
            one_more(base, all, 8);
        }
        register_counter(
            registry,
            "worker_local_completions",
            "DPA completions processed by their local DPUmesh worker",
            same_counter(&self.worker_local_completions),
        );
        proof {
            one_more(base, all, 9);
        }
        register_counter(
            registry,
            "worker_cross_out",
            "DPA completions handed to another DPUmesh worker",
            same_counter(&self.worker_cross_out),
        );
        proof {
            one_more(base, all, 10);
        }
        register_counter(
            registry,
            "worker_cross_in",
            "Cross-worker completions processed by their owner",
            same_counter(&self.worker_cross_in),
        );
        proof {
            one_more(base, all, 11);
        }
        assert(all.take(12) =~= all);
    }

    /// What the worker measures.
    pub open spec fn worker_gauge_table(self) -> Seq<(Seq<char>, Seq<char>, Metric)> {
        seq![
            (
                "worker_last_progress_age_milliseconds"@,
                "Milliseconds since the DPUmesh worker last made progress"@,
                Metric::Gauge(self.worker_last_progress_age_milliseconds),
            ),
            (
                "worker_completion_queue_depth"@,
                "DPA receive completions waiting on this DPUmesh worker"@,
                Metric::Gauge(self.worker_completion_queue_depth),
            ),
            (
                "worker_cross_queue_depth"@,
                "Cross-worker completions waiting on this DPUmesh worker"@,
                Metric::Gauge(self.worker_cross_queue_depth),
            ),
            (
                "worker_deferred_receives"@,
                "Receive tasks held back by DPUmesh completion queue pressure"@,
                Metric::Gauge(self.worker_deferred_receives),
            ),
            (
                "worker_dma_tasks_inflight"@,
                "DPUmesh DMA tasks waiting for completion callbacks"@,
                Metric::Gauge(self.worker_dma_tasks_inflight),
            ),
            (
                "worker_dma_retry_batches"@,
                "DPUmesh DMA batches waiting for retry"@,
                Metric::Gauge(self.worker_dma_retry_batches),
            ),
            (
                "worker_dma_stalled"@,
                "Whether the DPUmesh worker DMA context is faulted"@,
                Metric::Gauge(self.worker_dma_stalled),
            ),
            (
                "worker_stalled_connections"@,
                "DPUmesh connections parked behind proxy resource pressure"@,
                Metric::Gauge(self.worker_stalled_connections),
            ),
            (
                "worker_emit_pending"@,
                "Whether DPUmesh output waits for completion emission"@,
                Metric::Gauge(self.worker_emit_pending),
            ),
            (
                "worker_ack_release_depth"@,
                "DPUmesh ACK releases waiting in the worker queue"@,
                Metric::Gauge(self.worker_ack_release_depth),
            ),
            (
                "worker_ack_retry_pending"@,
                "Whether a DPUmesh ACK release waits on the retry list"@,
                Metric::Gauge(self.worker_ack_retry_pending),
            ),
            (
                "worker_remote_fin_pending"@,
                "Remote FINs waiting for DPUmesh landing-lane space"@,
                Metric::Gauge(self.worker_remote_fin_pending),
            ),
            (
                "worker_parked"@,
                "Whether the DPUmesh worker considers itself parked"@,
                Metric::Gauge(self.worker_parked),
            ),
            (
                "worker_wake_posted"@,
                "Whether the DPUmesh worker wake eventfd holds a posted tick"@,
                Metric::Gauge(self.worker_wake_posted),
            ),
        ]
    }

    fn register_worker_gauges(&self, registry: &mut Registry)
        ensures
            registered(*final(registry)) == registered(*old(registry)) + self.worker_gauge_table(),
    {
        let ghost all = self.worker_gauge_table();
        let ghost base = registered(*registry);
        assert(base =~= base + all.take(0));
        register_gauge(
            registry,
            "worker_last_progress_age_milliseconds",
            "Milliseconds since the DPUmesh worker last made progress",
            same_gauge(&self.worker_last_progress_age_milliseconds),
        );
        proof {
            one_more(base, all, 0);
        }
        register_gauge(
            registry,
            "worker_completion_queue_depth",
            "DPA receive completions waiting on this DPUmesh worker",
            same_gauge(&self.worker_completion_queue_depth),
        );
        proof {
            one_more(base, all, 1);
        }
        register_gauge(
            registry,
            "worker_cross_queue_depth",
            "Cross-worker completions waiting on this DPUmesh worker",
            same_gauge(&self.worker_cross_queue_depth),
        );
        proof {
            one_more(base, all, 2);
        }
        register_gauge(
            registry,
            "worker_deferred_receives",
            "Receive tasks held back by DPUmesh completion queue pressure",
            same_gauge(&self.worker_deferred_receives),
        );
        proof {
            one_more(base, all, 3);
        }
        register_gauge(
            registry,
            "worker_dma_tasks_inflight",
            "DPUmesh DMA tasks waiting for completion callbacks",
            same_gauge(&self.worker_dma_tasks_inflight),
        );
        proof {
            one_more(base, all, 4);
        }
        register_gauge(
            registry,
            "worker_dma_retry_batches",
            "DPUmesh DMA batches waiting for retry",
            same_gauge(&self.worker_dma_retry_batches),
        );
        proof {
            one_more(base, all, 5);
        }
        register_gauge(
            registry,
            "worker_dma_stalled",
            "Whether the DPUmesh worker DMA context is faulted",
            same_gauge(&self.worker_dma_stalled),
        );
        proof {
            one_more(base, all, 6);
        }
        register_gauge(
            registry,
            "worker_stalled_connections",
            "DPUmesh connections parked behind proxy resource pressure",
            same_gauge(&self.worker_stalled_connections),
        );
        proof {
            one_more(base, all, 7);
        }
        register_gauge(
            registry,
            "worker_emit_pending",
            "Whether DPUmesh output waits for completion emission",
            same_gauge(&self.worker_emit_pending),
        );
        proof {
            one_more(base, all, 8);
        }
        register_gauge(
            registry,
            "worker_ack_release_depth",
            "DPUmesh ACK releases waiting in the worker queue",
            same_gauge(&self.worker_ack_release_depth),
        );
        proof {
            one_more(base, all, 9);
        }
        register_gauge(
            registry,
            "worker_ack_retry_pending",
            "Whether a DPUmesh ACK release waits on the retry list",
            same_gauge(&self.worker_ack_retry_pending),
        );
        proof {
            one_more(base, all, 10);
        }
        register_gauge(
            registry,
            "worker_remote_fin_pending",
            "Remote FINs waiting for DPUmesh landing-lane space",
            same_gauge(&self.worker_remote_fin_pending),
        );
        proof {
            one_more(base, all, 11);
        }
        register_gauge(
            registry,
            "worker_parked",
            "Whether the DPUmesh worker considers itself parked",
            same_gauge(&self.worker_parked),
        );
        proof {
            one_more(base, all, 12);
        }
        register_gauge(
            registry,
            "worker_wake_posted",
            "Whether the DPUmesh worker wake eventfd holds a posted tick",
            same_gauge(&self.worker_wake_posted),
        );
        proof {
            one_more(base, all, 13);
        }
        assert(all.take(14) =~= all);
    }

    /// What is counted by label.
    pub open spec fn labelled_table(self, control_events: Events) -> Seq<(Seq<char>, Seq<char>, Metric)> {
        seq![
            (
                "sessions_declined"@,
                "DPUmesh sessions the adapter refused, by cause"@,
                Metric::Events(self.sessions_declined),
            ),
            (
                "control_events"@,
                "Registration, membership and revocation outcomes by kind and reason"@,
                Metric::Events(control_events),
            ),
        ]
    }

    fn register_labelled(&self, registry: &mut Registry, control_events: &Events)
        ensures
            registered(*final(registry)) == registered(*old(registry)) + self.labelled_table(*control_events),
    {
        let ghost all = self.labelled_table(*control_events);
        let ghost base = registered(*registry);
        assert(base =~= base + all.take(0));
        register_events(
            registry,
            "sessions_declined",
            "DPUmesh sessions the adapter refused, by cause",
            same_events(&self.sessions_declined),
        );
        proof {
            one_more(base, all, 0);
        }
        register_events(
            registry,
            "control_events",
            "Registration, membership and revocation outcomes by kind and reason",
            same_events(control_events),
        );
        proof {
            one_more(base, all, 1);
        }
        assert(all.take(2) =~= all);
    }

    /// Every metric was made anew, at zero.
    pub open spec fn made(self) -> bool {
        &&& counter_made(self.sessions_opened)
        &&& counter_made(self.sessions_closed)
        &&& gauge_made(self.sessions_active)
        &&& gauge_made(self.registrations_pending)
        &&& counter_made(self.registrations_orphaned)
        &&& counter_made(self.endpoints_aborted)
        &&& gauge_made(self.tasks_live)
        &&& counter_made(self.tasks_cancelled)
        &&& counter_made(self.backend_take_errors)
        &&& counter_made(self.backend_target_mismatches)
        &&& counter_made(self.backend_session_mismatches)
        &&& counter_made(self.backend_sessionless_refusals)
        &&& counter_made(self.session_stack_builds)
        &&& counter_made(self.session_stack_cache_hits)
        &&& counter_made(self.session_stack_cache_misses)
        &&& counter_made(self.session_stack_configure_nanoseconds)
        &&& counter_made(self.session_stack_layers_nanoseconds)
        &&& counter_made(self.session_stack_service_nanoseconds)
        &&& gauge_made(self.slots_retired)
        &&& counter_made(self.worker_drain_calls)
        &&& counter_made(self.worker_drain_progressed)
        &&& counter_made(self.worker_drain_pending)
        &&& counter_made(self.worker_drain_idle)
        &&& counter_made(self.worker_pe_progressed)
        &&& counter_made(self.worker_data_progressed)
        &&& counter_made(self.worker_arms)
        &&& counter_made(self.worker_notification_clears)
        &&& counter_made(self.worker_maintenances)
        &&& counter_made(self.worker_local_completions)
        &&& counter_made(self.worker_cross_out)
        &&& counter_made(self.worker_cross_in)
        &&& gauge_made(self.worker_last_progress_age_milliseconds)
        &&& gauge_made(self.worker_completion_queue_depth)
        &&& gauge_made(self.worker_cross_queue_depth)
        &&& gauge_made(self.worker_deferred_receives)
        &&& gauge_made(self.worker_dma_tasks_inflight)
        &&& gauge_made(self.worker_dma_retry_batches)
        &&& gauge_made(self.worker_dma_stalled)
        &&& gauge_made(self.worker_stalled_connections)
        &&& gauge_made(self.worker_emit_pending)
        &&& gauge_made(self.worker_ack_release_depth)
        &&& gauge_made(self.worker_ack_retry_pending)
        &&& gauge_made(self.worker_remote_fin_pending)
        &&& gauge_made(self.worker_parked)
        &&& gauge_made(self.worker_wake_posted)
        &&& self.sessions_declined.made()
    }

    /// The counters, in the order in which they are declared.
    pub open spec fn counters(self) -> Seq<Counter> {
        seq![
            self.sessions_opened,
            self.sessions_closed,
            self.registrations_orphaned,
            self.endpoints_aborted,
            self.tasks_cancelled,
            self.backend_take_errors,
            self.backend_target_mismatches,
            self.backend_session_mismatches,
            self.backend_sessionless_refusals,
            self.session_stack_builds,
            self.session_stack_cache_hits,
            self.session_stack_cache_misses,
            self.session_stack_configure_nanoseconds,
            self.session_stack_layers_nanoseconds,
            self.session_stack_service_nanoseconds,
            self.worker_drain_calls,
            self.worker_drain_progressed,
            self.worker_drain_pending,
            self.worker_drain_idle,
            self.worker_pe_progressed,
            self.worker_data_progressed,
            self.worker_arms,
            self.worker_notification_clears,
            self.worker_maintenances,
            self.worker_local_completions,
            self.worker_cross_out,
            self.worker_cross_in,
        ]
    }

    /// The gauges, in the order in which they are declared.
    pub open spec fn gauges(self) -> Seq<Gauge> {
        seq![
            self.sessions_active,
            self.registrations_pending,
            self.tasks_live,
            self.slots_retired,
            self.worker_last_progress_age_milliseconds,
            self.worker_completion_queue_depth,
            self.worker_cross_queue_depth,
            self.worker_deferred_receives,
            self.worker_dma_tasks_inflight,
            self.worker_dma_retry_batches,
            self.worker_dma_stalled,
            self.worker_stalled_connections,
            self.worker_emit_pending,
            self.worker_ack_release_depth,
            self.worker_ack_retry_pending,
            self.worker_remote_fin_pending,
            self.worker_parked,
            self.worker_wake_posted,
        ]
    }

    /// No two of the metrics share a value.
    pub open spec fn differ(self) -> bool {
        self.counters().no_duplicates() && self.gauges().no_duplicates()
    }

    /// Metrics that share their values with no other yet.
    pub fn new() -> (r: SessionMetrics)
        ensures
            r.made(),
            r.differ(),
    {
        SessionMetrics::with_declined(Events::new())
    }

    /// New metrics around a family of refused sessions.
    fn with_declined(declined: Events) -> (r: SessionMetrics)
        requires
            declined.made(),
        ensures
            r.made(),
            r.differ(),
            r.sessions_declined == declined,
    {
        let counters = new_counters(27);
        let gauges = new_gauges(18);
        let r = SessionMetrics {
            sessions_opened: same_counter(&counters[0]),
            sessions_closed: same_counter(&counters[1]),
            sessions_active: same_gauge(&gauges[0]),
            registrations_pending: same_gauge(&gauges[1]),
            registrations_orphaned: same_counter(&counters[2]),
            endpoints_aborted: same_counter(&counters[3]),
            tasks_live: same_gauge(&gauges[2]),
            tasks_cancelled: same_counter(&counters[4]),
            backend_take_errors: same_counter(&counters[5]),
            backend_target_mismatches: same_counter(&counters[6]),
            backend_session_mismatches: same_counter(&counters[7]),
            backend_sessionless_refusals: same_counter(&counters[8]),
            session_stack_builds: same_counter(&counters[9]),
            session_stack_cache_hits: same_counter(&counters[10]),
            session_stack_cache_misses: same_counter(&counters[11]),
            session_stack_configure_nanoseconds: same_counter(&counters[12]),
            session_stack_layers_nanoseconds: same_counter(&counters[13]),
            session_stack_service_nanoseconds: same_counter(&counters[14]),
            slots_retired: same_gauge(&gauges[3]),
            worker_drain_calls: same_counter(&counters[15]),
            worker_drain_progressed: same_counter(&counters[16]),
            worker_drain_pending: same_counter(&counters[17]),
            worker_drain_idle: same_counter(&counters[18]),
            worker_pe_progressed: same_counter(&counters[19]),
            worker_data_progressed: same_counter(&counters[20]),
            worker_arms: same_counter(&counters[21]),
            worker_notification_clears: same_counter(&counters[22]),
            worker_maintenances: same_counter(&counters[23]),
            worker_local_completions: same_counter(&counters[24]),
            worker_cross_out: same_counter(&counters[25]),
            worker_cross_in: same_counter(&counters[26]),
            worker_last_progress_age_milliseconds: same_gauge(&gauges[4]),
            worker_completion_queue_depth: same_gauge(&gauges[5]),
            worker_cross_queue_depth: same_gauge(&gauges[6]),
            worker_deferred_receives: same_gauge(&gauges[7]),
            worker_dma_tasks_inflight: same_gauge(&gauges[8]),
            worker_dma_retry_batches: same_gauge(&gauges[9]),
            worker_dma_stalled: same_gauge(&gauges[10]),
            worker_stalled_connections: same_gauge(&gauges[11]),
            worker_emit_pending: same_gauge(&gauges[12]),
            worker_ack_release_depth: same_gauge(&gauges[13]),
            worker_ack_retry_pending: same_gauge(&gauges[14]),
            worker_remote_fin_pending: same_gauge(&gauges[15]),
            worker_parked: same_gauge(&gauges[16]),
            worker_wake_posted: same_gauge(&gauges[17]),
            sessions_declined: declined,
        };
        assert(r.counters() =~= counters@);
        assert(r.gauges() =~= gauges@);
        r
    }

    /// Register the counters in the proxy's own registry. Cloning a metric
    /// shares its value, so the returned handle and the registry observe the
    /// same counters.
    pub fn register(registry: &mut Registry, control_events: &Events) -> (metrics: Self)
        ensures
            metrics.made(),
            metrics.differ(),
            metrics.sessions_declined != *control_events,
            registered(*final(registry)) == registered(*old(registry)) + metrics.table(
                *control_events,
            ),
    {
        let mut there: Vec<Events> = Vec::new();
        there.push(same_events(control_events));
        let declined = Events::beside(&there);
        assert(there@[0] == *control_events);
        let metrics = SessionMetrics::with_declined(declined);
        metrics.register_session_metrics(registry);
        metrics.register_worker_counters(registry);
        metrics.register_worker_gauges(registry);
        metrics.register_labelled(registry, control_events);
        assert(registered(*registry) =~= registered(*old(registry)) + metrics.table(*control_events));
        metrics
    }

    /// Count one refused session.
    pub fn record_decline(&self, reason: &str)
        ensures
            event_counted(self.sessions_declined, seq![("reason"@, reason@)]),
    {
        let labels = DeclineLabels { reason: reason.to_owned() };
        let pairs = labels.pairs();
        count_labelled(&self.sessions_declined, &pairs);
        assert(call_ensures(count_labelled, (&self.sessions_declined, &pairs), ()));
    }

    /// Record the synchronous phases of building one session-isolated stack,
    /// in nanoseconds.
    pub fn observe_stack_build(&self, configure: u128, layers: u128, service: u128)
        ensures
            self.build_counted(configure, layers, service),
    {
        count(&self.session_stack_builds);
        count_by(&self.session_stack_configure_nanoseconds, nanos(configure));
        count_by(&self.session_stack_layers_nanoseconds, nanos(layers));
        count_by(&self.session_stack_service_nanoseconds, nanos(service));
    }

    /// One stack was counted as built, and each phase by the time it took.
    pub open spec fn build_counted(self, configure: u128, layers: u128, service: u128) -> bool {
        &&& counted(self.session_stack_builds)
        &&& counted_by(self.session_stack_configure_nanoseconds, saturated_nanos(configure))
        &&& counted_by(self.session_stack_layers_nanoseconds, saturated_nanos(layers))
        &&& counted_by(self.session_stack_service_nanoseconds, saturated_nanos(service))
    }

    /// Everything a quiesced worker must report as zero, at the moment at which
    /// each is read.
    pub fn quiescent(&self) -> (r: bool)
        ensures
            exists|active: i64, pending: i64, tasks: i64|
                #![trigger gauge_read(self.sessions_active, active), gauge_read(
                    self.registrations_pending,
                    pending,
                ), gauge_read(self.tasks_live, tasks)]
                gauge_read(self.sessions_active, active) && gauge_read(
                    self.registrations_pending,
                    pending,
                ) && gauge_read(self.tasks_live, tasks) && (r <==> active == 0 && pending == 0
                    && tasks == 0),
    {
        let active: i64 = read_gauge(&self.sessions_active);
        let pending: i64 = read_gauge(&self.registrations_pending);
        let tasks: i64 = read_gauge(&self.tasks_live);
        assert(gauge_read(self.sessions_active, active));
        assert(gauge_read(self.registrations_pending, pending));
        assert(gauge_read(self.tasks_live, tasks));
        is_quiescent(active, pending, tasks)
    }

    /// One line for the log, which is the only diagnostic a deployed run has.
    /// The values are those of the moment at which each is read.
    pub fn summary(&self) -> (r: String)
        ensures
            exists|values: Snapshot| #[trigger]
                self.reads(values) && r@ == fields_text(values.fields()),
    {
        self.snapshot().line()
    }

    /// Each of the values came back from a read of the metric it is shown for.
    pub open spec fn reads(self, values: Snapshot) -> bool {
        &&& counter_read(self.sessions_opened, values.opened)
        &&& counter_read(self.sessions_closed, values.closed)
        &&& gauge_read(self.sessions_active, values.active)
        &&& gauge_read(self.registrations_pending, values.pending)
        &&& counter_read(self.registrations_orphaned, values.orphaned)
        &&& counter_read(self.endpoints_aborted, values.aborted)
        &&& gauge_read(self.tasks_live, values.tasks)
        &&& counter_read(self.tasks_cancelled, values.cancelled)
        &&& counter_read(self.backend_take_errors, values.take_errors)
        &&& counter_read(self.backend_target_mismatches, values.target_mismatches)
        &&& counter_read(self.backend_session_mismatches, values.session_mismatches)
        &&& counter_read(self.backend_sessionless_refusals, values.sessionless_refusals)
        &&& counter_read(self.session_stack_builds, values.stack_builds)
        &&& counter_read(self.session_stack_cache_hits, values.stack_hits)
        &&& counter_read(self.session_stack_cache_misses, values.stack_misses)
        &&& counter_read(self.session_stack_configure_nanoseconds, values.stack_configure_ns)
        &&& counter_read(self.session_stack_layers_nanoseconds, values.stack_layers_ns)
        &&& counter_read(self.session_stack_service_nanoseconds, values.stack_service_ns)
        &&& gauge_read(self.slots_retired, values.retired_slots)
        &&& counter_read(self.worker_drain_calls, values.worker_drains)
        &&& counter_read(self.worker_drain_progressed, values.worker_progressed)
        &&& gauge_read(self.worker_last_progress_age_milliseconds, values.progress_age_ms)
        &&& gauge_read(self.worker_completion_queue_depth, values.completion_q)
        &&& gauge_read(self.worker_cross_queue_depth, values.cross_q)
        &&& gauge_read(self.worker_deferred_receives, values.deferred_recv)
        &&& gauge_read(self.worker_dma_tasks_inflight, values.dma_inflight)
        &&& gauge_read(self.worker_dma_retry_batches, values.dma_retries)
        &&& gauge_read(self.worker_dma_stalled, values.dma_stalled)
        &&& gauge_read(self.worker_stalled_connections, values.stalled_conns)
        &&& gauge_read(self.worker_emit_pending, values.emit_pending)
        &&& gauge_read(self.worker_ack_release_depth, values.ack_release_q)
        &&& gauge_read(self.worker_ack_retry_pending, values.ack_retry)
        &&& gauge_read(self.worker_remote_fin_pending, values.remote_fin)
    }

    /// The values of the summary, each as it is read.
    fn snapshot(&self) -> (r: Snapshot)
        ensures
            self.reads(r),
    {
        Snapshot {
            opened: read_counter(&self.sessions_opened),
            closed: read_counter(&self.sessions_closed),
            active: read_gauge(&self.sessions_active),
            pending: read_gauge(&self.registrations_pending),
            orphaned: read_counter(&self.registrations_orphaned),
            aborted: read_counter(&self.endpoints_aborted),
            tasks: read_gauge(&self.tasks_live),
            cancelled: read_counter(&self.tasks_cancelled),
            take_errors: read_counter(&self.backend_take_errors),
            target_mismatches: read_counter(&self.backend_target_mismatches),
            session_mismatches: read_counter(&self.backend_session_mismatches),
            sessionless_refusals: read_counter(&self.backend_sessionless_refusals),
            stack_builds: read_counter(&self.session_stack_builds),
            stack_hits: read_counter(&self.session_stack_cache_hits),
            stack_misses: read_counter(&self.session_stack_cache_misses),
            stack_configure_ns: read_counter(&self.session_stack_configure_nanoseconds),
            stack_layers_ns: read_counter(&self.session_stack_layers_nanoseconds),
            stack_service_ns: read_counter(&self.session_stack_service_nanoseconds),
            retired_slots: read_gauge(&self.slots_retired),
            worker_drains: read_counter(&self.worker_drain_calls),
            worker_progressed: read_counter(&self.worker_drain_progressed),
            progress_age_ms: read_gauge(&self.worker_last_progress_age_milliseconds),
            completion_q: read_gauge(&self.worker_completion_queue_depth),
            cross_q: read_gauge(&self.worker_cross_queue_depth),
            deferred_recv: read_gauge(&self.worker_deferred_receives),
            dma_inflight: read_gauge(&self.worker_dma_tasks_inflight),
            dma_retries: read_gauge(&self.worker_dma_retry_batches),
            dma_stalled: read_gauge(&self.worker_dma_stalled),
            stalled_conns: read_gauge(&self.worker_stalled_connections),
            emit_pending: read_gauge(&self.worker_emit_pending),
            ack_release_q: read_gauge(&self.worker_ack_release_depth),
            ack_retry: read_gauge(&self.worker_ack_retry_pending),
            remote_fin: read_gauge(&self.worker_remote_fin_pending),
        }
    }
}

/// Whether a worker with these many sessions, registrations and tasks has
/// quiesced.
pub fn is_quiescent(sessions_active: i64, registrations_pending: i64, tasks_live: i64) -> (r: bool)
    ensures
        r <==> sessions_active == 0 && registrations_pending == 0 && tasks_live == 0,
{
    sessions_active == 0 && registrations_pending == 0 && tasks_live == 0
}

/// The values that a summary shows.
#[derive(Clone, Copy, Debug)]
pub struct Snapshot {
    pub opened: u64,
    pub closed: u64,
    pub active: i64,
    pub pending: i64,
    pub orphaned: u64,
    pub aborted: u64,
    pub tasks: i64,
    pub cancelled: u64,
    pub take_errors: u64,
    pub target_mismatches: u64,
    pub session_mismatches: u64,
    pub sessionless_refusals: u64,
    pub stack_builds: u64,
    pub stack_hits: u64,
    pub stack_misses: u64,
    pub stack_configure_ns: u64,
    pub stack_layers_ns: u64,
    pub stack_service_ns: u64,
    pub retired_slots: i64,
    pub worker_drains: u64,
    pub worker_progressed: u64,
    pub progress_age_ms: i64,
    pub completion_q: i64,
    pub cross_q: i64,
    pub deferred_recv: i64,
    pub dma_inflight: i64,
    pub dma_retries: i64,
    pub dma_stalled: i64,
    pub stalled_conns: i64,
    pub emit_pending: i64,
    pub ack_release_q: i64,
    pub ack_retry: i64,
    pub remote_fin: i64,
}

/// One field of a summary: the label, `=` and the value.
pub open spec fn field_text(label: Seq<char>, value: int) -> Seq<char> {
    label + "="@ + crate::text::signed(value)
}

/// Fields, separated by spaces.
pub open spec fn fields_text(fields: Seq<(Seq<char>, int)>) -> Seq<char>
    decreases fields.len(),
{
    if fields.len() == 0 {
        Seq::empty()
    } else if fields.len() == 1 {
        field_text(fields[0].0, fields[0].1)
    } else {
        fields_text(fields.drop_last()) + " "@ + field_text(fields.last().0, fields.last().1)
    }
}

/// Append a field to a line, behind a space unless it is the first.
fn push_field(out: &mut String, Ghost(fields): Ghost<Seq<(Seq<char>, int)>>, label: &str, value: i128)
    requires
        old(out)@ == fields_text(fields),
        i64::MIN <= value <= u64::MAX,
    ensures
        final(out)@ == fields_text(fields.push((label@, value as int))),
{
    let first: bool = out.as_str().is_empty();
    let ghost next = fields.push((label@, value as int));
    proof {
        fields_text_empty(fields);
        assert(next.drop_last() =~= fields);
    }
    if !first {
        out.append(" ");
    }
    out.append(label);
    out.append("=");
    push_signed(out, value);
    assert(out@ =~= fields_text(next));
}

/// Only no field at all leaves a line empty.
proof fn fields_text_empty(fields: Seq<(Seq<char>, int)>)
    ensures
        fields_text(fields).len() == 0 <==> fields.len() == 0,
{
    reveal_strlit("=");
    reveal_strlit(" ");
}

/// One element more of `all` behind `base`.
proof fn one_more<T>(base: Seq<T>, all: Seq<T>, i: int)
    requires
        0 <= i < all.len(),
    ensures
        (base + all.take(i)).push(all[i]) == base + all.take(i + 1),
{
    assert((base + all.take(i)).push(all[i]) =~= base + all.take(i + 1));
}

impl Snapshot {
    pub open spec fn fields(self) -> Seq<(Seq<char>, int)> {
        seq![
            ("opened"@, self.opened as int),
            ("closed"@, self.closed as int),
            ("active"@, self.active as int),
            ("pending"@, self.pending as int),
            ("orphaned"@, self.orphaned as int),
            ("aborted"@, self.aborted as int),
            ("tasks"@, self.tasks as int),
            ("cancelled"@, self.cancelled as int),
            ("take_errors"@, self.take_errors as int),
            ("target_mismatches"@, self.target_mismatches as int),
            ("session_mismatches"@, self.session_mismatches as int),
            ("sessionless_refusals"@, self.sessionless_refusals as int),
            ("stack_builds"@, self.stack_builds as int),
            ("stack_hits"@, self.stack_hits as int),
            ("stack_misses"@, self.stack_misses as int),
            ("stack_configure_ns"@, self.stack_configure_ns as int),
            ("stack_layers_ns"@, self.stack_layers_ns as int),
            ("stack_service_ns"@, self.stack_service_ns as int),
            ("retired_slots"@, self.retired_slots as int),
            ("worker_drains"@, self.worker_drains as int),
            ("worker_progressed"@, self.worker_progressed as int),
            ("progress_age_ms"@, self.progress_age_ms as int),
            ("completion_q"@, self.completion_q as int),
            ("cross_q"@, self.cross_q as int),
            ("deferred_recv"@, self.deferred_recv as int),
            ("dma_inflight"@, self.dma_inflight as int),
            ("dma_retries"@, self.dma_retries as int),
            ("dma_stalled"@, self.dma_stalled as int),
            ("stalled_conns"@, self.stalled_conns as int),
            ("emit_pending"@, self.emit_pending as int),
            ("ack_release_q"@, self.ack_release_q as int),
            ("ack_retry"@, self.ack_retry as int),
            ("remote_fin"@, self.remote_fin as int),
        ]
    }

    /// The summary.
    pub fn line(&self) -> (r: String)
        ensures
            r@ == fields_text(self.fields()),
    {
        let mut out = String::new();
        let ghost all = self.fields();
        push_field(&mut out, Ghost(all.take(0)), "opened", self.opened as i128);
        assert(all.take(0).push(all[0]) =~= all.take(1));
        push_field(&mut out, Ghost(all.take(1)), "closed", self.closed as i128);
        assert(all.take(1).push(all[1]) =~= all.take(2));
        push_field(&mut out, Ghost(all.take(2)), "active", self.active as i128);
        assert(all.take(2).push(all[2]) =~= all.take(3));
        push_field(&mut out, Ghost(all.take(3)), "pending", self.pending as i128);
        assert(all.take(3).push(all[3]) =~= all.take(4));
        push_field(&mut out, Ghost(all.take(4)), "orphaned", self.orphaned as i128);
        assert(all.take(4).push(all[4]) =~= all.take(5));
        push_field(&mut out, Ghost(all.take(5)), "aborted", self.aborted as i128);
        assert(all.take(5).push(all[5]) =~= all.take(6));
        push_field(&mut out, Ghost(all.take(6)), "tasks", self.tasks as i128);
        assert(all.take(6).push(all[6]) =~= all.take(7));
        push_field(&mut out, Ghost(all.take(7)), "cancelled", self.cancelled as i128);
        assert(all.take(7).push(all[7]) =~= all.take(8));
        push_field(&mut out, Ghost(all.take(8)), "take_errors", self.take_errors as i128);
        assert(all.take(8).push(all[8]) =~= all.take(9));
        push_field(&mut out, Ghost(all.take(9)), "target_mismatches", self.target_mismatches as i128);
        assert(all.take(9).push(all[9]) =~= all.take(10));
        push_field(&mut out, Ghost(all.take(10)), "session_mismatches", self.session_mismatches as i128);
        assert(all.take(10).push(all[10]) =~= all.take(11));
        push_field(&mut out, Ghost(all.take(11)), "sessionless_refusals", self.sessionless_refusals as i128);
        assert(all.take(11).push(all[11]) =~= all.take(12));
        push_field(&mut out, Ghost(all.take(12)), "stack_builds", self.stack_builds as i128);
        assert(all.take(12).push(all[12]) =~= all.take(13));
        push_field(&mut out, Ghost(all.take(13)), "stack_hits", self.stack_hits as i128);
        assert(all.take(13).push(all[13]) =~= all.take(14));
        push_field(&mut out, Ghost(all.take(14)), "stack_misses", self.stack_misses as i128);
        assert(all.take(14).push(all[14]) =~= all.take(15));
        push_field(&mut out, Ghost(all.take(15)), "stack_configure_ns", self.stack_configure_ns as i128);
        assert(all.take(15).push(all[15]) =~= all.take(16));
        push_field(&mut out, Ghost(all.take(16)), "stack_layers_ns", self.stack_layers_ns as i128);
        assert(all.take(16).push(all[16]) =~= all.take(17));
        push_field(&mut out, Ghost(all.take(17)), "stack_service_ns", self.stack_service_ns as i128);
        assert(all.take(17).push(all[17]) =~= all.take(18));
        push_field(&mut out, Ghost(all.take(18)), "retired_slots", self.retired_slots as i128);
        assert(all.take(18).push(all[18]) =~= all.take(19));
        push_field(&mut out, Ghost(all.take(19)), "worker_drains", self.worker_drains as i128);
        assert(all.take(19).push(all[19]) =~= all.take(20));
        push_field(&mut out, Ghost(all.take(20)), "worker_progressed", self.worker_progressed as i128);
        assert(all.take(20).push(all[20]) =~= all.take(21));
        push_field(&mut out, Ghost(all.take(21)), "progress_age_ms", self.progress_age_ms as i128);
        assert(all.take(21).push(all[21]) =~= all.take(22));
        push_field(&mut out, Ghost(all.take(22)), "completion_q", self.completion_q as i128);
        assert(all.take(22).push(all[22]) =~= all.take(23));
        push_field(&mut out, Ghost(all.take(23)), "cross_q", self.cross_q as i128);
        assert(all.take(23).push(all[23]) =~= all.take(24));
        push_field(&mut out, Ghost(all.take(24)), "deferred_recv", self.deferred_recv as i128);
        assert(all.take(24).push(all[24]) =~= all.take(25));
        push_field(&mut out, Ghost(all.take(25)), "dma_inflight", self.dma_inflight as i128);
        assert(all.take(25).push(all[25]) =~= all.take(26));
        push_field(&mut out, Ghost(all.take(26)), "dma_retries", self.dma_retries as i128);
        assert(all.take(26).push(all[26]) =~= all.take(27));
        push_field(&mut out, Ghost(all.take(27)), "dma_stalled", self.dma_stalled as i128);
        assert(all.take(27).push(all[27]) =~= all.take(28));
        push_field(&mut out, Ghost(all.take(28)), "stalled_conns", self.stalled_conns as i128);
        assert(all.take(28).push(all[28]) =~= all.take(29));
        push_field(&mut out, Ghost(all.take(29)), "emit_pending", self.emit_pending as i128);
        assert(all.take(29).push(all[29]) =~= all.take(30));
        push_field(&mut out, Ghost(all.take(30)), "ack_release_q", self.ack_release_q as i128);
        assert(all.take(30).push(all[30]) =~= all.take(31));
        push_field(&mut out, Ghost(all.take(31)), "ack_retry", self.ack_retry as i128);
        assert(all.take(31).push(all[31]) =~= all.take(32));
        push_field(&mut out, Ghost(all.take(32)), "remote_fin", self.remote_fin as i128);
        assert(all.take(32).push(all[32]) =~= all.take(33));
        assert(all.take(33) =~= all);
        out
    }
}

/// Each metric is registered under its own name, with what it counts, behind
/// what is there: those of a session's life, the worker's counters, the worker's
/// gauges, and those that are counted by label, in this order.
pub proof fn a_metric_is_registered_by_its_name(control_events: Events)
    ensures
        forall|registry: &mut Registry, metrics: SessionMetrics| #[trigger]
            call_ensures(SessionMetrics::register, (registry, &control_events), metrics) ==> {
                let n = registered(*registry).len() as int;
                let there = registered(*final(registry));
                &&& there.len() == n + 47
                &&& there.take(n) == registered(*registry)
                &&& there[n] == (
                    "sessions_opened"@,
                    "DPUmesh sessions opened"@,
                    Metric::Counter(metrics.sessions_opened),
                )
                &&& there[n + 1] == (
                    "sessions_closed"@,
                    "DPUmesh sessions closed"@,
                    Metric::Counter(metrics.sessions_closed),
                )
                &&& there[n + 2] == (
                    "sessions_active"@,
                    "DPUmesh sessions currently carried by the adapter"@,
                    Metric::Gauge(metrics.sessions_active),
                )
                &&& there[n + 3] == (
                    "registrations_pending"@,
                    "Endpoints registered with the acceptor and not yet bound to a session"@,
                    Metric::Gauge(metrics.registrations_pending),
                )
                &&& there[n + 4] == (
                    "registrations_orphaned"@,
                    "Registrations that arrived after their session closed"@,
                    Metric::Counter(metrics.registrations_orphaned),
                )
                &&& there[n + 5] == (
                    "endpoints_aborted"@,
                    "DPUmesh endpoints aborted by a close, a poison or a worker stop"@,
                    Metric::Counter(metrics.endpoints_aborted),
                )
                &&& there[n + 6] == (
                    "tasks_live"@,
                    "Connection tasks the DPUmesh acceptor is driving"@,
                    Metric::Gauge(metrics.tasks_live),
                )
                &&& there[n + 7] == (
                    "tasks_cancelled"@,
                    "Connection tasks cancelled by a session close"@,
                    Metric::Counter(metrics.tasks_cancelled),
                )
                &&& there[n + 8] == (
                    "backend_take_errors"@,
                    "Backend channels a connector could not take"@,
                    Metric::Counter(metrics.backend_take_errors),
                )
                &&& there[n + 9] == (
                    "backend_target_mismatches"@,
                    "Linkerd-selected targets rejected outside the authoritative DPUmesh Service"@,
                    Metric::Counter(metrics.backend_target_mismatches),
                )
                &&& there[n + 10] == (
                    "backend_session_mismatches"@,
                    "Connections whose carried session disagreed with their stack's"@,
                    Metric::Counter(metrics.backend_session_mismatches),
                )
                &&& there[n + 11] == (
                    "backend_sessionless_refusals"@,
                    "Sessionless connects to DMesh-provided addresses refused"@,
                    Metric::Counter(metrics.backend_sessionless_refusals),
                )
                &&& there[n + 12] == (
                    "session_stack_builds"@,
                    "Per-session DPUmesh outbound stacks built"@,
                    Metric::Counter(metrics.session_stack_builds),
                )
                &&& there[n + 13] == (
                    "session_stack_cache_hits"@,
                    "Frontend connections served by a reused per-workload outbound stack"@,
                    Metric::Counter(metrics.session_stack_cache_hits),
                )
                &&& there[n + 14] == (
                    "session_stack_cache_misses"@,
                    "Frontend connections that built their workload's outbound stack"@,
                    Metric::Counter(metrics.session_stack_cache_misses),
                )
                &&& there[n + 15] == (
                    "session_stack_configure_nanoseconds"@,
                    "Nanoseconds spent cloning and configuring per-session outbound templates"@,
                    Metric::Counter(metrics.session_stack_configure_nanoseconds),
                )
                &&& there[n + 16] == (
                    "session_stack_layers_nanoseconds"@,
                    "Nanoseconds spent constructing per-session outbound layers"@,
                    Metric::Counter(metrics.session_stack_layers_nanoseconds),
                )
                &&& there[n + 17] == (
                    "session_stack_service_nanoseconds"@,
                    "Nanoseconds spent instantiating target services from per-session outbound layers"@,
                    Metric::Counter(metrics.session_stack_service_nanoseconds),
                )
                &&& there[n + 18] == (
                    "slots_retired"@,
                    "Session slots withdrawn from reuse because their generations ran out"@,
                    Metric::Gauge(metrics.slots_retired),
                )
                &&& there[n + 19] == (
                    "worker_drain_calls"@,
                    "Calls into the DPUmesh worker drain path"@,
                    Metric::Counter(metrics.worker_drain_calls),
                )
                &&& there[n + 20] == (
                    "worker_drain_progressed"@,
                    "DPUmesh worker drain calls that made progress"@,
                    Metric::Counter(metrics.worker_drain_progressed),
                )
                &&& there[n + 21] == (
                    "worker_drain_pending"@,
                    "DPUmesh worker drain calls retaining pending work"@,
                    Metric::Counter(metrics.worker_drain_pending),
                )
                &&& there[n + 22] == (
                    "worker_drain_idle"@,
                    "DPUmesh worker drain calls that found no work"@,
                    Metric::Counter(metrics.worker_drain_idle),
                )
                &&& there[n + 23] == (
                    "worker_pe_progressed"@,
                    "DPUmesh worker drains progressed by the completion PE"@,
                    Metric::Counter(metrics.worker_pe_progressed),
                )
                &&& there[n + 24] == (
                    "worker_data_progressed"@,
                    "DPUmesh worker drains progressed by routing or proxy work"@,
                    Metric::Counter(metrics.worker_data_progressed),
                )
                &&& there[n + 25] == (
                    "worker_arms"@,
                    "DPUmesh worker notification arm calls"@,
                    Metric::Counter(metrics.worker_arms),
                )
                &&& there[n + 26] == (
                    "worker_notification_clears"@,
                    "DPUmesh worker notification clear calls"@,
                    Metric::Counter(metrics.worker_notification_clears),
                )
                &&& there[n + 27] == (
                    "worker_maintenances"@,
                    "DPUmesh worker maintenance calls"@,
                    Metric::Counter(metrics.worker_maintenances),
                )
                &&& there[n + 28] == (
                    "worker_local_completions"@,
                    "DPA completions processed by their local DPUmesh worker"@,
                    Metric::Counter(metrics.worker_local_completions),
                )
                &&& there[n + 29] == (
                    "worker_cross_out"@,
                    "DPA completions handed to another DPUmesh worker"@,
                    Metric::Counter(metrics.worker_cross_out),
                )
                &&& there[n + 30] == (
                    "worker_cross_in"@,
                    "Cross-worker completions processed by their owner"@,
                    Metric::Counter(metrics.worker_cross_in),
                )
                &&& there[n + 31] == (
                    "worker_last_progress_age_milliseconds"@,
                    "Milliseconds since the DPUmesh worker last made progress"@,
                    Metric::Gauge(metrics.worker_last_progress_age_milliseconds),
                )
                &&& there[n + 32] == (
                    "worker_completion_queue_depth"@,
                    "DPA receive completions waiting on this DPUmesh worker"@,
                    Metric::Gauge(metrics.worker_completion_queue_depth),
                )
                &&& there[n + 33] == (
                    "worker_cross_queue_depth"@,
                    "Cross-worker completions waiting on this DPUmesh worker"@,
                    Metric::Gauge(metrics.worker_cross_queue_depth),
                )
                &&& there[n + 34] == (
                    "worker_deferred_receives"@,
                    "Receive tasks held back by DPUmesh completion queue pressure"@,
                    Metric::Gauge(metrics.worker_deferred_receives),
                )
                &&& there[n + 35] == (
                    "worker_dma_tasks_inflight"@,
                    "DPUmesh DMA tasks waiting for completion callbacks"@,
                    Metric::Gauge(metrics.worker_dma_tasks_inflight),
                )
                &&& there[n + 36] == (
                    "worker_dma_retry_batches"@,
                    "DPUmesh DMA batches waiting for retry"@,
                    Metric::Gauge(metrics.worker_dma_retry_batches),
                )
                &&& there[n + 37] == (
                    "worker_dma_stalled"@,
                    "Whether the DPUmesh worker DMA context is faulted"@,
                    Metric::Gauge(metrics.worker_dma_stalled),
                )
                &&& there[n + 38] == (
                    "worker_stalled_connections"@,
                    "DPUmesh connections parked behind proxy resource pressure"@,
                    Metric::Gauge(metrics.worker_stalled_connections),
                )
                &&& there[n + 39] == (
                    "worker_emit_pending"@,
                    "Whether DPUmesh output waits for completion emission"@,
                    Metric::Gauge(metrics.worker_emit_pending),
                )
                &&& there[n + 40] == (
                    "worker_ack_release_depth"@,
                    "DPUmesh ACK releases waiting in the worker queue"@,
                    Metric::Gauge(metrics.worker_ack_release_depth),
                )
                &&& there[n + 41] == (
                    "worker_ack_retry_pending"@,
                    "Whether a DPUmesh ACK release waits on the retry list"@,
                    Metric::Gauge(metrics.worker_ack_retry_pending),
                )
                &&& there[n + 42] == (
                    "worker_remote_fin_pending"@,
                    "Remote FINs waiting for DPUmesh landing-lane space"@,
                    Metric::Gauge(metrics.worker_remote_fin_pending),
                )
                &&& there[n + 43] == (
                    "worker_parked"@,
                    "Whether the DPUmesh worker considers itself parked"@,
                    Metric::Gauge(metrics.worker_parked),
                )
                &&& there[n + 44] == (
                    "worker_wake_posted"@,
                    "Whether the DPUmesh worker wake eventfd holds a posted tick"@,
                    Metric::Gauge(metrics.worker_wake_posted),
                )
                &&& there[n + 45] == (
                    "sessions_declined"@,
                    "DPUmesh sessions the adapter refused, by cause"@,
                    Metric::Events(metrics.sessions_declined),
                )
                &&& there[n + 46] == (
                    "control_events"@,
                    "Registration, membership and revocation outcomes by kind and reason"@,
                    Metric::Events(control_events),
                )
            },
{
    assert forall|registry: &mut Registry, metrics: SessionMetrics| #[trigger]
        call_ensures(SessionMetrics::register, (registry, &control_events), metrics) implies {
        let n = registered(*registry).len() as int;
        let there = registered(*final(registry));
        let (a, b) = (metrics.session_table(), metrics.worker_counter_table());
        let (c, d) = (metrics.worker_gauge_table(), metrics.labelled_table(control_events));
        &&& there == registered(*registry) + (a + b + c + d)
        &&& a.len() == 19 && b.len() == 12 && c.len() == 14 && d.len() == 2
        &&& there.take(n) == registered(*registry)
    } by {
        let n = registered(*registry).len() as int;
        assert(registered(*final(registry)).take(n) =~= registered(*registry));
    }
}

/// Fields that are separated by spaces are their texts, put together with them.
proof fn fields_rejoin(fields: Seq<(Seq<char>, int)>) -> (parts: Seq<Seq<char>>)
    ensures
        parts.len() == fields.len(),
        forall|k: int|
            0 <= k < parts.len() ==> #[trigger] parts[k] == fields[k].0 + "="@
                + crate::text::signed(fields[k].1),
        rejoined(parts, ' ') == fields_text(fields),
    decreases fields.len(),
{
    reveal_strlit(" ");
    assert(" "@ =~= seq![' ']);
    if fields.len() == 0 {
        let parts = Seq::<Seq<char>>::empty();
        assert(rejoined(parts, ' ') =~= fields_text(fields));
        parts
    } else {
        let before = fields_rejoin(fields.drop_last());
        let last = field_text(fields.last().0, fields.last().1);
        let parts = before.push(last);
        rejoined_push(before, last);
        if fields.len() > 1 {
            assert(rejoined(before, ' ').push(' ') + last =~= fields_text(fields));
        }
        parts
    }
}

proof fn rejoined_push(parts: Seq<Seq<char>>, last: Seq<char>)
    ensures
        parts.len() == 0 ==> rejoined(parts.push(last), ' ') == last,
        parts.len() > 0 ==> rejoined(parts.push(last), ' ') == rejoined(parts, ' ').push(' ') + last,
    decreases parts.len(),
{
    let all = parts.push(last);
    if parts.len() > 0 {
        assert(all.drop_first() =~= parts.drop_first().push(last));
        rejoined_push(parts.drop_first(), last);
        if parts.len() == 1 {
            assert(all.drop_first() =~= seq![last]);
            assert(rejoined(all.drop_first(), ' ') == last);
        } else {
            assert(rejoined(all, ' ') =~= rejoined(parts, ' ').push(' ') + last);
        }
    }
}

/// The line of a summary is its fields with a space between each two: each is
/// its label, an equals sign and its own value in decimal.
pub proof fn a_line_shows_each_value(values: Snapshot, r: String) -> (parts: Seq<Seq<char>>)
    requires
        call_ensures(Snapshot::line, (&values,), r),
    ensures
        rejoined(parts, ' ') == r@,
        parts.len() == 33,
        parts[0] == "opened"@ + "="@ + crate::text::signed(values.opened as int),
        parts[1] == "closed"@ + "="@ + crate::text::signed(values.closed as int),
        parts[2] == "active"@ + "="@ + crate::text::signed(values.active as int),
        parts[3] == "pending"@ + "="@ + crate::text::signed(values.pending as int),
        parts[4] == "orphaned"@ + "="@ + crate::text::signed(values.orphaned as int),
        parts[5] == "aborted"@ + "="@ + crate::text::signed(values.aborted as int),
        parts[6] == "tasks"@ + "="@ + crate::text::signed(values.tasks as int),
        parts[7] == "cancelled"@ + "="@ + crate::text::signed(values.cancelled as int),
        parts[8] == "take_errors"@ + "="@ + crate::text::signed(values.take_errors as int),
        parts[9] == "target_mismatches"@ + "="@ + crate::text::signed(
            values.target_mismatches as int,
        ),
        parts[10] == "session_mismatches"@ + "="@ + crate::text::signed(
            values.session_mismatches as int,
        ),
        parts[11] == "sessionless_refusals"@ + "="@ + crate::text::signed(
            values.sessionless_refusals as int,
        ),
        parts[12] == "stack_builds"@ + "="@ + crate::text::signed(values.stack_builds as int),
        parts[13] == "stack_hits"@ + "="@ + crate::text::signed(values.stack_hits as int),
        parts[14] == "stack_misses"@ + "="@ + crate::text::signed(values.stack_misses as int),
        parts[15] == "stack_configure_ns"@ + "="@ + crate::text::signed(
            values.stack_configure_ns as int,
        ),
        parts[16] == "stack_layers_ns"@ + "="@ + crate::text::signed(values.stack_layers_ns as int),
        parts[17] == "stack_service_ns"@ + "="@ + crate::text::signed(
            values.stack_service_ns as int,
        ),
        parts[18] == "retired_slots"@ + "="@ + crate::text::signed(values.retired_slots as int),
        parts[19] == "worker_drains"@ + "="@ + crate::text::signed(values.worker_drains as int),
        parts[20] == "worker_progressed"@ + "="@ + crate::text::signed(
            values.worker_progressed as int,
        ),
        parts[21] == "progress_age_ms"@ + "="@ + crate::text::signed(values.progress_age_ms as int),
        parts[22] == "completion_q"@ + "="@ + crate::text::signed(values.completion_q as int),
        parts[23] == "cross_q"@ + "="@ + crate::text::signed(values.cross_q as int),
        parts[24] == "deferred_recv"@ + "="@ + crate::text::signed(values.deferred_recv as int),
        parts[25] == "dma_inflight"@ + "="@ + crate::text::signed(values.dma_inflight as int),
        parts[26] == "dma_retries"@ + "="@ + crate::text::signed(values.dma_retries as int),
        parts[27] == "dma_stalled"@ + "="@ + crate::text::signed(values.dma_stalled as int),
        parts[28] == "stalled_conns"@ + "="@ + crate::text::signed(values.stalled_conns as int),
        parts[29] == "emit_pending"@ + "="@ + crate::text::signed(values.emit_pending as int),
        parts[30] == "ack_release_q"@ + "="@ + crate::text::signed(values.ack_release_q as int),
        parts[31] == "ack_retry"@ + "="@ + crate::text::signed(values.ack_retry as int),
        parts[32] == "remote_fin"@ + "="@ + crate::text::signed(values.remote_fin as int),
{
    let fields = values.fields();
    let parts = fields_rejoin(fields);
    assert(fields.len() == 33);
    assert(parts[0] == fields[0].0 + "="@ + crate::text::signed(fields[0].1));
    assert(parts[1] == fields[1].0 + "="@ + crate::text::signed(fields[1].1));
    assert(parts[2] == fields[2].0 + "="@ + crate::text::signed(fields[2].1));
    assert(parts[3] == fields[3].0 + "="@ + crate::text::signed(fields[3].1));
    assert(parts[4] == fields[4].0 + "="@ + crate::text::signed(fields[4].1));
    assert(parts[5] == fields[5].0 + "="@ + crate::text::signed(fields[5].1));
    assert(parts[6] == fields[6].0 + "="@ + crate::text::signed(fields[6].1));
    assert(parts[7] == fields[7].0 + "="@ + crate::text::signed(fields[7].1));
    assert(parts[8] == fields[8].0 + "="@ + crate::text::signed(fields[8].1));
    assert(parts[9] == fields[9].0 + "="@ + crate::text::signed(fields[9].1));
    assert(parts[10] == fields[10].0 + "="@ + crate::text::signed(fields[10].1));
    assert(parts[11] == fields[11].0 + "="@ + crate::text::signed(fields[11].1));
    assert(parts[12] == fields[12].0 + "="@ + crate::text::signed(fields[12].1));
    assert(parts[13] == fields[13].0 + "="@ + crate::text::signed(fields[13].1));
    assert(parts[14] == fields[14].0 + "="@ + crate::text::signed(fields[14].1));
    assert(parts[15] == fields[15].0 + "="@ + crate::text::signed(fields[15].1));
    assert(parts[16] == fields[16].0 + "="@ + crate::text::signed(fields[16].1));
    assert(parts[17] == fields[17].0 + "="@ + crate::text::signed(fields[17].1));
    assert(parts[18] == fields[18].0 + "="@ + crate::text::signed(fields[18].1));
    assert(parts[19] == fields[19].0 + "="@ + crate::text::signed(fields[19].1));
    assert(parts[20] == fields[20].0 + "="@ + crate::text::signed(fields[20].1));
    assert(parts[21] == fields[21].0 + "="@ + crate::text::signed(fields[21].1));
    assert(parts[22] == fields[22].0 + "="@ + crate::text::signed(fields[22].1));
    assert(parts[23] == fields[23].0 + "="@ + crate::text::signed(fields[23].1));
    assert(parts[24] == fields[24].0 + "="@ + crate::text::signed(fields[24].1));
    assert(parts[25] == fields[25].0 + "="@ + crate::text::signed(fields[25].1));
    assert(parts[26] == fields[26].0 + "="@ + crate::text::signed(fields[26].1));
    assert(parts[27] == fields[27].0 + "="@ + crate::text::signed(fields[27].1));
    assert(parts[28] == fields[28].0 + "="@ + crate::text::signed(fields[28].1));
    assert(parts[29] == fields[29].0 + "="@ + crate::text::signed(fields[29].1));
    assert(parts[30] == fields[30].0 + "="@ + crate::text::signed(fields[30].1));
    assert(parts[31] == fields[31].0 + "="@ + crate::text::signed(fields[31].1));
    assert(parts[32] == fields[32].0 + "="@ + crate::text::signed(fields[32].1));
    parts
}

/// A summary shows of each metric a value that was read from that metric: the
/// line of the values that are returned with the fields.
pub proof fn a_summary_shows_what_was_read(metrics: SessionMetrics, r: String) -> (shown: (
    Seq<Seq<char>>,
    Snapshot,
))
    requires
        call_ensures(SessionMetrics::summary, (&metrics,), r),
    ensures
        rejoined(shown.0, ' ') == r@,
        shown.0.len() == 33,
        shown.0[0] == "opened"@ + "="@ + crate::text::signed(shown.1.opened as int),
        shown.0[1] == "closed"@ + "="@ + crate::text::signed(shown.1.closed as int),
        shown.0[2] == "active"@ + "="@ + crate::text::signed(shown.1.active as int),
        shown.0[3] == "pending"@ + "="@ + crate::text::signed(shown.1.pending as int),
        shown.0[4] == "orphaned"@ + "="@ + crate::text::signed(shown.1.orphaned as int),
        shown.0[5] == "aborted"@ + "="@ + crate::text::signed(shown.1.aborted as int),
        shown.0[6] == "tasks"@ + "="@ + crate::text::signed(shown.1.tasks as int),
        shown.0[7] == "cancelled"@ + "="@ + crate::text::signed(shown.1.cancelled as int),
        shown.0[8] == "take_errors"@ + "="@ + crate::text::signed(shown.1.take_errors as int),
        shown.0[9] == "target_mismatches"@ + "="@ + crate::text::signed(
            shown.1.target_mismatches as int,
        ),
        shown.0[10] == "session_mismatches"@ + "="@ + crate::text::signed(
            shown.1.session_mismatches as int,
        ),
        shown.0[11] == "sessionless_refusals"@ + "="@ + crate::text::signed(
            shown.1.sessionless_refusals as int,
        ),
        shown.0[12] == "stack_builds"@ + "="@ + crate::text::signed(shown.1.stack_builds as int),
        shown.0[13] == "stack_hits"@ + "="@ + crate::text::signed(shown.1.stack_hits as int),
        shown.0[14] == "stack_misses"@ + "="@ + crate::text::signed(shown.1.stack_misses as int),
        shown.0[15] == "stack_configure_ns"@ + "="@ + crate::text::signed(
            shown.1.stack_configure_ns as int,
        ),
        shown.0[16] == "stack_layers_ns"@ + "="@ + crate::text::signed(
            shown.1.stack_layers_ns as int,
        ),
        shown.0[17] == "stack_service_ns"@ + "="@ + crate::text::signed(
            shown.1.stack_service_ns as int,
        ),
        shown.0[18] == "retired_slots"@ + "="@ + crate::text::signed(shown.1.retired_slots as int),
        shown.0[19] == "worker_drains"@ + "="@ + crate::text::signed(shown.1.worker_drains as int),
        shown.0[20] == "worker_progressed"@ + "="@ + crate::text::signed(
            shown.1.worker_progressed as int,
        ),
        shown.0[21] == "progress_age_ms"@ + "="@ + crate::text::signed(
            shown.1.progress_age_ms as int,
        ),
        shown.0[22] == "completion_q"@ + "="@ + crate::text::signed(shown.1.completion_q as int),
        shown.0[23] == "cross_q"@ + "="@ + crate::text::signed(shown.1.cross_q as int),
        shown.0[24] == "deferred_recv"@ + "="@ + crate::text::signed(shown.1.deferred_recv as int),
        shown.0[25] == "dma_inflight"@ + "="@ + crate::text::signed(shown.1.dma_inflight as int),
        shown.0[26] == "dma_retries"@ + "="@ + crate::text::signed(shown.1.dma_retries as int),
        shown.0[27] == "dma_stalled"@ + "="@ + crate::text::signed(shown.1.dma_stalled as int),
        shown.0[28] == "stalled_conns"@ + "="@ + crate::text::signed(shown.1.stalled_conns as int),
        shown.0[29] == "emit_pending"@ + "="@ + crate::text::signed(shown.1.emit_pending as int),
        shown.0[30] == "ack_release_q"@ + "="@ + crate::text::signed(shown.1.ack_release_q as int),
        shown.0[31] == "ack_retry"@ + "="@ + crate::text::signed(shown.1.ack_retry as int),
        shown.0[32] == "remote_fin"@ + "="@ + crate::text::signed(shown.1.remote_fin as int),
        counter_read(metrics.sessions_opened, shown.1.opened),
        counter_read(metrics.sessions_closed, shown.1.closed),
        gauge_read(metrics.sessions_active, shown.1.active),
        gauge_read(metrics.registrations_pending, shown.1.pending),
        counter_read(metrics.registrations_orphaned, shown.1.orphaned),
        counter_read(metrics.endpoints_aborted, shown.1.aborted),
        gauge_read(metrics.tasks_live, shown.1.tasks),
        counter_read(metrics.tasks_cancelled, shown.1.cancelled),
        counter_read(metrics.backend_take_errors, shown.1.take_errors),
        counter_read(metrics.backend_target_mismatches, shown.1.target_mismatches),
        counter_read(metrics.backend_session_mismatches, shown.1.session_mismatches),
        counter_read(metrics.backend_sessionless_refusals, shown.1.sessionless_refusals),
        counter_read(metrics.session_stack_builds, shown.1.stack_builds),
        counter_read(metrics.session_stack_cache_hits, shown.1.stack_hits),
        counter_read(metrics.session_stack_cache_misses, shown.1.stack_misses),
        counter_read(metrics.session_stack_configure_nanoseconds, shown.1.stack_configure_ns),
        counter_read(metrics.session_stack_layers_nanoseconds, shown.1.stack_layers_ns),
        counter_read(metrics.session_stack_service_nanoseconds, shown.1.stack_service_ns),
        gauge_read(metrics.slots_retired, shown.1.retired_slots),
        counter_read(metrics.worker_drain_calls, shown.1.worker_drains),
        counter_read(metrics.worker_drain_progressed, shown.1.worker_progressed),
        gauge_read(metrics.worker_last_progress_age_milliseconds, shown.1.progress_age_ms),
        gauge_read(metrics.worker_completion_queue_depth, shown.1.completion_q),
        gauge_read(metrics.worker_cross_queue_depth, shown.1.cross_q),
        gauge_read(metrics.worker_deferred_receives, shown.1.deferred_recv),
        gauge_read(metrics.worker_dma_tasks_inflight, shown.1.dma_inflight),
        gauge_read(metrics.worker_dma_retry_batches, shown.1.dma_retries),
        gauge_read(metrics.worker_dma_stalled, shown.1.dma_stalled),
        gauge_read(metrics.worker_stalled_connections, shown.1.stalled_conns),
        gauge_read(metrics.worker_emit_pending, shown.1.emit_pending),
        gauge_read(metrics.worker_ack_release_depth, shown.1.ack_release_q),
        gauge_read(metrics.worker_ack_retry_pending, shown.1.ack_retry),
        gauge_read(metrics.worker_remote_fin_pending, shown.1.remote_fin),
{
    let values = choose|values: Snapshot| #[trigger]
        metrics.reads(values) && r@ == fields_text(values.fields());
    let fields = values.fields();
    let parts = fields_rejoin(fields);
    assert(fields.len() == 33);
    assert(parts[0] == fields[0].0 + "="@ + crate::text::signed(fields[0].1));
    assert(parts[1] == fields[1].0 + "="@ + crate::text::signed(fields[1].1));
    assert(parts[2] == fields[2].0 + "="@ + crate::text::signed(fields[2].1));
    assert(parts[3] == fields[3].0 + "="@ + crate::text::signed(fields[3].1));
    assert(parts[4] == fields[4].0 + "="@ + crate::text::signed(fields[4].1));
    assert(parts[5] == fields[5].0 + "="@ + crate::text::signed(fields[5].1));
    assert(parts[6] == fields[6].0 + "="@ + crate::text::signed(fields[6].1));
    assert(parts[7] == fields[7].0 + "="@ + crate::text::signed(fields[7].1));
    assert(parts[8] == fields[8].0 + "="@ + crate::text::signed(fields[8].1));
    assert(parts[9] == fields[9].0 + "="@ + crate::text::signed(fields[9].1));
    assert(parts[10] == fields[10].0 + "="@ + crate::text::signed(fields[10].1));
    assert(parts[11] == fields[11].0 + "="@ + crate::text::signed(fields[11].1));
    assert(parts[12] == fields[12].0 + "="@ + crate::text::signed(fields[12].1));
    assert(parts[13] == fields[13].0 + "="@ + crate::text::signed(fields[13].1));
    assert(parts[14] == fields[14].0 + "="@ + crate::text::signed(fields[14].1));
    assert(parts[15] == fields[15].0 + "="@ + crate::text::signed(fields[15].1));
    assert(parts[16] == fields[16].0 + "="@ + crate::text::signed(fields[16].1));
    assert(parts[17] == fields[17].0 + "="@ + crate::text::signed(fields[17].1));
    assert(parts[18] == fields[18].0 + "="@ + crate::text::signed(fields[18].1));
    assert(parts[19] == fields[19].0 + "="@ + crate::text::signed(fields[19].1));
    assert(parts[20] == fields[20].0 + "="@ + crate::text::signed(fields[20].1));
    assert(parts[21] == fields[21].0 + "="@ + crate::text::signed(fields[21].1));
    assert(parts[22] == fields[22].0 + "="@ + crate::text::signed(fields[22].1));
    assert(parts[23] == fields[23].0 + "="@ + crate::text::signed(fields[23].1));
    assert(parts[24] == fields[24].0 + "="@ + crate::text::signed(fields[24].1));
    assert(parts[25] == fields[25].0 + "="@ + crate::text::signed(fields[25].1));
    assert(parts[26] == fields[26].0 + "="@ + crate::text::signed(fields[26].1));
    assert(parts[27] == fields[27].0 + "="@ + crate::text::signed(fields[27].1));
    assert(parts[28] == fields[28].0 + "="@ + crate::text::signed(fields[28].1));
    assert(parts[29] == fields[29].0 + "="@ + crate::text::signed(fields[29].1));
    assert(parts[30] == fields[30].0 + "="@ + crate::text::signed(fields[30].1));
    assert(parts[31] == fields[31].0 + "="@ + crate::text::signed(fields[31].1));
    assert(parts[32] == fields[32].0 + "="@ + crate::text::signed(fields[32].1));
    (parts, values)
}

/// A worker has quiesced exactly where the sessions that it carries, the
/// registrations that wait and the tasks that live were each read as none.
pub proof fn a_quiet_worker_carries_nothing(metrics: SessionMetrics, r: bool) -> (read: (
    i64,
    i64,
    i64,
))
    requires
        call_ensures(SessionMetrics::quiescent, (&metrics,), r),
    ensures
        gauge_read(metrics.sessions_active, read.0),
        gauge_read(metrics.registrations_pending, read.1),
        gauge_read(metrics.tasks_live, read.2),
        r <==> read.0 == 0 && read.1 == 0 && read.2 == 0,
        forall|active: i64, pending: i64, tasks: i64, quiet: bool| #[trigger]
            call_ensures(is_quiescent, (active, pending, tasks), quiet) ==> (quiet <==> active == 0
                && pending == 0 && tasks == 0),
{
    let (active, pending, tasks) = choose|active: i64, pending: i64, tasks: i64|
        #![trigger gauge_read(metrics.sessions_active, active), gauge_read(
            metrics.registrations_pending,
            pending,
        ), gauge_read(metrics.tasks_live, tasks)]
        gauge_read(metrics.sessions_active, active) && gauge_read(
            metrics.registrations_pending,
            pending,
        ) && gauge_read(metrics.tasks_live, tasks) && (r <==> active == 0 && pending == 0 && tasks
            == 0);
    (active, pending, tasks)
}

/// An admission decision is counted under its kind and its reason, and a refused
/// session under its reason.
pub proof fn events_are_counted_by_their_labels(
    metrics: SessionMetrics,
    control_events: Events,
    kind: &str,
    reason: &str,
)
    ensures
        call_ensures(record_control_event, (&control_events, kind, reason), ()) ==> event_counted(
            control_events,
            seq![("kind"@, kind@), ("reason"@, reason@)],
        ),
        call_ensures(SessionMetrics::record_decline, (&metrics, reason), ()) ==> event_counted(
            metrics.sessions_declined,
            seq![("reason"@, reason@)],
        ),
        forall|labels: ControlEventLabels, r: Vec<(String, String)>| #[trigger]
            call_ensures(ControlEventLabels::pairs, (&labels,), r) ==> r@.len() == 2 && r@[0].0@
                == "kind"@ && r@[0].1@ == labels.kind@ && r@[1].0@ == "reason"@ && r@[1].1@
                == labels.reason@,
        forall|labels: DeclineLabels, r: Vec<(String, String)>| #[trigger]
            call_ensures(DeclineLabels::pairs, (&labels,), r) ==> r@.len() == 1 && r@[0].0@
                == "reason"@ && r@[0].1@ == labels.reason@,
{
}

/// A time is counted in nanoseconds, up to what a counter can hold.
pub proof fn times_are_saturated(nanoseconds: u128, r: u64)
    requires
        call_ensures(nanos, (nanoseconds,), r),
    ensures
        nanoseconds <= 0xffff_ffff_ffff_ffff ==> r == nanoseconds,
        nanoseconds > 0xffff_ffff_ffff_ffff ==> r == 0xffff_ffff_ffff_ffff,
{
}

/// Building a stack counts one build, and the time of each phase under its own
/// name.
pub proof fn a_build_counts_its_phases(
    metrics: SessionMetrics,
    configure: u64,
    layers: u64,
    service: u64,
)
    requires
        call_ensures(
            SessionMetrics::observe_stack_build,
            (&metrics, configure as u128, layers as u128, service as u128),
            (),
        ),
    ensures
        counted(metrics.session_stack_builds),
        counted_by(metrics.session_stack_configure_nanoseconds, configure),
        counted_by(metrics.session_stack_layers_nanoseconds, layers),
        counted_by(metrics.session_stack_service_nanoseconds, service),
{
}

} // verus!
