//! Session identity and the events of a session's life.
use vstd::prelude::*;

use crate::net::SocketAddrV4;
use crate::text::push_decimal;

verus! {

/// Connection slots used by the bundled datapath.
pub const MAX_CONNS: usize = 8;

/// What a session is for, as the datapath presents it to the acceptor.
#[derive(Debug)]
pub struct FlowId {
    pub src: SocketAddrV4,
    pub dst: SocketAddrV4,
    /// Source workload identity.
    pub workload: String,
    /// The connection provides the service at `dst`.
    pub is_backend: bool,
}

impl Clone for FlowId {
    fn clone(&self) -> (r: Self)
        ensures
            r == *self,
    {
        FlowId {
            src: self.src,
            dst: self.dst,
            workload: self.workload.clone(),
            is_backend: self.is_backend,
        }
    }
}

/// Names one session for its whole lifetime.
///
/// A slot is an index into the datapath's session table and is reused. The
/// generation counts how often that slot has been handed out, so an event
/// carrying an old generation cannot bind to the session now holding the slot.
#[derive(Clone, Copy, Debug, Eq, Hash, Ord, PartialEq, PartialOrd, Structural)]
pub struct SessionToken {
    /// The worker owning the session.
    pub worker: u16,
    pub slot: u32,
    pub generation: u32,
}

impl SessionToken {
    pub fn new(worker: u16, slot: u32, generation: u32) -> (r: Self)
        ensures
            r == (SessionToken { worker, slot, generation }),
    {
        SessionToken { worker, slot, generation }
    }

    /// `w<worker>/s<slot>/g<generation>`.
    pub open spec fn spec_display(self) -> Seq<char> {
        "w"@ + crate::text::decimal(self.worker as nat) + "/s"@ + crate::text::decimal(
            self.slot as nat,
        ) + "/g"@ + crate::text::decimal(self.generation as nat)
    }

    /// The token as text.
    pub fn display(&self) -> (r: String)
        ensures
            r@ == self.spec_display(),
    {
        let mut out = String::new();
        out.append("w");
        push_decimal(&mut out, self.worker as u64);
        out.append("/s");
        push_decimal(&mut out, self.slot as u64);
        out.append("/g");
        push_decimal(&mut out, self.generation as u64);
        assert(out@ =~= self.spec_display());
        out
    }
}

/// Slot allocator handing out monotonically increasing generations.
///
/// A slot returns to the free list on release and is handed out again with the
/// next generation. A slot whose generation would wrap is retired instead: no
/// token is ever issued twice.
#[derive(Debug)]
pub struct Slots {
    pub worker: u16,
    pub next_slot: u32,
    /// The last generation handed out, by slot.
    pub generations: Vec<u32>,
    /// The slots that may be handed out again, last released first.
    pub free: Vec<u32>,
    /// Whether a slot has been withdrawn from reuse, by slot.
    pub withdrawn: Vec<bool>,
    /// How many slots have been withdrawn.
    pub retired: u32,
}

/// How many of `flags` are set.
pub open spec fn count_set(flags: Seq<bool>) -> nat
    decreases flags.len(),
{
    if flags.len() == 0 {
        0
    } else {
        count_set(flags.drop_last()) + if flags.last() {
            1nat
        } else {
            0
        }
    }
}

/// Setting one more flag counts one more, and there are at most as many set as
/// there are flags.
proof fn count_one_more(flags: Seq<bool>, i: int)
    requires
        0 <= i < flags.len(),
        !flags[i],
    ensures
        count_set(flags.update(i, true)) == count_set(flags) + 1,
        count_set(flags) < flags.len(),
    decreases flags.len(),
{
    let next = flags.update(i, true);
    if i == flags.len() - 1 {
        assert(next.drop_last() =~= flags.drop_last());
        count_bounded(flags.drop_last());
    } else {
        assert(next.drop_last() =~= flags.drop_last().update(i, true));
        count_one_more(flags.drop_last(), i);
    }
}

proof fn count_bounded(flags: Seq<bool>)
    ensures
        count_set(flags) <= flags.len(),
    decreases flags.len(),
{
    if flags.len() > 0 {
        count_bounded(flags.drop_last());
    }
}

impl Slots {
    /// Every slot has a generation, a slot on the free list is there once and
    /// has a generation left, and a slot that was withdrawn is counted and not
    /// on the free list.
    pub open spec fn wf(self) -> bool {
        &&& self.generations@.len() == self.next_slot
        &&& self.withdrawn@.len() == self.next_slot
        &&& self.retired == count_set(self.withdrawn@)
        &&& self.free@.no_duplicates()
        &&& forall|i: int|
            0 <= i < self.free@.len() ==> (#[trigger] self.free@[i]) < self.next_slot
                && self.generations@[self.free@[i] as int] < u32::MAX
                && !self.withdrawn@[self.free@[i] as int]
        &&& forall|i: int|
            0 <= i < self.withdrawn@.len() && #[trigger] self.withdrawn@[i]
                ==> self.generations@[i] == u32::MAX
    }

    /// `token` has been handed out by this allocator.
    pub open spec fn issued(self, token: SessionToken) -> bool {
        &&& token.worker == self.worker
        &&& token.slot < self.generations@.len()
        &&& token.generation <= self.generations@[token.slot as int]
    }

    /// `token` is the last generation of its slot and has not been returned.
    pub open spec fn live(self, token: SessionToken) -> bool {
        &&& token.slot < self.generations@.len()
        &&& token.generation == self.generations@[token.slot as int]
        &&& !self.free@.contains(token.slot)
        &&& !self.withdrawn@[token.slot as int]
    }

    /// No token can be handed out.
    pub open spec fn exhausted(self) -> bool {
        self.free@.len() == 0 && self.next_slot == u32::MAX
    }

    pub fn new(worker: u16) -> (r: Self)
        ensures
            r.wf(),
            r.worker == worker,
            r.next_slot == 0,
            r.generations@ == Seq::<u32>::empty(),
            r.free@ == Seq::<u32>::empty(),
            r.withdrawn@ == Seq::<bool>::empty(),
            r.retired == 0,
    {
        Slots {
            worker,
            next_slot: 0,
            generations: Vec::new(),
            free: Vec::new(),
            withdrawn: Vec::new(),
            retired: 0,
        }
    }

    /// Take a token, or `None` once every slot is retired or exhausted.
    pub fn allocate(&mut self) -> (r: Option<SessionToken>)
        requires
            old(self).wf(),
        ensures
            final(self).wf(),
            final(self).worker == old(self).worker,
            final(self).retired == old(self).retired,
            r is None <==> old(self).exhausted(),
            r is None ==> {
                &&& final(self).generations@ == old(self).generations@
                &&& final(self).free@ == old(self).free@
                &&& final(self).next_slot == old(self).next_slot
                &&& final(self).withdrawn@ == old(self).withdrawn@
            },
            r matches Some(token) ==> {
                &&& final(self).live(token)
                &&& token.worker == old(self).worker
                &&& if old(self).free@.len() > 0 {
                    let slot = old(self).free@.last();
                    let generation = (old(self).generations@[slot as int] + 1) as u32;
                    &&& token == (SessionToken { worker: old(self).worker, slot, generation })
                    &&& final(self).generations@ == old(self).generations@.update(
                        slot as int,
                        generation,
                    )
                    &&& final(self).free@ == old(self).free@.drop_last()
                    &&& final(self).next_slot == old(self).next_slot
                    &&& final(self).withdrawn@ == old(self).withdrawn@
                } else {
                    &&& token == (SessionToken {
                        worker: old(self).worker,
                        slot: old(self).next_slot,
                        generation: 0,
                    })
                    &&& final(self).generations@ == old(self).generations@.push(0)
                    &&& final(self).free@ == old(self).free@
                    &&& final(self).next_slot == old(self).next_slot + 1
                    &&& final(self).withdrawn@ == old(self).withdrawn@.push(false)
                }
            },
            issues(*old(self), *final(self), r),
    {
        match self.free.pop() {
            Some(slot) => {
                // The wrap check happens on release, so a slot on the free
                // list always has a generation left.
                assert(old(self).free@[old(self).free@.len() - 1] == slot);
                let generation: u32 = self.generations[slot as usize] + 1;
                self.generations[slot as usize] = generation;
                assert(forall|i: int|
                    0 <= i < self.free@.len() ==> self.free@[i] == old(self).free@[i]);
                Some(SessionToken::new(self.worker, slot, generation))
            },
            None => {
                let slot: u32 = self.next_slot;
                match slot.checked_add(1) {
                    Some(next) => {
                        self.next_slot = next;
                        self.generations.push(0);
                        self.withdrawn.push(false);
                        assert(self.withdrawn@.drop_last() =~= old(self).withdrawn@);
                        Some(SessionToken::new(self.worker, slot, 0))
                    },
                    None => None,
                }
            },
        }
    }

    /// Return a slot for reuse. A slot on its last generation is retired.
    ///
    /// Only the live generation owns the slot: a late release names a session
    /// that already gave it back, and changes nothing.
    pub fn release(&mut self, token: SessionToken)
        requires
            old(self).wf(),
        ensures
            final(self).wf(),
            final(self).worker == old(self).worker,
            final(self).next_slot == old(self).next_slot,
            final(self).generations@ == old(self).generations@,
            final(self).free@ == if old(self).live(token) && token.generation < u32::MAX {
                old(self).free@.push(token.slot)
            } else {
                old(self).free@
            },
            final(self).retired == if old(self).live(token) && token.generation == u32::MAX {
                old(self).retired + 1
            } else {
                old(self).retired as int
            },
            final(self).withdrawn@ == if old(self).live(token) && token.generation == u32::MAX {
                old(self).withdrawn@.update(token.slot as int, true)
            } else {
                old(self).withdrawn@
            },
            issues(*old(self), *final(self), None),
    {
        if (token.slot as usize) >= self.generations.len() {
            return;
        }
        let generation: u32 = self.generations[token.slot as usize];
        if generation != token.generation || contains(&self.free, token.slot)
            || self.withdrawn[token.slot as usize] {
            return;
        }
        if generation == u32::MAX {
            proof {
                count_one_more(self.withdrawn@, token.slot as int);
            }
            self.withdrawn[token.slot as usize] = true;
            self.retired = self.retired + 1;
            return;
        }
        self.free.push(token.slot);
    }

    /// Slots withdrawn from reuse because their generation space ran out.
    pub fn retired(&self) -> (r: u32)
        requires
            self.wf(),
        ensures
            r == count_set(self.withdrawn@),
    {
        self.retired
    }
}

/// Between the two states the allocator handed out `token`, which it had not
/// handed out before, and nothing else.
pub open spec fn issues(before: Slots, after: Slots, token: Option<SessionToken>) -> bool {
    &&& after.worker == before.worker
    &&& token matches Some(t) ==> !before.issued(t)
    &&& forall|t: SessionToken| #[trigger]
        after.issued(t) <==> before.issued(t) || token == Some(t)
}

/// A run of allocations and releases: `issued[i]` is what the step from
/// `states[i]` handed out.
pub open spec fn is_run(states: Seq<Slots>, issued: Seq<Option<SessionToken>>) -> bool {
    &&& states.len() == issued.len() + 1
    &&& forall|k: int|
        0 <= k < issued.len() ==> #[trigger] issues(states[k], states[k + 1], issued[k])
}

/// No token is ever issued twice: over any run, two steps never hand out the
/// same token.
pub proof fn no_token_is_issued_twice(
    states: Seq<Slots>,
    issued: Seq<Option<SessionToken>>,
    i: int,
    j: int,
)
    requires
        is_run(states, issued),
        0 <= i < j < issued.len(),
        issued[i] is Some,
    ensures
        issued[i] != issued[j],
{
    let token = issued[i]->0;
    assert(issues(states[i], states[i + 1], issued[i]));
    issued_stays(states, issued, i + 1, j, token);
    assert(issues(states[j], states[j + 1], issued[j]));
}

proof fn issued_stays(
    states: Seq<Slots>,
    issued: Seq<Option<SessionToken>>,
    from: int,
    to: int,
    token: SessionToken,
)
    requires
        is_run(states, issued),
        0 <= from <= to < states.len(),
        states[from].issued(token),
    ensures
        states[to].issued(token),
    decreases to - from,
{
    if from < to {
        assert(issues(states[from], states[from + 1], issued[from]));
        issued_stays(states, issued, from + 1, to, token);
    }
}

/// The generations of `slot` that were handed out, in order.
pub open spec fn generations_of(issued: Seq<Option<SessionToken>>, slot: u32) -> Seq<u32>
    decreases issued.len(),
{
    if issued.len() == 0 {
        Seq::empty()
    } else {
        let before = generations_of(issued.drop_last(), slot);
        match issued.last() {
            Some(token) => if token.slot == slot {
                before.push(token.generation)
            } else {
                before
            },
            None => before,
        }
    }
}

impl Slots {
    /// How many generations of `slot` have been handed out.
    spec fn handed_out(self, slot: u32) -> int {
        if slot < self.generations@.len() {
            self.generations@[slot as int] + 1
        } else {
            0
        }
    }
}

/// A token that is handed out has the next generation of its slot.
proof fn next_generation(before: Slots, after: Slots, token: Option<SessionToken>, slot: u32)
    requires
        issues(before, after, token),
    ensures
        after.handed_out(slot) == before.handed_out(slot) + if token matches Some(t) && t.slot
            == slot {
            1int
        } else {
            0
        },
        token matches Some(t) ==> t.worker == before.worker && (t.slot == slot ==> t.generation
            == before.handed_out(slot)),
{
    let n = before.handed_out(slot);
    let m = after.handed_out(slot);
    let named = |g: int| SessionToken { worker: before.worker, slot, generation: g as u32 };
    if m < n {
        assert(before.issued(named(m)));
        assert(after.issued(named(m)));
    }
    if m > n {
        assert(after.issued(named(n)));
        assert(token == Some(named(n)));
        if m > n + 1 {
            assert(after.issued(named(n + 1)));
        }
    }
    if let Some(t) = token {
        assert(after.issued(t));
    }
}

/// Each slot hands out its generations as 0, 1, 2, and so on: over any run of
/// a new allocator they come in that order, without a gap or a wrap, and every
/// token names the allocator's worker.
pub proof fn generations_count_up(
    states: Seq<Slots>,
    issued: Seq<Option<SessionToken>>,
    slot: u32,
)
    requires
        is_run(states, issued),
        states[0].generations@.len() == 0,
    ensures
        forall|k: int|
            0 <= k < generations_of(issued, slot).len() ==> #[trigger] generations_of(
                issued,
                slot,
            )[k] == k,
        forall|k: int|
            0 <= k < issued.len() ==> ((#[trigger] issued[k]) matches Some(token) ==> token.worker
                == states[0].worker),
{
    counts_up(states, issued, slot);
}

proof fn counts_up(states: Seq<Slots>, issued: Seq<Option<SessionToken>>, slot: u32)
    requires
        is_run(states, issued),
        states[0].generations@.len() == 0,
    ensures
        generations_of(issued, slot).len() == states.last().handed_out(slot),
        states.last().worker == states[0].worker,
        forall|k: int|
            0 <= k < generations_of(issued, slot).len() ==> #[trigger] generations_of(
                issued,
                slot,
            )[k] == k,
        forall|k: int|
            0 <= k < issued.len() ==> ((#[trigger] issued[k]) matches Some(token) ==> token.worker
                == states[0].worker),
    decreases issued.len(),
{
    if issued.len() > 0 {
        let n = issued.len() as int;
        let earlier = issued.drop_last();
        let before = states.drop_last();
        assert forall|k: int| 0 <= k < earlier.len() implies #[trigger] issues(
            before[k],
            before[k + 1],
            earlier[k],
        ) by {
            assert(issues(states[k], states[k + 1], issued[k]));
        }
        counts_up(before, earlier, slot);
        assert(issues(states[n - 1], states[n - 1 + 1], issued[n - 1]));
        assert(before.last() == states[n - 1]);
        next_generation(states[n - 1], states[n], issued[n - 1], slot);
        assert forall|k: int| 0 <= k < n implies ((#[trigger] issued[k]) matches Some(token)
            ==> token.worker == states[0].worker) by {
            if k < n - 1 {
                assert(earlier[k] == issued[k]);
            }
        }
    }
}

/// A token that is not the live one of its slot is released without effect: a
/// late release cannot free the session that holds the slot now.
pub proof fn reuse_outlives_a_late_release(slots: Slots, old_token: SessionToken)
    requires
        slots.wf(),
        slots.issued(old_token),
        old_token.generation < slots.generations@[old_token.slot as int],
    ensures
        !slots.live(old_token),
{
}

/// A slot that was withdrawn is never handed out again: the slot of the next
/// token is not one of those that are counted.
pub proof fn a_withdrawn_slot_stays_withdrawn(slots: Slots, slot: u32)
    requires
        slots.wf(),
        slot < slots.next_slot,
        slots.withdrawn@[slot as int],
    ensures
        !slots.free@.contains(slot),
        slot != slots.next_slot,
        forall|generation: u32| !slots.live(SessionToken { worker: slots.worker, slot, generation }),
{
}

/// Whether `slot` is in `free`.
fn contains(free: &Vec<u32>, slot: u32) -> (r: bool)
    ensures
        r == free@.contains(slot),
{
    let mut i: usize = 0;
    while i < free.len()
        invariant
            i <= free.len(),
            forall|j: int| 0 <= j < i ==> free@[j] != slot,
        decreases free.len() - i,
    {
        if free[i] == slot {
            return true;
        }
        i = i + 1;
    }
    false
}

/// Binds an endpoint's handle to its session.
#[derive(Debug)]
pub struct Registration<H> {
    pub token: SessionToken,
    pub handle: H,
}

/// Lifecycle events of the datapath.
#[derive(Debug)]
pub enum DmeshEvent {
    /// Shared infrastructure is ready.
    InfraReady,
    /// A connection is ready in this session.
    ConnReady(SessionToken, FlowId),
    /// A connection was unbound.
    ConnClosed(SessionToken),
    /// Connection setup failed.
    ConnError(SessionToken),
    /// Datapath counter deltas over `elapsed_ms`.
    Stats {
        elapsed_ms: u64,
        recv_msgs: i64,
        recv_bytes: i64,
        sent_msgs: i64,
        dma_pending: i64,
        dma_dropped: i64,
    },
}

/// A token is taken from the slot that was given back last, with that slot's
/// next generation; where none was given back, from a new slot with the
/// generation zero; and there is none only where every slot is in use or
/// withdrawn. It names the worker.
pub proof fn a_slot_is_reused_before_a_new_one()
    ensures
        forall|slots: &mut Slots, r: Option<SessionToken>| #[trigger]
            call_ensures(Slots::allocate, (slots,), r) && slots.wf() ==> {
                let n = slots.free@.len();
                let reused = slots.free@[n - 1];
                &&& n > 0 ==> (r matches Some(token) && token.slot == reused && token.generation
                    == slots.generations@[reused as int] + 1 && token.worker == slots.worker)
                &&& n > 0 ==> final(slots).free@ == slots.free@.take(n - 1)
                    && final(slots).next_slot == slots.next_slot
                &&& n == 0 && slots.next_slot < 0xffff_ffff ==> (r matches Some(token) && token.slot
                    == slots.next_slot && token.generation == 0 && token.worker == slots.worker)
                &&& n == 0 && slots.next_slot < 0xffff_ffff ==> final(slots).next_slot
                    == slots.next_slot + 1 && final(slots).free@.len() == 0
                &&& n == 0 && slots.next_slot == 0xffff_ffff ==> r is None
                &&& r matches Some(token) ==> final(slots).generations@[token.slot as int]
                    == token.generation
            },
{
    assert forall|slots: &mut Slots, r: Option<SessionToken>| #[trigger]
        call_ensures(Slots::allocate, (slots,), r) && slots.wf() implies {
        let n = slots.free@.len();
        n > 0 ==> final(slots).free@ == slots.free@.take(n - 1) && slots.generations@[
            slots.free@[n - 1] as int
        ] < u32::MAX
    } by {
        let n = slots.free@.len();
        if n > 0 {
            assert(slots.free@.drop_last() =~= slots.free@.take(n - 1));
            assert(slots.free@[n - 1] < slots.next_slot);
        }
    }
}

/// A token gives its slot back exactly where it is the last of the slot that was
/// handed out and the slot was not given back since: for reuse where a
/// generation is left, and for good, counted once, where none is. Any other
/// token changes nothing.
pub proof fn only_the_last_token_gives_its_slot_back(token: SessionToken)
    ensures
        forall|slots: &mut Slots| #[trigger]
            call_ensures(Slots::release, (slots, token), ()) && slots.wf() ==> {
                let holds = token.slot < slots.generations@.len() && slots.generations@[
                    token.slot as int
                ] == token.generation && !slots.free@.contains(token.slot)
                    && !slots.withdrawn@[token.slot as int];
                &&& holds && token.generation < 0xffff_ffff ==> final(slots).free@
                    == slots.free@.push(token.slot) && final(slots).retired == slots.retired
                    && final(slots).withdrawn@ == slots.withdrawn@
                &&& holds && token.generation == 0xffff_ffff ==> final(slots).free@ == slots.free@
                    && final(slots).retired == slots.retired + 1
                    && final(slots).withdrawn@[token.slot as int]
                &&& !holds ==> final(slots).free@ == slots.free@ && final(slots).retired
                    == slots.retired && final(slots).withdrawn@ == slots.withdrawn@
                &&& final(slots).generations@ == slots.generations@
                &&& final(slots).next_slot == slots.next_slot
            },
{
}

/// A slot that is given back is the next one handed out, with the next
/// generation: the two tokens differ, and only the new one is live.
pub proof fn a_slot_comes_back_with_another_generation(token: SessionToken)
    requires
        token.generation < 0xffff_ffff,
    ensures
        forall|first: &mut Slots, second: &mut Slots, r: Option<SessionToken>|
            #![trigger
                call_ensures(Slots::release, (first, token), ()),
                call_ensures(Slots::allocate, (second,), r),
            ]
            call_ensures(Slots::release, (first, token), ()) && first.wf() && first.live(token)
                && *second == *final(first) && call_ensures(Slots::allocate, (second,), r) ==> r
                == Some(
                SessionToken {
                    worker: first.worker,
                    slot: token.slot,
                    generation: (token.generation + 1) as u32,
                },
            ) && final(second).free@ == first.free@,
{
    assert forall|first: &mut Slots, second: &mut Slots, r: Option<SessionToken>|
        #![trigger
            call_ensures(Slots::release, (first, token), ()),
            call_ensures(Slots::allocate, (second,), r),
        ]
        call_ensures(Slots::release, (first, token), ()) && first.wf() && first.live(token)
            && *second == *final(first) && call_ensures(Slots::allocate, (second,), r) implies r
        == Some(
        SessionToken {
            worker: first.worker,
            slot: token.slot,
            generation: (token.generation + 1) as u32,
        },
    ) && final(second).free@ == first.free@ by {
        assert(second.free@ == first.free@.push(token.slot));
        assert(second.free@.drop_last() =~= first.free@);
    }
}

/// The slots that ran out of generations are counted.
pub proof fn withdrawn_slots_are_counted(slots: Slots, r: u32)
    requires
        call_ensures(Slots::retired, (&slots,), r),
    ensures
        r == slots.withdrawn@.filter(|withdrawn: bool| withdrawn).len(),
{
    set_flags_are(slots.withdrawn@);
}

proof fn set_flags_are(flags: Seq<bool>)
    ensures
        count_set(flags) == flags.filter(|flag: bool| flag).len(),
    decreases flags.len(),
{
    reveal(Seq::filter);
    if flags.len() > 0 {
        set_flags_are(flags.drop_last());
    }
}

/// A token reads `w`, its worker, `/s`, its slot, `/g` and its generation.
pub proof fn a_token_reads_as_its_parts(token: SessionToken, r: String)
    requires
        call_ensures(SessionToken::display, (&token,), r),
    ensures
        r@ == "w"@ + crate::text::decimal(token.worker as nat) + "/s"@ + crate::text::decimal(
            token.slot as nat,
        ) + "/g"@ + crate::text::decimal(token.generation as nat),
        forall|worker: u16, slot: u32, generation: u32, t: SessionToken| #[trigger]
            call_ensures(SessionToken::new, (worker, slot, generation), t) ==> t.worker == worker
                && t.slot == slot && t.generation == generation,
{
}

/// No slot has been handed out to begin with.
pub proof fn slots_begin_unused(worker: u16, r: Slots)
    requires
        call_ensures(Slots::new, (worker,), r),
    ensures
        r.worker == worker,
        r.next_slot == 0 && r.retired == 0,
        r.generations@.len() == 0 && r.free@.len() == 0 && r.withdrawn@.len() == 0,
{
}

/// Handing out a token leaves every other slot's generation, and what was
/// withdrawn, as it is.
pub proof fn other_slots_keep_their_generation(slot: int)
    ensures
        forall|slots: &mut Slots, r: Option<SessionToken>| #[trigger]
            call_ensures(Slots::allocate, (slots,), r) && slots.wf() && 0 <= slot
                < slots.generations@.len() ==> {
                &&& r is None || r->0.slot != slot ==> final(slots).generations@[slot]
                    == slots.generations@[slot]
                &&& final(slots).withdrawn@[slot] == slots.withdrawn@[slot]
                &&& final(slots).retired == slots.retired
                &&& final(slots).worker == slots.worker
            },
{
}

/// A copy of a flow is the same flow.
pub proof fn a_flow_is_copied_whole(flow: FlowId, r: FlowId)
    requires
        call_ensures(FlowId::clone, (&flow,), r),
    ensures
        r.src == flow.src && r.dst == flow.dst,
        r.workload@ == flow.workload@,
        r.is_backend == flow.is_backend,
{
}

} // verus!
