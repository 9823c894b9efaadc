//! Backend channels by the address they serve.
//!
//! Several channels may register under one address; requests go to them in
//! turn.
use vstd::prelude::*;

use crate::net::SocketAddr;
use crate::table::Table;

verus! {

/// One backend channel. `S` sends requests over it.
#[derive(Debug)]
pub struct Channel<S> {
    pub id: u64,
    pub sender: S,
}

/// The channels of one address.
#[derive(Debug)]
pub struct Group<S> {
    pub channels: Vec<Channel<S>>,
    /// Counts the requests that were handed out.
    pub next: usize,
}

/// Every backend channel.
#[derive(Debug)]
pub struct Channels<S> {
    pub groups: Table<SocketAddr, Group<S>>,
    pub next_id: u64,
}

/// The channels without those of `id`, in order.
pub open spec fn without<S>(channels: Seq<Channel<S>>, id: u64) -> Seq<Channel<S>>
    decreases channels.len(),
{
    if channels.len() == 0 {
        Seq::empty()
    } else {
        let before = without(channels.drop_last(), id);
        if channels.last().id == id {
            before
        } else {
            before.push(channels.last())
        }
    }
}

/// The channels that stand for an address.
pub open spec fn channels_of<S>(groups: Map<SocketAddr, Group<S>>, key: SocketAddr) -> Seq<
    Channel<S>,
> {
    if groups.contains_key(key) {
        groups[key].channels@
    } else {
        Seq::empty()
    }
}

/// Take the channels of `id` out.
fn retain<S>(channels: Vec<Channel<S>>, id: u64) -> (r: Vec<Channel<S>>)
    ensures
        r@ == without(channels@, id),
{
    let ghost all = channels@;
    let mut rest = channels;
    let mut kept: Vec<Channel<S>> = Vec::new();
    // Taken from the back and turned round again.
    while rest.len() > 0
        invariant
            rest@.len() <= all.len(),
            rest@ == all.take(rest@.len() as int),
            without(all, id) == without(rest@, id) + kept@.reverse(),
        decreases rest@.len(),
    {
        let ghost before = rest@;
        let ghost kept_before = kept@;
        if let Some(channel) = rest.pop() {
            assert(rest@ =~= before.drop_last());
            assert(rest@ =~= all.take(rest@.len() as int));
            if channel.id != id {
                kept.push(channel);
                assert(kept@.reverse() =~= seq![channel] + kept_before.reverse());
                assert(without(before, id) =~= without(rest@, id).push(channel));
            }
            assert(without(rest@, id) + kept@.reverse() =~= without(before, id)
                + kept_before.reverse());
        }
    }
    let mut out: Vec<Channel<S>> = Vec::new();
    let ghost turned = kept@;
    assert(without(rest@, id) + kept@.reverse() =~= kept@.reverse());
    while kept.len() > 0
        invariant
            without(all, id) == out@ + kept@.reverse(),
        decreases kept@.len(),
    {
        let ghost before = kept@;
        let ghost out_before = out@;
        if let Some(channel) = kept.pop() {
            out.push(channel);
            assert(before.reverse() =~= seq![channel] + kept@.reverse());
            assert(out@ + kept@.reverse() =~= out_before + before.reverse());
        }
    }
    assert(out@ + kept@.reverse() =~= out@);
    out
}

impl<S> Channels<S> {
    /// No address has an empty group.
    pub open spec fn wf(self) -> bool {
        &&& self.groups.wf()
        &&& forall|key: SocketAddr| #[trigger]
            self.groups@.contains_key(key) ==> self.groups@[key].channels@.len() > 0
    }

    pub open spec fn channels(self, key: SocketAddr) -> Seq<Channel<S>> {
        channels_of(self.groups@, key)
    }

    pub fn new() -> (r: Self)
        ensures
            r.wf(),
            r.groups@ == Map::<SocketAddr, Group<S>>::empty(),
            r.next_id == 0,
    {
        Channels { groups: Table::new(), next_id: 0 }
    }

    /// The name of a new channel.
    pub fn allot(&mut self) -> (id: u64)
        requires
            old(self).wf(),
            old(self).next_id < u64::MAX,
        ensures
            final(self).wf(),
            id == old(self).next_id + 1,
            *final(self) == (Channels { next_id: id, ..*old(self) }),
    {
        self.next_id = self.next_id + 1;
        self.next_id
    }

    /// Publish a channel, and say how many its address has now.
    pub fn register(&mut self, key: SocketAddr, id: u64, sender: S) -> (count: usize)
        requires
            old(self).wf(),
        ensures
            final(self).wf(),
            final(self).next_id == old(self).next_id,
            final(self).channels(key) == old(self).channels(key).push(Channel { id, sender }),
            count == final(self).channels(key).len(),
            final(self).groups@.contains_key(key),
            final(self).groups@[key].next == if old(self).groups@.contains_key(key) {
                old(self).groups@[key].next
            } else {
                0
            },
            final(self).groups@ == old(self).groups@.insert(key, final(self).groups@[key]),
    {
        let mut group = match self.groups.remove(&key) {
            Some(group) => group,
            None => Group { channels: Vec::new(), next: 0 },
        };
        group.channels.push(Channel { id, sender });
        let count: usize = group.channels.len();
        let _ = self.groups.insert(key, group);
        assert(self.groups@ =~= old(self).groups@.insert(key, self.groups@[key]));
        count
    }

    /// Withdraw a channel; an address without one is forgotten.
    pub fn unregister(&mut self, key: SocketAddr, id: u64)
        requires
            old(self).wf(),
        ensures
            final(self).wf(),
            final(self).next_id == old(self).next_id,
            final(self).channels(key) == without(old(self).channels(key), id),
            if without(old(self).channels(key), id).len() == 0 {
                final(self).groups@ == old(self).groups@.remove(key)
            } else {
                final(self).groups@ == old(self).groups@.insert(
                    key,
                    Group {
                        channels: final(self).groups@[key].channels,
                        next: old(self).groups@[key].next,
                    },
                )
            },
    {
        let group = match self.groups.remove(&key) {
            Some(group) => group,
            None => {
                assert(self.groups@ =~= old(self).groups@.remove(key));
                return;
            },
        };
        let next: usize = group.next;
        let channels = retain(group.channels, id);
        if channels.len() > 0 {
            let _ = self.groups.insert(key, Group { channels, next });
            assert(self.groups@ =~= old(self).groups@.insert(key, self.groups@[key]));
        }
        assert(self.channels(key) =~= without(old(self).channels(key), id));
    }

    /// The place of the next channel for `key`, in turn.
    pub fn pick(&mut self, key: &SocketAddr) -> (r: Option<usize>)
        requires
            old(self).wf(),
        ensures
            final(self).wf(),
            final(self).next_id == old(self).next_id,
            picks(old(self).groups@, final(self).groups@, *key, r),
            r matches Some(i) ==> i < old(self).channels(*key).len(),
    {
        let mut group = match self.groups.remove(key) {
            Some(group) => group,
            None => return None,
        };
        let i: usize = group.next % group.channels.len();
        group.next = group.next.wrapping_add(1);
        let _ = self.groups.insert(*key, group);
        assert(self.groups@ =~= old(self).groups@.insert(*key, self.groups@[*key]));
        Some(i)
    }

    /// The channel at a place.
    pub fn sender(&self, key: &SocketAddr, i: usize) -> (r: Option<&S>)
        requires
            self.wf(),
        ensures
            r is Some <==> i < self.channels(*key).len(),
            r matches Some(sender) ==> *sender == self.channels(*key)[i as int].sender,
    {
        match self.groups.get(key) {
            Some(group) => {
                if i < group.channels.len() {
                    Some(&group.channels[i].sender)
                } else {
                    None
                }
            },
            None => None,
        }
    }

    /// Every address that has a channel.
    pub fn keys(&self) -> (r: Vec<SocketAddr>)
        requires
            self.wf(),
        ensures
            r@.len() == self.groups.items@.len(),
            forall|key: SocketAddr| r@.contains(key) <==> self.groups@.contains_key(key),
    {
        let mut keys: Vec<SocketAddr> = Vec::new();
        let mut i: usize = 0;
        while i < self.groups.items.len()
            invariant
                i <= self.groups.items.len(),
                keys@.len() == i,
                forall|j: int| 0 <= j < i ==> keys@[j] == (#[trigger] self.groups.items@[j]).0,
            decreases self.groups.items.len() - i,
        {
            keys.push(self.groups.items[i].0);
            i = i + 1;
        }
        proof {
            let items = self.groups.items@;
            assert forall|key: SocketAddr| keys@.contains(key) <==> self.groups@.contains_key(
                key,
            ) by {
                crate::table::slot_finds(items, key);
                if keys@.contains(key) {
                    let j = choose|j: int| 0 <= j < keys@.len() && keys@[j] == key;
                    assert(items[j].0 == key);
                    crate::table::item_is_mapped(items, j);
                }
                if self.groups@.contains_key(key) {
                    let j = crate::table::slot_of(items, key);
                    assert(keys@[j] == items[j].0);
                }
            }
        }
        keys
    }
}

/// A pick of a channel for `key`: in turn, where the address has one.
pub open spec fn picks<S>(
    before: Map<SocketAddr, Group<S>>,
    after: Map<SocketAddr, Group<S>>,
    key: SocketAddr,
    r: Option<usize>,
) -> bool {
    if before.contains_key(key) {
        let group = before[key];
        &&& r matches Some(i) && i == group.next as int % group.channels@.len() as int
        &&& after == before.insert(key, Group { next: group.next.wrapping_add(1), ..group })
    } else {
        r is None && after == before
    }
}

/// A run of picks for `key`, one after the other.
pub open spec fn is_turn<S>(
    states: Seq<Map<SocketAddr, Group<S>>>,
    key: SocketAddr,
    picked: Seq<Option<usize>>,
) -> bool {
    &&& states.len() == picked.len() + 1
    &&& forall|k: int|
        #![trigger picked[k]]
        0 <= k < picked.len() ==> picks(states[k], states[k + 1], key, picked[k])
}

/// Requests take turns: between two requests that go to one channel, as many
/// requests were made as the address has channels, so of any so many requests
/// in a row each goes to a channel of its own. The count of the requests does
/// not wrap meanwhile.
pub proof fn requests_take_turns<S>(
    states: Seq<Map<SocketAddr, Group<S>>>,
    key: SocketAddr,
    picked: Seq<Option<usize>>,
    i: int,
    j: int,
)
    requires
        is_turn(states, key, picked),
        states[0].contains_key(key),
        states[0][key].channels@.len() > 0,
        states[0][key].next + picked.len() <= usize::MAX,
        0 <= i < j < picked.len(),
        j - i < states[0][key].channels@.len(),
    ensures
        picked[i] is Some,
        picked[i] != picked[j],
{
    counts_up(states, key, picked, i);
    counts_up(states, key, picked, j);
    assert(picks(states[i], states[i + 1], key, picked[i]));
    assert(picks(states[j], states[j + 1], key, picked[j]));
    let n = states[0][key].channels@.len() as int;
    let a = states[0][key].next + i;
    differ(a, a + (j - i), n);
}

proof fn counts_up<S>(
    states: Seq<Map<SocketAddr, Group<S>>>,
    key: SocketAddr,
    picked: Seq<Option<usize>>,
    k: int,
)
    requires
        is_turn(states, key, picked),
        states[0].contains_key(key),
        states[0][key].next + picked.len() <= usize::MAX,
        0 <= k <= picked.len(),
    ensures
        states[k].contains_key(key),
        states[k][key].channels == states[0][key].channels,
        states[k][key].next == states[0][key].next + k,
    decreases k,
{
    if k > 0 {
        counts_up(states, key, picked, k - 1);
        assert(picks(states[k - 1], states[k - 1 + 1], key, picked[k - 1]));
    }
}

/// Numbers that lie closer together than `n` leave different remainders.
proof fn differ(a: int, b: int, n: int)
    requires
        0 < b - a < n,
    ensures
        a % n != b % n,
{
    vstd::arithmetic::div_mod::lemma_fundamental_div_mod(a, n);
    vstd::arithmetic::div_mod::lemma_fundamental_div_mod(b, n);
    if a % n == b % n {
        let q = a / n;
        let p = b / n;
        assert(n * (p - q) == b - a) by (nonlinear_arith)
            requires
                a == n * q + a % n,
                b == n * p + b % n,
                a % n == b % n,
        ;
        assert(false) by (nonlinear_arith)
            requires
                n * (p - q) == b - a,
                0 < b - a < n,
        ;
    }
}

/// A request's wait for a channel. Times are milliseconds of one clock.
#[derive(Clone, Copy, Debug, PartialEq, Eq, Structural)]
pub struct Acquire {
    pub stage: AcquireStage,
    /// How long the request may wait.
    pub wait: u64,
    /// When it gives up, once it has begun to wait.
    pub deadline: u64,
}

/// Which action is under way.
#[derive(Clone, Copy, Debug, PartialEq, Eq, Structural)]
pub enum AcquireStage {
    /// The first look for a channel.
    Looking,
    /// Asking to be told of registrations.
    Subscribing,
    /// A look that no registration can come after unheard.
    LookingAgain,
    Waiting,
    Done,
}

/// What a request does for a channel.
#[derive(Clone, Copy, Debug, PartialEq, Eq, Structural)]
pub enum AcquireAction {
    /// Pick a channel, and read the clock.
    Pick,
    /// Ask to be told of the next registration.
    Subscribe,
    /// Wait to be told, so long at most.
    Wait(u64),
    /// Use the channel that was picked.
    Take,
    GiveUp,
}

/// How the action went.
#[derive(Clone, Copy, Debug, PartialEq, Eq, Structural)]
pub enum AcquireEvent {
    Picked { found: bool, now: u64 },
    Subscribed,
    /// Whether a registration ended the wait, or the time did.
    Woke { registered: bool },
}

impl Acquire {
    /// The event reports on the action that is under way.
    pub open spec fn expects(self, event: AcquireEvent) -> bool {
        match event {
            AcquireEvent::Picked { found, now } => {
                ||| self.stage == AcquireStage::Looking && now + self.wait <= u64::MAX
                ||| self.stage == AcquireStage::LookingAgain
            },
            AcquireEvent::Subscribed => self.stage == AcquireStage::Subscribing,
            AcquireEvent::Woke { registered } => self.stage == AcquireStage::Waiting,
        }
    }

    /// The state and the action that follow `event`.
    pub open spec fn next(self, event: AcquireEvent) -> (Acquire, AcquireAction) {
        let gone = (Acquire { stage: AcquireStage::Done, ..self }, AcquireAction::GiveUp);
        match event {
            AcquireEvent::Picked { found, now } => if found {
                (Acquire { stage: AcquireStage::Done, ..self }, AcquireAction::Take)
            } else if self.stage == AcquireStage::Looking {
                (
                    Acquire {
                        stage: AcquireStage::Subscribing,
                        deadline: (now + self.wait) as u64,
                        ..self
                    },
                    AcquireAction::Subscribe,
                )
            } else if now <= self.deadline {
                (
                    Acquire { stage: AcquireStage::Waiting, ..self },
                    AcquireAction::Wait((self.deadline - now) as u64),
                )
            } else {
                gone
            },
            AcquireEvent::Subscribed => (
                Acquire { stage: AcquireStage::LookingAgain, ..self },
                AcquireAction::Pick,
            ),
            AcquireEvent::Woke { registered } => if registered {
                (
                    Acquire { stage: AcquireStage::Subscribing, ..self },
                    AcquireAction::Subscribe,
                )
            } else {
                gone
            },
        }
    }

    /// A request that may wait so long, and its first action.
    pub fn begin(wait: u64) -> (r: (Acquire, AcquireAction))
        ensures
            r == (
                Acquire { stage: AcquireStage::Looking, wait, deadline: 0 },
                AcquireAction::Pick,
            ),
    {
        (Acquire { stage: AcquireStage::Looking, wait, deadline: 0 }, AcquireAction::Pick)
    }

    /// Take the outcome of the action that was under way, and say what is next.
    pub fn step(&mut self, event: AcquireEvent) -> (r: AcquireAction)
        requires
            old(self).expects(event),
        ensures
            (*final(self), r) == old(self).next(event),
    {
        match event {
            AcquireEvent::Picked { found, now } => {
                if found {
                    self.stage = AcquireStage::Done;
                    AcquireAction::Take
                } else if self.stage == AcquireStage::Looking {
                    self.stage = AcquireStage::Subscribing;
                    self.deadline = now + self.wait;
                    AcquireAction::Subscribe
                } else if now <= self.deadline {
                    self.stage = AcquireStage::Waiting;
                    AcquireAction::Wait(self.deadline - now)
                } else {
                    self.stage = AcquireStage::Done;
                    AcquireAction::GiveUp
                }
            },
            AcquireEvent::Subscribed => {
                self.stage = AcquireStage::LookingAgain;
                AcquireAction::Pick
            },
            AcquireEvent::Woke { registered } => {
                if registered {
                    self.stage = AcquireStage::Subscribing;
                    AcquireAction::Subscribe
                } else {
                    self.stage = AcquireStage::Done;
                    AcquireAction::GiveUp
                }
            },
        }
    }
}

/// No registration is missed: a request waits only after a look for a channel
/// that found none, made after it asked to be told of registrations.
pub proof fn no_registration_is_missed(
    before: Acquire,
    subscribed: AcquireEvent,
    event: AcquireEvent,
)
    requires
        before.expects(subscribed),
        before.next(subscribed).0.expects(event),
        before.next(subscribed).0.next(event).1 is Wait,
    ensures
        before.stage == AcquireStage::Subscribing,
        subscribed is Subscribed,
        event matches AcquireEvent::Picked { found, .. } && !found,
{
}

/// A request gives up no earlier than its wait allows, and its waits end by
/// then: the deadline is set once, when the first look found nothing.
pub proof fn a_request_waits_its_time(state: Acquire, event: AcquireEvent)
    requires
        state.expects(event),
    ensures
        state.stage != AcquireStage::Looking ==> state.next(event).0.deadline == state.deadline,
        state.stage == AcquireStage::Looking && !(state.next(event).1 is Take) ==> (event matches
            AcquireEvent::Picked { now, .. } && state.next(event).0.deadline == now + state.wait),
        state.next(event).1 matches AcquireAction::Wait(left) ==> (event matches
            AcquireEvent::Picked { now, .. } && now + left == state.deadline),
        state.next(event).1 is GiveUp ==> {
            ||| event matches AcquireEvent::Woke { registered } && !registered
            ||| event matches AcquireEvent::Picked { now, .. } && now > state.deadline
        },
{
}

/// Requests for an address go to its channels in turn, by how many were made
/// before, and each is counted; an address without a channel gets none. No
/// channel and no other address changes.
pub proof fn a_pick_takes_its_turn<S>(key: SocketAddr)
    ensures
        forall|channels: &mut Channels<S>, r: Option<usize>| #[trigger]
            call_ensures(Channels::<S>::pick, (channels, &key), r) ==> {
                let group = channels.groups@[key];
                let after = final(channels).groups@[key];
                &&& r is Some <==> channels.groups@.contains_key(key)
                &&& r is Some ==> r->0 == group.next as int % group.channels@.len() as int
                &&& r is Some ==> final(channels).groups@.contains_key(key) && after.channels
                    == group.channels && after.next == (if group.next == usize::MAX {
                    0
                } else {
                    group.next + 1
                })
                &&& forall|other: SocketAddr|
                    other != key || r is None ==> (#[trigger] final(channels).groups@.contains_key(
                        other,
                    ) <==> channels.groups@.contains_key(other)) && final(channels).groups@[other]
                        == channels.groups@[other]
                &&& final(channels).next_id == channels.next_id
            },
{
}

/// Two picks in a row for an address with more than one channel go to two
/// channels, where the count does not wrap between them.
pub proof fn two_picks_differ<S>(key: SocketAddr)
    ensures
        forall|first: &mut Channels<S>, second: &mut Channels<S>, a: Option<usize>, b: Option<usize>|
            #![trigger
                call_ensures(Channels::<S>::pick, (first, &key), a),
                call_ensures(Channels::<S>::pick, (second, &key), b),
            ]
            call_ensures(Channels::<S>::pick, (first, &key), a) && *second == *final(first)
                && call_ensures(Channels::<S>::pick, (second, &key), b)
                && first.groups@.contains_key(key) && first.groups@[key].channels@.len() > 1
                && first.groups@[key].next < usize::MAX ==> a is Some && b is Some && a != b,
{
    assert forall|
        first: &mut Channels<S>,
        second: &mut Channels<S>,
        a: Option<usize>,
        b: Option<usize>,
    |
        #![trigger
            call_ensures(Channels::<S>::pick, (first, &key), a),
            call_ensures(Channels::<S>::pick, (second, &key), b),
        ]
        call_ensures(Channels::<S>::pick, (first, &key), a) && *second == *final(first)
            && call_ensures(Channels::<S>::pick, (second, &key), b)
            && first.groups@.contains_key(key) && first.groups@[key].channels@.len() > 1
            && first.groups@[key].next < usize::MAX implies a is Some && b is Some && a != b by {
        let n = first.groups@[key].channels@.len() as int;
        let next = first.groups@[key].next as int;
        differ(next, next + 1, n);
    }
}

/// A channel that is registered stands behind those that its address has, and
/// their number is told; an address that had none starts counting at zero. No
/// other address changes.
pub proof fn a_registration_is_at_the_end<S>(key: SocketAddr, id: u64, sender: S)
    ensures
        forall|channels: &mut Channels<S>, count: usize| #[trigger]
            call_ensures(Channels::<S>::register, (channels, key, id, sender), count) ==> {
                let had = channels.groups@.contains_key(key);
                let before = channels.groups@[key];
                let after = final(channels).groups@[key];
                &&& final(channels).groups@.contains_key(key)
                &&& had ==> after.channels@ == before.channels@.push(Channel { id, sender })
                    && after.next == before.next
                &&& !had ==> after.channels@ == seq![Channel { id, sender }] && after.next == 0
                &&& count == after.channels@.len()
                &&& forall|other: SocketAddr|
                    other != key ==> (#[trigger] final(channels).groups@.contains_key(other)
                        <==> channels.groups@.contains_key(other)) && final(channels).groups@[other]
                        == channels.groups@[other]
            },
{
    assert forall|channels: &mut Channels<S>, count: usize| #[trigger]
        call_ensures(Channels::<S>::register, (channels, key, id, sender), count)
            && !channels.groups@.contains_key(key) implies final(channels).groups@[key].channels@
        == seq![Channel { id, sender }] by {
        assert(Seq::<Channel<S>>::empty().push(Channel { id, sender }) =~= seq![
            Channel { id, sender },
        ]);
    }
}

proof fn without_are<S>(channels: Seq<Channel<S>>, id: u64) -> (at: Seq<int>)
    ensures
        at.len() == without(channels, id).len(),
        forall|i: int, j: int| 0 <= i < j < at.len() ==> at[i] < at[j],
        forall|k: int|
            #![trigger at[k]]
            0 <= k < at.len() ==> 0 <= at[k] < channels.len() && channels[at[k]].id != id
                && without(channels, id)[k] == channels[at[k]],
        forall|i: int|
            #![trigger channels[i]]
            0 <= i < channels.len() && channels[i].id != id ==> at.contains(i),
    decreases channels.len(),
{
    if channels.len() == 0 {
        Seq::empty()
    } else {
        let rest = channels.drop_last();
        let before = without_are(rest, id);
        let n = channels.len() - 1;
        assert forall|i: int| 0 <= i < n implies rest[i] == #[trigger] channels[i] by {}
        if without(channels, id).len() == without(rest, id).len() {
            before
        } else {
            let at = before.push(n);
            assert(at[before.len() as int] == n);
            assert forall|i: int|
                #![trigger channels[i]]
                0 <= i < n && before.contains(i) implies at.contains(i) by {
                let k = choose|k: int| 0 <= k < before.len() && before[k] == i;
                assert(at[k] == i);
            }
            at
        }
    }
}

/// A withdrawal takes the channels of its number off its address and leaves the
/// others in their order; an address whose last channel goes is forgotten, and
/// no other address changes. `at` says which of the channels of `before` each
/// one that is left is.
pub proof fn a_withdrawal_takes_its_channel<S>(
    key: SocketAddr,
    id: u64,
    before: Seq<Channel<S>>,
) -> (at: Seq<int>)
    ensures
        forall|i: int, j: int| 0 <= i < j < at.len() ==> at[i] < at[j],
        forall|k: int|
            #![trigger at[k]]
            0 <= k < at.len() ==> 0 <= at[k] < before.len() && before[at[k]].id != id,
        forall|i: int|
            #![trigger before[i]]
            0 <= i < before.len() && before[i].id != id ==> at.contains(i),
        forall|channels: &mut Channels<S>| #[trigger]
            call_ensures(Channels::<S>::unregister, (channels, key, id), ())
                && channels.groups@.contains_key(key) && channels.groups@[key].channels@ == before
                ==> {
                let after = final(channels).groups@;
                &&& after.contains_key(key) <==> at.len() > 0
                &&& at.len() > 0 ==> after[key].channels@.len() == at.len() && after[key].next
                    == channels.groups@[key].next && forall|k: int|
                    #![trigger at[k]]
                    0 <= k < at.len() ==> after[key].channels@[k] == before[at[k]]
                &&& forall|other: SocketAddr|
                    other != key ==> (#[trigger] after.contains_key(other)
                        <==> channels.groups@.contains_key(other)) && after[other]
                        == channels.groups@[other]
            },
{
    without_are(before, id)
}

/// Channels are named one after the other, none twice, and a channel is found at
/// its place.
pub proof fn channels_have_names_of_their_own<S>(key: SocketAddr, i: usize)
    ensures
        forall|channels: &mut Channels<S>, id: u64| #[trigger]
            call_ensures(Channels::<S>::allot, (channels,), id) ==> id == channels.next_id + 1
                && final(channels).next_id == id && final(channels).groups == channels.groups,
        forall|channels: Channels<S>, r: Option<&S>| #[trigger]
            call_ensures(Channels::<S>::sender, (&channels, &key, i), r) ==> {
                let there = channels.groups@.contains_key(key) && i
                    < channels.groups@[key].channels@.len();
                &&& r is Some <==> there
                &&& there ==> *r->0 == channels.groups@[key].channels@[i as int].sender
            },
        forall|channels: Channels<S>, r: Vec<SocketAddr>| #[trigger]
            call_ensures(Channels::<S>::keys, (&channels,), r) ==> (r@.contains(key)
                <==> channels.groups@.contains_key(key)),
{
}

/// A request takes a channel as soon as it finds one. The first time it finds
/// none its time begins to run; it asks to be told of registrations, looks again,
/// and only then waits, for what is left of its time. A registration that wakes
/// it makes it begin again; it gives up where its time has passed.
pub proof fn a_request_looks_before_it_waits(event: AcquireEvent)
    ensures
        forall|state: &mut Acquire, r: AcquireAction| #[trigger]
            call_ensures(Acquire::step, (state, event), r) ==> {
                &&& event matches AcquireEvent::Picked { found, now } ==> {
                    &&& found ==> r == AcquireAction::Take
                    &&& !found && state.stage == AcquireStage::Looking ==> r
                        == AcquireAction::Subscribe && final(state).deadline == (now
                        + state.wait) as u64
                    &&& !found && state.stage != AcquireStage::Looking && now <= state.deadline ==> r
                        == AcquireAction::Wait((state.deadline - now) as u64)
                    &&& !found && state.stage != AcquireStage::Looking && now > state.deadline ==> r
                        == AcquireAction::GiveUp
                    &&& found || state.stage != AcquireStage::Looking ==> final(state).deadline
                        == state.deadline
                }
                &&& event is Subscribed ==> r == AcquireAction::Pick && final(state).deadline
                    == state.deadline
                &&& event matches AcquireEvent::Woke { registered } ==> {
                    &&& registered ==> r == AcquireAction::Subscribe
                    &&& !registered ==> r == AcquireAction::GiveUp
                    &&& final(state).deadline == state.deadline
                }
                &&& final(state).wait == state.wait
            },
        forall|wait: u64, r: (Acquire, AcquireAction)| #[trigger]
            call_ensures(Acquire::begin, (wait,), r) ==> r.1 == AcquireAction::Pick && r.0.stage
                == AcquireStage::Looking && r.0.wait == wait,
{
}

/// What a step asks for is what the next step expects to hear of; once a channel
/// is taken or given up nothing is expected.
pub proof fn an_acquire_expects_its_outcome(event: AcquireEvent, next: AcquireEvent)
    ensures
        forall|state: &mut Acquire, r: AcquireAction| #[trigger]
            call_ensures(Acquire::step, (state, event), r) ==> final(state).expects(next)
                == match r {
                AcquireAction::Pick => next is Picked,
                AcquireAction::Subscribe => next is Subscribed,
                AcquireAction::Wait(_) => next is Woke,
                AcquireAction::Take => false,
                AcquireAction::GiveUp => false,
            },
{
}

/// No address has a channel to begin with, and a withdrawal from an address
/// without one changes nothing.
pub proof fn channels_begin_empty<S>(key: SocketAddr, id: u64)
    ensures
        forall|r: Channels<S>| #[trigger]
            call_ensures(Channels::<S>::new, (), r) ==> r.next_id == 0 && forall|addr: SocketAddr|
                !(#[trigger] r.groups@.contains_key(addr)),
        forall|channels: &mut Channels<S>| #[trigger]
            call_ensures(Channels::<S>::unregister, (channels, key, id), ())
                && !channels.groups@.contains_key(key) ==> final(channels).groups@
                == channels.groups@,
{
    assert forall|channels: &mut Channels<S>| #[trigger]
        call_ensures(Channels::<S>::unregister, (channels, key, id), ())
            && !channels.groups@.contains_key(key) implies final(channels).groups@
        == channels.groups@ by {
        assert(without(channels.channels(key), id).len() == 0);
        assert(channels.groups@.remove(key) =~= channels.groups@);
    }
}

} // verus!
