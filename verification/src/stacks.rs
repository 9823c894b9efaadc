//! Which outbound stack serves a session.
//!
//! An opaque stream carries its session on its I/O all the way to the
//! connector, so one stack per source workload serves all of them. HTTP
//! parsing turns a stream into requests: such a session gets a stack of its
//! own, whose pools and reconnect caches hold that session's channel alone.
use vstd::prelude::*;

use crate::metrics::{count, counted, counted_by, SessionMetrics};
use crate::session::SessionToken;

verus! {

/// How many workloads have a shared stack. The registrations of a node bound
/// them; this is a backstop against unbounded churn.
pub const CACHE_CAP: usize = 64;

/// The shared stacks, by workload.
#[derive(Debug)]
pub struct Stacks<T> {
    pub entries: Vec<(String, T)>,
}

/// The stack that is to be built.
#[derive(Debug)]
pub struct StackPlan {
    /// The workload that the stack's policies are watched for.
    pub workload: String,
    /// The stack will be shared by the workload's sessions.
    pub share: bool,
    /// The session that is baked into the stack. A shared one has none: each
    /// connection carries its own.
    pub session: Option<SessionToken>,
    /// The stack serves connections that came over DMA.
    pub dmesh_origin: bool,
}

/// Where a session's stack comes from.
#[derive(Debug)]
pub enum StackChoice {
    /// The shared stack at this index.
    Shared(usize),
    Build(StackPlan),
}

/// How long the phases of building a stack took, in nanoseconds.
#[derive(Clone, Copy, Debug, PartialEq, Eq, Structural)]
pub struct BuildTimes {
    pub configure: u128,
    pub layers: u128,
    pub service: u128,
}

/// What the counters of stacks move by.
#[derive(Debug, PartialEq, Eq)]
pub struct StackCounts {
    /// One more session was served by a shared stack.
    pub hit: bool,
    /// One more session had to build its workload's shared stack.
    pub miss: bool,
    /// One more stack was built, in these times.
    pub build: Option<BuildTimes>,
}

impl StackCounts {
    /// What a choice counts: a hit where a shared stack was found.
    pub open spec fn of_choice(choice: StackChoice) -> StackCounts {
        StackCounts { hit: choice is Shared, miss: false, build: None }
    }

    /// What a build counts: the build, and a miss where the stack is shared.
    pub open spec fn of_build(plan: StackPlan, times: BuildTimes) -> StackCounts {
        StackCounts { hit: false, miss: plan.share, build: Some(times) }
    }

    /// Move the counters. What was counted cannot be counted again.
    pub fn record(self, metrics: &SessionMetrics)
        ensures
            self.hit ==> counted(metrics.session_stack_cache_hits),
            self.miss ==> counted(metrics.session_stack_cache_misses),
            self.build matches Some(times) ==> metrics.build_counted(
                times.configure,
                times.layers,
                times.service,
            ),
    {
        if self.hit {
            count(&metrics.session_stack_cache_hits);
        }
        if self.miss {
            count(&metrics.session_stack_cache_misses);
        }
        if let Some(times) = self.build {
            metrics.observe_stack_build(times.configure, times.layers, times.service);
        }
    }
}

/// The workload that governs a session: the granted one, or the configured one
/// where none was granted.
pub open spec fn governing(granted: Seq<char>, configured: Seq<char>) -> Seq<char> {
    if granted.len() == 0 {
        configured
    } else {
        granted
    }
}

impl StackPlan {
    /// The plan for a session: a protocol-aware one keeps its stack to itself.
    pub open spec fn is_for(
        self,
        workload: Seq<char>,
        protocol_aware: bool,
        session: SessionToken,
    ) -> bool {
        &&& self.workload@ == workload
        &&& self.share == !protocol_aware
        &&& self.session == if protocol_aware {
            Some(session)
        } else {
            None
        }
        &&& self.dmesh_origin
    }
}

impl<T> Stacks<T> {
    /// The stack at an index is the one of `workload`.
    pub open spec fn at(self, i: int, workload: Seq<char>) -> bool {
        0 <= i < self.entries@.len() && self.entries@[i].0@ == workload
    }

    /// Where a stack of `workload` stands, if there is one.
    pub open spec fn index_of(self, workload: Seq<char>) -> int {
        choose|i: int| self.at(i, workload)
    }

    /// What each workload's sessions share.
    pub open spec fn view(self) -> Map<Seq<char>, T> {
        Map::new(
            |w: Seq<char>| exists|i: int| self.at(i, w),
            |w: Seq<char>| self.entries@[self.index_of(w)].1,
        )
    }

    /// Each workload has at most one stack, and no more than the cap have one.
    pub open spec fn wf(self) -> bool {
        &&& self.entries@.len() <= CACHE_CAP
        &&& forall|i: int, j: int|
            0 <= i < j < self.entries@.len() ==> (#[trigger] self.entries@[i]).0@ != (
            #[trigger] self.entries@[j]).0@
    }

    proof fn entry(self, i: int)
        requires
            self.wf(),
            0 <= i < self.entries@.len(),
        ensures
            self@.dom().contains(self.entries@[i].0@),
            self@[self.entries@[i].0@] == self.entries@[i].1,
    {
        let w = self.entries@[i].0@;
        assert(self.at(i, w));
        assert(self.at(self.index_of(w), w));
    }

    pub fn new() -> (r: Self)
        ensures
            r.wf(),
            r@ == Map::<Seq<char>, T>::empty(),
    {
        let r = Stacks { entries: Vec::new() };
        assert(r@ =~= Map::<Seq<char>, T>::empty());
        r
    }

    /// Where the workload's stack stands.
    fn find(&self, workload: &String) -> (r: Option<usize>)
        requires
            self.wf(),
        ensures
            r matches Some(i) ==> {
                &&& self.at(i as int, workload@)
                &&& self@.dom().contains(workload@)
                &&& self@[workload@] == self.entries@[i as int].1
            },
            r is None ==> !self@.dom().contains(workload@),
    {
        let mut i: usize = 0;
        while i < self.entries.len()
            invariant
                i <= self.entries.len(),
                self.wf(),
                forall|j: int| 0 <= j < i ==> (#[trigger] self.entries@[j]).0@ != workload@,
            decreases self.entries.len() - i,
        {
            if self.entries[i].0 == *workload {
                proof {
                    self.entry(i as int);
                }
                return Some(i);
            }
            i = i + 1;
        }
        None
    }

    /// Where the stack for a session comes from, and what that counts.
    /// `granted` is the workload of its registration and `configured` the
    /// proxy's own.
    pub fn choose_stack(
        &self,
        granted: &String,
        configured: &String,
        protocol_aware: bool,
        session: SessionToken,
    ) -> (r: (StackChoice, StackCounts))
        requires
            self.wf(),
        ensures
            r.0 is Shared <==> !protocol_aware && self@.dom().contains(
                governing(granted@, configured@),
            ),
            r.1 == StackCounts::of_choice(r.0),
            r.0 matches StackChoice::Shared(i) ==> i < self.entries@.len() && self.entries@[
                i as int
            ].1 == self@[governing(granted@, configured@)],
            r.0 matches StackChoice::Build(plan) ==> plan.is_for(
                governing(granted@, configured@),
                protocol_aware,
                session,
            ),
    {
        let workload: String = if granted.as_str().is_empty() {
            configured.clone()
        } else {
            granted.clone()
        };
        if !protocol_aware {
            if let Some(i) = self.find(&workload) {
                return (
                    StackChoice::Shared(i),
                    StackCounts { hit: true, miss: false, build: None },
                );
            }
        }
        let plan = StackPlan {
            workload,
            share: !protocol_aware,
            session: if protocol_aware {
                Some(session)
            } else {
                None
            },
            dmesh_origin: true,
        };
        (StackChoice::Build(plan), StackCounts { hit: false, miss: false, build: None })
    }

    /// Keep the stack that was built, where it is shared, and say what that
    /// counts. At the cap all others are dropped first.
    pub fn built(&mut self, plan: StackPlan, stack: T, times: BuildTimes) -> (r: StackCounts)
        requires
            old(self).wf(),
        ensures
            final(self).wf(),
            keeps_built(*old(self), *final(self), plan, stack),
            r == StackCounts::of_build(plan, times),
    {
        if !plan.share {
            return StackCounts { hit: false, miss: false, build: Some(times) };
        }
        if self.entries.len() >= CACHE_CAP {
            self.entries = Vec::new();
            assert(self@ =~= Map::<Seq<char>, T>::empty());
        }
        self.insert(plan.workload, stack);
        StackCounts { hit: false, miss: true, build: Some(times) }
    }

    fn insert(&mut self, workload: String, stack: T)
        requires
            old(self).wf(),
            old(self).entries@.len() < CACHE_CAP,
        ensures
            final(self).wf(),
            final(self)@ == old(self)@.insert(workload@, stack),
    {
        let ghost before = *self;
        let found = self.find(&workload);
        match found {
            Some(i) => {
                self.entries.set(i, (workload, stack));
            },
            None => {
                self.entries.push((workload, stack));
            },
        }
        proof {
            assert forall|j: int| 0 <= j < before.entries@.len() && found is None implies (
            #[trigger] before.entries@[j]).0@ != workload@ by {
                before.entry(j);
            }
            assert(self.wf());
            let after = before@.insert(workload@, stack);
            let at = match found {
                Some(i) => i as int,
                None => before.entries@.len() as int,
            };
            self.entry(at);
            assert forall|w: Seq<char>| #[trigger] self@.dom().contains(w) implies after.dom().contains(
                w,
            ) && self@[w] == after[w] by {
                let j = self.index_of(w);
                assert(self.at(j, w));
                self.entry(j);
                if w != workload@ {
                    assert(before.entries@[j] == self.entries@[j]);
                    before.entry(j);
                }
            }
            assert forall|w: Seq<char>| #[trigger] after.dom().contains(w) implies self@.dom().contains(
                w,
            ) by {
                if w != workload@ {
                    let j = before.index_of(w);
                    assert(before.at(j, w));
                    assert(before.entries@[j] == self.entries@[j]);
                    self.entry(j);
                }
            }
            assert(self@ =~= after);
        }
    }
}

/// The shared stacks once `stack` was built for `plan`. At the cap all others
/// are dropped.
pub open spec fn keeps_built<T>(
    before: Stacks<T>,
    after: Stacks<T>,
    plan: StackPlan,
    stack: T,
) -> bool {
    if !plan.share {
        after == before
    } else if before.entries@.len() >= CACHE_CAP {
        after@ == Map::<Seq<char>, T>::empty().insert(plan.workload@, stack)
    } else {
        after@ == before@.insert(plan.workload@, stack)
    }
}

/// Once a workload's stack is shared, its opaque sessions get that stack and
/// no other: whatever their tokens, nothing is built for them.
pub proof fn a_shared_stack_is_found_again<T>(before: Stacks<T>, after: Stacks<T>, plan: StackPlan, stack: T)
    requires
        plan.share,
        before.wf(),
        after.wf(),
        keeps_built(before, after, plan, stack),
    ensures
        after@.dom().contains(plan.workload@),
        after@[plan.workload@] == stack,
{
}

/// A session is served by the shared stack of its workload exactly where it is
/// opaque and there is one, and that is counted; otherwise a stack is to be
/// built, for that workload: a shared one without a session where the session is
/// opaque, and one of the session's own where it is not. The workload is the
/// granted one, and the configured one where none was granted.
pub proof fn an_opaque_session_shares_its_stack<T>(
    stacks: Stacks<T>,
    granted: String,
    configured: String,
    protocol_aware: bool,
    session: SessionToken,
    r: (StackChoice, StackCounts),
)
    requires
        stacks.wf(),
        call_ensures(
            Stacks::<T>::choose_stack,
            (&stacks, &granted, &configured, protocol_aware, session),
            r,
        ),
    ensures
        ({
            let workload = if granted@.len() > 0 {
                granted@
            } else {
                configured@
            };
            let there = exists|i: int|
                0 <= i < stacks.entries@.len() && (#[trigger] stacks.entries@[i]).0@ == workload;
            &&& r.0 is Shared <==> !protocol_aware && there
            &&& r.0 matches StackChoice::Shared(i) ==> i < stacks.entries@.len() && (exists|k: int|
                0 <= k < stacks.entries@.len() && (#[trigger] stacks.entries@[k]).0@ == workload
                    && stacks.entries@[k].1 == stacks.entries@[i as int].1)
            &&& r.0 matches StackChoice::Build(plan) ==> {
                &&& plan.workload@ == workload
                &&& plan.dmesh_origin
                &&& protocol_aware ==> !plan.share && plan.session == Some(session)
                &&& !protocol_aware ==> plan.share && plan.session is None
            }
            &&& r.1.hit == (r.0 is Shared) && !r.1.miss && r.1.build is None
        }),
{
    let workload = governing(granted@, configured@);
    if exists|i: int|
        0 <= i < stacks.entries@.len() && (#[trigger] stacks.entries@[i]).0@ == workload {
        let i = choose|i: int|
            0 <= i < stacks.entries@.len() && (#[trigger] stacks.entries@[i]).0@ == workload;
        assert(stacks.at(i, workload));
        assert(stacks@.dom().contains(workload));
    }
    if stacks@.dom().contains(workload) {
        let i = choose|i: int| stacks.at(i, workload);
        assert(stacks.at(stacks.index_of(workload), workload));
        let k = stacks.index_of(workload);
        assert(stacks.entries@[k].0@ == workload);
        assert(stacks@[workload] == stacks.entries@[k].1);
    }
}

/// A shared stack that was built is its workload's from then on, and the stacks
/// of the other workloads stay, unless 64 workloads have one: then the new one
/// is alone. A stack of a session's own changes nothing. A build is counted, and
/// a miss too where the stack is shared.
pub proof fn a_built_stack_is_kept_for_its_workload<T>(
    plan: StackPlan,
    stack: T,
    times: BuildTimes,
    other: Seq<char>,
)
    ensures
        forall|stacks: &mut Stacks<T>, r: StackCounts| #[trigger]
            call_ensures(Stacks::<T>::built, (stacks, plan, stack, times), r) ==> {
                let full = stacks.entries@.len() >= 64;
                &&& plan.share ==> final(stacks)@.dom().contains(plan.workload@)
                    && final(stacks)@[plan.workload@] == stack
                &&& plan.share && !full && other != plan.workload@ ==> (
                final(stacks)@.dom().contains(other) <==> stacks@.dom().contains(other))
                    && final(stacks)@[other] == stacks@[other]
                &&& plan.share && full && other != plan.workload@
                    ==> !final(stacks)@.dom().contains(other)
                &&& !plan.share ==> *final(stacks) == *stacks
                &&& !r.hit && r.miss == plan.share && r.build == Some(times)
            },
{
}

/// What is counted of a stack: a hit, a miss and the time of a build, each where
/// there was one.
pub proof fn stacks_are_counted(counts: StackCounts, metrics: SessionMetrics)
    requires
        call_ensures(StackCounts::record, (counts, &metrics), ()),
    ensures
        counts.hit ==> counted(metrics.session_stack_cache_hits),
        counts.miss ==> counted(metrics.session_stack_cache_misses),
        counts.build matches Some(times) ==> {
            &&& counted(metrics.session_stack_builds)
            &&& times.configure <= u64::MAX ==> counted_by(
                metrics.session_stack_configure_nanoseconds,
                times.configure as u64,
            )
            &&& times.layers <= u64::MAX ==> counted_by(
                metrics.session_stack_layers_nanoseconds,
                times.layers as u64,
            )
            &&& times.service <= u64::MAX ==> counted_by(
                metrics.session_stack_service_nanoseconds,
                times.service as u64,
            )
        },
{
}

/// No workload shares a stack to begin with.
pub proof fn stacks_begin_empty<T>(r: Stacks<T>, workload: Seq<char>)
    requires
        call_ensures(Stacks::<T>::new, (), r),
    ensures
        !r@.dom().contains(workload),
{
}

} // verus!
