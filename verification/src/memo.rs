//! A route service that is kept for the next request.
//!
//! Consecutive requests that select the same key call the kept service instead
//! of building the whole route stack anew. On a change of key, or where the
//! kept service is not ready at once, the route is built again.
use vstd::prelude::*;

use vstd::std_specs::cmp::PartialEqSpec;

verus! {

/// Selects the route of a request.
pub trait SelectRoute<Req> {
    type Key;

    type Error;

    /// The key of the route that matches the request, or an error where none
    /// does.
    fn select(&self, req: &Req) -> Result<Self::Key, Self::Error>;
}

/// The service that was built last, if it is kept, with its key.
#[derive(Debug)]
pub struct MemoOneshotRoute<K, S> {
    pub cached: Option<(K, S)>,
}

/// What a request needs once its route is selected.
#[derive(Debug, PartialEq, Eq)]
pub enum Selected<K, E> {
    /// No route matches: the request fails.
    Refused(E),
    /// The kept service is the route's: see whether it is ready.
    Probe(K),
    /// Build the route.
    Build(K),
}

/// What a request needs once the kept service was asked.
#[derive(Debug, PartialEq, Eq)]
pub enum Probed<K> {
    /// Call the kept service.
    Call,
    /// Build the route.
    Build(K),
}

/// How a request is served by a route that was just built.
#[derive(Debug, PartialEq, Eq)]
pub enum Dispatch<S> {
    /// Call the service, which is now kept.
    Call,
    /// Wait for the service, and call it once.
    Oneshot(S),
}

impl<K: PartialEq, S> MemoOneshotRoute<K, S> {
    pub fn new() -> (r: Self)
        ensures
            r.cached is None,
    {
        MemoOneshotRoute { cached: None }
    }

    /// `same` is what comparing the kept key with that of a request gives.
    pub open spec fn compares<E>(self, key: Result<K, E>, same: bool) -> bool {
        match (self.cached, key) {
            (Some(kept), Ok(key)) => {
                &&& call_ensures(K::eq, (&kept.0, &key), same)
                &&& K::obeys_eq_spec() ==> same == kept.0.eq_spec(&key)
            },
            _ => !same,
        }
    }

    /// A copy, which keeps nothing yet.
    pub fn fresh(&self) -> (r: Self)
        ensures
            r.cached is None,
    {
        MemoOneshotRoute { cached: None }
    }

    /// What the selection of a route leaves and calls for, where `same` says
    /// whether the kept service is the one of the selected key. One that is kept
    /// for another key is let go.
    pub open spec fn after_selection<E>(self, key: Result<K, E>, same: bool) -> (
        Self,
        Selected<K, E>,
    ) {
        match key {
            Err(error) => (self, Selected::Refused(error)),
            Ok(key) => if same {
                (self, Selected::Probe(key))
            } else {
                (MemoOneshotRoute { cached: None }, Selected::Build(key))
            },
        }
    }

    /// Select the route of a request.
    pub fn route<Req, Sel: SelectRoute<Req, Key = K>>(&mut self, select: &Sel, req: &Req) -> (r:
        Selected<K, Sel::Error>)
        ensures
            exists|key: Result<K, Sel::Error>, same: bool|
                call_ensures(Sel::select, (select, req), key) && #[trigger] old(self).compares(
                    key,
                    same,
                ) && (*final(self), r) == old(self).after_selection(key, same),
    {
        let key: Result<K, Sel::Error> = select.select(req);
        let ghost chosen = key;
        let r = self.selected(key);
        assert(call_ensures(Sel::select, (select, req), chosen));
        r
    }

    /// A request's route was selected.
    pub fn selected<E>(&mut self, key: Result<K, E>) -> (r: Selected<K, E>)
        ensures
            exists|same: bool| #[trigger]
                old(self).compares(key, same) && (*final(self), r) == old(self).after_selection(
                    key,
                    same,
                ),
    {
        let ghost selected = key;
        let key: K = match key {
            Err(error) => {
                assert(self.compares(selected, false));
                return Selected::Refused(error);
            },
            Ok(key) => key,
        };
        let same: bool = match &self.cached {
            Some((kept, _)) => *kept == key,
            None => false,
        };
        assert(old(self).compares(selected, same));
        if same {
            Selected::Probe(key)
        } else {
            self.cached = None;
            Selected::Build(key)
        }
    }

    /// The kept service was asked whether it is ready. One that is not is let
    /// go.
    pub fn probed(&mut self, key: K, ready: bool) -> (r: Probed<K>)
        ensures
            r == if ready {
                Probed::Call
            } else {
                Probed::Build(key)
            },
            final(self).cached == if ready {
                old(self).cached
            } else {
                None
            },
    {
        if ready {
            Probed::Call
        } else {
            self.cached = None;
            Probed::Build(key)
        }
    }

    /// The route was built. Its service is kept where it is ready at once.
    pub fn built(&mut self, key: K, service: S, ready: bool) -> (r: Dispatch<S>)
        requires
            old(self).cached is None,
        ensures
            r == if ready {
                Dispatch::Call
            } else {
                Dispatch::Oneshot(service)
            },
            final(self).cached == if ready {
                Some((key, service))
            } else {
                None
            },
    {
        if ready {
            self.cached = Some((key, service));
            Dispatch::Call
        } else {
            Dispatch::Oneshot(service)
        }
    }
}

/// The next request for the same key is served by the kept service: nothing is
/// built for it as long as the service is ready. A request for another key has
/// its route built, and the service that was kept is let go. `same` is what
/// comparing the two keys gives.
pub proof fn the_same_key_builds_nothing<K: PartialEq, S, E>(
    kept: MemoOneshotRoute<K, S>,
    key: K,
    service: S,
    next: K,
    same: bool,
)
    requires
        kept.cached == Some((key, service)),
        kept.compares(Ok::<K, E>(next), same),
    ensures
        K::obeys_eq_spec() ==> same == key.eq_spec(&next),
        same ==> kept.after_selection(Ok::<K, E>(next), same) == (
            kept,
            Selected::<K, E>::Probe(next),
        ),
        !same ==> kept.after_selection(Ok::<K, E>(next), same) == (
            MemoOneshotRoute::<K, S> { cached: None },
            Selected::<K, E>::Build(next),
        ),
{
}

/// A request whose route is refused fails and changes nothing. One whose key
/// compares equal to the kept one asks the kept service; any other lets the kept
/// service go and has its route built.
pub proof fn a_request_asks_the_kept_service<K: PartialEq, S, E>(key: Result<K, E>)
    ensures
        forall|memo: &mut MemoOneshotRoute<K, S>, r: Selected<K, E>| #[trigger]
            call_ensures(MemoOneshotRoute::<K, S>::selected::<E>, (memo, key), r) ==> {
                &&& key matches Err(error) ==> r == Selected::<K, E>::Refused(error)
                    && final(memo).cached == memo.cached
                &&& key is Ok && memo.cached is None ==> r == Selected::<K, E>::Build(key->Ok_0)
                    && final(memo).cached is None
                &&& key is Ok && memo.cached is Some && K::obeys_eq_spec() ==> if (
                memo.cached->0).0.eq_spec(&key->Ok_0) {
                    r == Selected::<K, E>::Probe(key->Ok_0) && final(memo).cached == memo.cached
                } else {
                    r == Selected::<K, E>::Build(key->Ok_0) && final(memo).cached is None
                }
                &&& r is Probe ==> final(memo).cached == memo.cached && memo.cached is Some
                &&& r is Build ==> final(memo).cached is None
            },
{
    assert forall|memo: &mut MemoOneshotRoute<K, S>, r: Selected<K, E>| #[trigger]
        call_ensures(MemoOneshotRoute::<K, S>::selected::<E>, (memo, key), r) implies {
        exists|same: bool| #[trigger]
            memo.compares(key, same) && (*final(memo), r) == memo.after_selection(key, same)
    } by {}
}

/// A kept service that is ready is called and stays; one that is not is let go,
/// and its route is built.
pub proof fn a_busy_service_is_let_go<K: PartialEq, S>(key: K, ready: bool)
    ensures
        forall|memo: &mut MemoOneshotRoute<K, S>, r: Probed<K>| #[trigger]
            call_ensures(MemoOneshotRoute::<K, S>::probed, (memo, key, ready), r) ==> {
                &&& ready ==> r == Probed::<K>::Call && final(memo).cached == memo.cached
                &&& !ready ==> r == Probed::Build(key) && final(memo).cached is None
            },
{
}

/// A route that is built is kept under its key, and called, where it is ready at
/// once; otherwise it is waited for and called once, and nothing is kept.
pub proof fn a_ready_route_is_kept<K: PartialEq, S>(key: K, service: S, ready: bool)
    ensures
        forall|memo: &mut MemoOneshotRoute<K, S>, r: Dispatch<S>| #[trigger]
            call_ensures(MemoOneshotRoute::<K, S>::built, (memo, key, service, ready), r) ==> {
                &&& ready ==> r == Dispatch::<S>::Call && final(memo).cached == Some((key, service))
                &&& !ready ==> r == Dispatch::Oneshot(service) && final(memo).cached is None
            },
        forall|memo: MemoOneshotRoute<K, S>, r: MemoOneshotRoute<K, S>| #[trigger]
            call_ensures(MemoOneshotRoute::<K, S>::fresh, (&memo,), r) ==> r.cached is None,
{
}

/// A request's route is the one that is selected for it: where none is, the
/// request fails with that error; where the kept service is of that key, it is
/// asked; and any other key has its route built. A new memo keeps nothing.
pub proof fn a_request_goes_by_its_selection<K: PartialEq, S, Req, Sel: SelectRoute<Req, Key = K>>(
    select: &Sel,
    req: &Req,
)
    ensures
        forall|memo: &mut MemoOneshotRoute<K, S>, r: Selected<K, Sel::Error>| #[trigger]
            call_ensures(MemoOneshotRoute::<K, S>::route::<Req, Sel>, (memo, select, req), r)
                ==> exists|key: Result<K, Sel::Error>|
                {
                    &&& #[trigger] call_ensures(Sel::select, (select, req), key)
                    &&& key matches Err(error) ==> r == Selected::<K, Sel::Error>::Refused(error)
                        && final(memo).cached == memo.cached
                    &&& key is Ok && memo.cached is None ==> r == Selected::<K, Sel::Error>::Build(
                        key->Ok_0,
                    ) && final(memo).cached is None
                    &&& key is Ok && memo.cached is Some && K::obeys_eq_spec() ==> if (
                    memo.cached->0).0.eq_spec(&key->Ok_0) {
                        r == Selected::<K, Sel::Error>::Probe(key->Ok_0) && final(memo).cached
                            == memo.cached
                    } else {
                        r == Selected::<K, Sel::Error>::Build(key->Ok_0) && final(memo).cached
                            is None
                    }
                },
        forall|r: MemoOneshotRoute<K, S>| #[trigger]
            call_ensures(MemoOneshotRoute::<K, S>::new, (), r) ==> r.cached is None,
{
    assert forall|memo: &mut MemoOneshotRoute<K, S>, r: Selected<K, Sel::Error>| #[trigger]
        call_ensures(
            MemoOneshotRoute::<K, S>::route::<Req, Sel>,
            (memo, select, req),
            r,
        ) implies exists|key: Result<K, Sel::Error>|
        {
            &&& #[trigger] call_ensures(Sel::select, (select, req), key)
            &&& key matches Err(error) ==> r == Selected::<K, Sel::Error>::Refused(error)
                && final(memo).cached == memo.cached
            &&& key is Ok && memo.cached is None ==> r == Selected::<K, Sel::Error>::Build(
                key->Ok_0,
            ) && final(memo).cached is None
            &&& key is Ok && memo.cached is Some && K::obeys_eq_spec() ==> if (
            memo.cached->0).0.eq_spec(&key->Ok_0) {
                r == Selected::<K, Sel::Error>::Probe(key->Ok_0) && final(memo).cached
                    == memo.cached
            } else {
                r == Selected::<K, Sel::Error>::Build(key->Ok_0) && final(memo).cached is None
            }
        } by {
        let (key, same) = choose|key: Result<K, Sel::Error>, same: bool|
            call_ensures(Sel::select, (select, req), key) && #[trigger] memo.compares(key, same) && (
            *final(memo), r) == memo.after_selection(key, same);
        assert(call_ensures(Sel::select, (select, req), key));
    }
}

} // verus!
