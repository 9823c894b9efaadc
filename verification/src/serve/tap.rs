//! Which taps hear of a message, and when.
//!
//! A tap that watches a response hears once how its body ended: with trailers,
//! without, by an error, or by being dropped.
use vstd::prelude::*;

verus! {

/// The taps that are registered, as they were seen last.
#[derive(Debug)]
pub struct TapHttp<T> {
    pub taps: Vec<T>,
}

impl<T> TapHttp<T> {
    /// A request came. The registry gives its taps where they have changed
    /// since; where it is gone, the last ones stay. Says whether the request is
    /// tapped at all.
    pub fn refresh(&mut self, changed: Option<Vec<T>>) -> (r: bool)
        ensures
            final(self).taps == match changed {
                Some(taps) => taps,
                None => old(self).taps,
            },
            r == (final(self).taps@.len() > 0),
    {
        if let Some(taps) = changed {
            self.taps = taps;
        }
        self.taps.len() > 0
    }
}

/// What came of polling a body.
#[derive(Clone, Copy, Debug, PartialEq, Eq, Structural)]
pub enum Polled {
    Pending,
    Data,
    Trailers,
    Failed,
    /// There is no further frame.
    Ended,
}

/// How a body ends.
#[derive(Clone, Copy, Debug, PartialEq, Eq, Structural)]
pub enum BodyEnd {
    WithoutTrailers,
    WithTrailers,
    Failed,
}

/// How a body ends at this frame, if it does. `end_stream` says whether the
/// body has ended once the frame is taken from it.
pub open spec fn end_at(polled: Polled, end_stream: bool) -> Option<BodyEnd> {
    match polled {
        Polled::Pending => None,
        Polled::Failed => Some(BodyEnd::Failed),
        Polled::Ended => Some(BodyEnd::WithoutTrailers),
        Polled::Trailers => Some(BodyEnd::WithTrailers),
        Polled::Data => if end_stream {
            Some(BodyEnd::WithoutTrailers)
        } else {
            None
        },
    }
}

/// The taps that are to hear how a body ended.
#[derive(Debug)]
pub struct Told<T> {
    pub taps: Vec<T>,
    pub end: Option<BodyEnd>,
}

/// The taps that still wait for a body's end.
#[derive(Debug)]
pub struct Body<T> {
    pub taps: Vec<T>,
}

impl<T> Body<T> {
    /// A body that `taps` watch. Where it has ended already, they hear of it at
    /// once.
    pub fn new(taps: Vec<T>, end_stream: bool) -> (r: (Self, Told<T>))
        ensures
            end_stream ==> r.0.taps@.len() == 0 && r.1.taps == taps && r.1.end == Some(
                BodyEnd::WithoutTrailers,
            ),
            !end_stream ==> r.0.taps == taps && r.1.taps@.len() == 0 && r.1.end is None,
    {
        if end_stream {
            (Body { taps: Vec::new() }, Told { taps, end: Some(BodyEnd::WithoutTrailers) })
        } else {
            (Body { taps }, Told { taps: Vec::new(), end: None })
        }
    }

    /// The body was polled.
    pub fn polled(&mut self, polled: Polled, end_stream: bool) -> (r: Told<T>)
        ensures
            r.end == end_at(polled, end_stream),
            end_at(polled, end_stream) is Some ==> {
                &&& r.taps@ == old(self).taps@
                &&& final(self).taps@.len() == 0
            },
            end_at(polled, end_stream) is None ==> {
                &&& r.taps@.len() == 0
                &&& final(self).taps@ == old(self).taps@
            },
    {
        let end: Option<BodyEnd> = match polled {
            Polled::Pending => None,
            Polled::Failed => Some(BodyEnd::Failed),
            Polled::Ended => Some(BodyEnd::WithoutTrailers),
            Polled::Trailers => Some(BodyEnd::WithTrailers),
            Polled::Data => {
                if end_stream {
                    Some(BodyEnd::WithoutTrailers)
                } else {
                    None
                }
            },
        };
        if end.is_some() {
            let mut taps: Vec<T> = Vec::new();
            std::mem::swap(&mut taps, &mut self.taps);
            Told { taps, end }
        } else {
            Told { taps: Vec::new(), end }
        }
    }

    /// The body is dropped: whoever still waits hears that it ended.
    pub fn dropped(self) -> (r: Told<T>)
        ensures
            r.taps == self.taps,
            r.end == Some(BodyEnd::WithoutTrailers),
    {
        Told { taps: self.taps, end: Some(BodyEnd::WithoutTrailers) }
    }
}

/// The taps that have heard of an end after these polls, in the order in which
/// they did, and those that still wait.
pub open spec fn after_polls<T>(taps: Seq<T>, polls: Seq<(Polled, bool)>) -> (Seq<T>, Seq<T>)
    decreases polls.len(),
{
    if polls.len() == 0 {
        (Seq::empty(), taps)
    } else {
        let before = after_polls(taps, polls.drop_last());
        if end_at(polls.last().0, polls.last().1) is Some {
            (before.0 + before.1, Seq::empty())
        } else {
            before
        }
    }
}

/// However a body is polled and then dropped, each tap hears of its end exactly
/// once: those that have heard and those that wait are together the taps that
/// the body started with.
pub proof fn each_tap_hears_one_end<T>(taps: Seq<T>, polls: Seq<(Polled, bool)>)
    ensures
        after_polls(taps, polls).0 + after_polls(taps, polls).1 == taps,
        after_polls(taps, polls).0.len() == 0 || after_polls(taps, polls).1.len() == 0,
    decreases polls.len(),
{
    if polls.len() == 0 {
        assert(Seq::<T>::empty() + taps =~= taps);
    } else {
        let before = after_polls(taps, polls.drop_last());
        each_tap_hears_one_end(taps, polls.drop_last());
        assert((before.0 + before.1) + Seq::<T>::empty() =~= before.0 + before.1);
    }
}

/// A body ends for its taps at its first frame that is an error, its trailers or
/// its end, or at data that it ends with; then each of them hears how, and none
/// is left to hear again. Any other poll tells nobody.
pub proof fn an_end_is_told_at_once<T>(polled: Polled, end_stream: bool)
    ensures
        forall|body: &mut Body<T>, r: Told<T>| #[trigger]
            call_ensures(Body::<T>::polled, (body, polled, end_stream), r) ==> {
                let ends = polled == Polled::Failed || polled == Polled::Ended || polled
                    == Polled::Trailers || (polled == Polled::Data && end_stream);
                &&& ends ==> r.taps@ == body.taps@ && final(body).taps@.len() == 0
                &&& !ends ==> r.taps@.len() == 0 && final(body).taps@ == body.taps@ && r.end is None
                &&& polled == Polled::Failed ==> r.end == Some(BodyEnd::Failed)
                &&& polled == Polled::Trailers ==> r.end == Some(BodyEnd::WithTrailers)
                &&& polled == Polled::Ended || (polled == Polled::Data && end_stream) ==> r.end
                    == Some(BodyEnd::WithoutTrailers)
            },
{
}

/// A body that has ended when it comes, and one that is dropped, has ended
/// without trailers to those who still wait; a body that has not keeps its taps.
pub proof fn an_empty_or_dropped_body_has_ended<T>(taps: Vec<T>, end_stream: bool)
    ensures
        forall|r: (Body<T>, Told<T>)| #[trigger]
            call_ensures(Body::<T>::new, (taps, end_stream), r) ==> {
                &&& end_stream ==> r.1.taps@ == taps@ && r.1.end == Some(BodyEnd::WithoutTrailers)
                    && r.0.taps@.len() == 0
                &&& !end_stream ==> r.0.taps@ == taps@ && r.1.taps@.len() == 0 && r.1.end is None
            },
        forall|body: Body<T>, r: Told<T>| #[trigger]
            call_ensures(Body::<T>::dropped, (body,), r) ==> r.taps@ == body.taps@ && r.end == Some(
                BodyEnd::WithoutTrailers,
            ),
{
}

/// The newest taps that the registry gave are those that hear, and a request is
/// tapped exactly where there is one.
pub proof fn the_newest_taps_hear<T>(changed: Option<Vec<T>>)
    ensures
        forall|taps: &mut TapHttp<T>, r: bool| #[trigger]
            call_ensures(TapHttp::<T>::refresh, (taps, changed), r) ==> {
                &&& changed is Some ==> final(taps).taps@ == changed->0@
                &&& changed is None ==> final(taps).taps@ == taps.taps@
                &&& r <==> final(taps).taps@.len() > 0
            },
{
}

} // verus!
