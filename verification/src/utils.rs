use vstd::prelude::*;

verus! {

/// The outcome of polling a stream once.
#[derive(Debug, Clone, Copy, PartialEq, Eq)]
pub enum StreamPoll<I> {
    /// The stream yielded an item.
    Item(I),
    /// The stream has ended.
    Ended,
    /// The stream has nothing yet.
    NotReady,
}

/// The outcome of polling a combined stream once.
#[derive(Debug, Clone, Copy, PartialEq, Eq)]
pub enum PollOutcome<I> {
    /// Ready: an item, or `None` for the end of the stream.
    Ready(Option<I>),
    /// Not ready yet.
    Pending,
}

/// Combines two streams, yielding the latest value of each whenever either yields.
pub struct ZipLatest<A, B, F, X, Y> {
    pub a: A,
    pub b: B,
    pub a_item: Option<X>,
    pub b_item: Option<Y>,
    pub func: F,
}

impl<A, B, F, X, Y> ZipLatest<A, B, F, X, Y> {
    pub fn new(a: A, b: B, func: F) -> (z: Self)
        ensures
            z.a == a,
            z.b == b,
            z.func == func,
            z.a_item is None,
            z.b_item is None,
    {
        Self { a, b, a_item: None, b_item: None, func }
    }

    /// Takes what polling both streams gave (`None` where a stream was not ready; `Some(None)`
    /// where it ended) and returns whether the combined stream yields the latest pair now: when
    /// either stream was ready and both have a latest value. A stream that ends clears its
    /// latest value.
    pub fn receive(&mut self, a_poll: Option<Option<X>>, b_poll: Option<Option<Y>>) -> (emit: bool)
        ensures
            final(self).a == old(self).a,
            final(self).b == old(self).b,
            final(self).func == old(self).func,
            final(self).a_item == latest(old(self).a_item, a_poll),
            final(self).b_item == latest(old(self).b_item, b_poll),
            emit == ((a_poll is Some || b_poll is Some) && final(self).a_item is Some
                && final(self).b_item is Some),
    {
        let mut ready = false;
        match a_poll {
            Some(v) => {
                self.a_item = v;
                ready = true;
            },
            None => {},
        }
        match b_poll {
            Some(v) => {
                self.b_item = v;
                ready = true;
            },
            None => {},
        }
        ready && self.a_item.is_some() && self.b_item.is_some()
    }
}

/// What a combined stream keeps of a stream after a poll: its new item, nothing when it ended, or
/// its latest item when it was not ready.
pub open spec fn latest<X>(item: Option<X>, poll: Option<Option<X>>) -> Option<X> {
    match poll {
        Some(v) => v,
        None => item,
    }
}

/// Once both streams have yielded, every poll in which either yields a new item, and neither
/// ends, yields the pair of latest items; a poll in which neither is ready yields nothing.
pub proof fn lemma_zip_latest_yields<X, Y>(a_item: Option<X>, b_item: Option<Y>, a_poll: Option<Option<X>>, b_poll: Option<Option<Y>>)
    requires
        a_item is Some,
        b_item is Some,
        a_poll != Some(None::<X>),
        b_poll != Some(None::<Y>),
    ensures
        (a_poll is Some || b_poll is Some) ==> latest(a_item, a_poll) is Some && latest(b_item, b_poll) is Some,
        a_poll is None && b_poll is None ==> latest(a_item, a_poll) == a_item && latest(b_item, b_poll) == b_item,
{
}

/// Throttles a stream: after each item it waits on a timer made by `future` before taking the
/// next. With `skip`, a poll while the stream has nothing ready ends the wait with `None`.
pub struct Throttle<S, T, F> {
    pub stream: S,
    pub future: F,
    pub pending: Option<T>,
    pub skip: bool,
}

impl<S, T, F> Throttle<S, T, F> {
    pub fn new(stream: S, future: F) -> (t: Self)
        ensures
            t.stream == stream,
            t.future == future,
            t.pending is None,
            !t.skip,
    {
        Self { stream, future, pending: None, skip: false }
    }

    pub fn skip(stream: S, future: F) -> (t: Self)
        ensures
            t.stream == stream,
            t.future == future,
            t.pending is None,
            t.skip,
    {
        Self { stream, future, pending: None, skip: true }
    }

    /// Whether a timer is running, which must finish before the stream is polled.
    pub fn is_waiting(&self) -> (b: bool)
        ensures
            b == self.pending is Some,
    {
        self.pending.is_some()
    }

    /// The running timer has finished.
    pub fn timer_finished(&mut self)
        ensures
            final(self).pending is None,
            final(self).stream == old(self).stream,
            final(self).future == old(self).future,
            final(self).skip == old(self).skip,
    {
        self.pending = None;
    }
}

/// What a throttled stream answers to what polling its stream gave, once no timer runs, and
/// whether it starts a new timer: an item is passed on with a new timer; the end of the stream
/// ends it; a stream with nothing ready makes it wait, or, with `skip`, answers `None` with a new
/// timer.
pub open spec fn spec_throttle_answer<I>(skip: bool, poll: StreamPoll<I>) -> (PollOutcome<I>, bool) {
    match poll {
        StreamPoll::Item(v) => (PollOutcome::Ready(Some(v)), true),
        StreamPoll::Ended => (PollOutcome::Ready(None), !skip),
        StreamPoll::NotReady => if skip {
            (PollOutcome::Ready(None), true)
        } else {
            (PollOutcome::Pending, false)
        },
    }
}

/// Decides the answer to a poll of the stream; see [`spec_throttle_answer`].
pub fn throttle_answer<I>(skip: bool, poll: StreamPoll<I>) -> (r: (PollOutcome<I>, bool))
    ensures
        r == spec_throttle_answer(skip, poll),
{
    match poll {
        StreamPoll::Item(v) => (PollOutcome::Ready(Some(v)), true),
        StreamPoll::Ended => (PollOutcome::Ready(None), !skip),
        StreamPoll::NotReady => if skip {
            (PollOutcome::Ready(None), true)
        } else {
            (PollOutcome::Pending, false)
        },
    }
}

/// One poll of a throttled stream, given whether a timer is running, whether that timer has
/// finished, and what polling the stream would give: while the timer has not finished the answer
/// is `Pending` and the stream is not polled; otherwise the stream is polled and answered as
/// [`spec_throttle_answer`] says. Gives the answer, whether a timer runs afterwards, and whether
/// the stream was polled.
pub open spec fn throttle_poll<I>(skip: bool, waiting: bool, timer_done: bool, poll: StreamPoll<I>) -> (PollOutcome<I>, bool, bool) {
    if waiting && !timer_done {
        (PollOutcome::Pending, true, false)
    } else {
        let (answer, starts) = spec_throttle_answer(skip, poll);
        (answer, starts, true)
    }
}

/// The answers of a throttled stream to a run of polls, each given as whether the timer has
/// finished and what polling the stream gives, together with the stream polls it made.
pub open spec fn throttle_run<I>(skip: bool, waiting: bool, polls: Seq<(bool, StreamPoll<I>)>) -> (Seq<PollOutcome<I>>, Seq<StreamPoll<I>>)
    decreases polls.len(),
{
    if polls.len() == 0 {
        (Seq::empty(), Seq::empty())
    } else {
        let (answer, next_waiting, polled) = throttle_poll(skip, waiting, polls[0].0, polls[0].1);
        let (answers, consumed) = throttle_run(skip, next_waiting, polls.drop_first());
        (
            seq![answer] + answers,
            if polled { seq![polls[0].1] + consumed } else { consumed },
        )
    }
}

/// The items that a run of stream polls yielded, in order.
pub open spec fn polled_items<I>(polls: Seq<StreamPoll<I>>) -> Seq<I>
    decreases polls.len(),
{
    if polls.len() == 0 {
        Seq::empty()
    } else {
        match polls[0] {
            StreamPoll::Item(v) => seq![v] + polled_items(polls.drop_first()),
            _ => polled_items(polls.drop_first()),
        }
    }
}

/// The items that a run of answers passed on, in order.
pub open spec fn answered_items<I>(answers: Seq<PollOutcome<I>>) -> Seq<I>
    decreases answers.len(),
{
    if answers.len() == 0 {
        Seq::empty()
    } else {
        match answers[0] {
            PollOutcome::Ready(Some(v)) => seq![v] + answered_items(answers.drop_first()),
            _ => answered_items(answers.drop_first()),
        }
    }
}

/// Over any run of polls a throttled stream passes on exactly the items its stream yielded when
/// polled, in order, none dropped, repeated or reordered; it polls the stream only when no timer
/// runs or the timer has finished; and without `skip` every `Ready` answer starts a new timer.
pub proof fn lemma_throttle_passes_items<I>(skip: bool, waiting: bool, polls: Seq<(bool, StreamPoll<I>)>)
    ensures
        answered_items(throttle_run(skip, waiting, polls).0) == polled_items(throttle_run(skip, waiting, polls).1),
        throttle_run(skip, waiting, polls).0.len() == polls.len(),
        polls.len() > 0 && waiting && !polls[0].0 ==> throttle_run(skip, waiting, polls).0[0] == PollOutcome::<I>::Pending
            && throttle_run(skip, waiting, polls).1 == throttle_run(skip, true, polls.drop_first()).1,
        polls.len() > 0 && !skip && throttle_run(skip, waiting, polls).0[0] is Ready ==> throttle_poll(
            skip,
            waiting,
            polls[0].0,
            polls[0].1,
        ).1,
    decreases polls.len(),
{
    if polls.len() > 0 {
        let (answer, next_waiting, polled) = throttle_poll(skip, waiting, polls[0].0, polls[0].1);
        lemma_throttle_passes_items(skip, next_waiting, polls.drop_first());
        let (answers, consumed) = throttle_run(skip, next_waiting, polls.drop_first());
        let all = throttle_run(skip, waiting, polls);
        assert(all.0.drop_first() == answers);
        if polled {
            assert(all.1.drop_first() == consumed);
        }
    }
}

/// Every item a throttled stream passes on starts a timer, so no two items pass without a wait.
pub proof fn lemma_item_starts_timer<I>(skip: bool, v: I)
    ensures
        spec_throttle_answer(skip, StreamPoll::Item(v)) == (PollOutcome::Ready(Some(v)), true),
{
}

} // verus!
