//! The sequence aggregator.
//!
//! Presses are collected into one sequence. The sequence is flushed when it
//! is full, or when a quiet period has passed since the last press: a few
//! presses close together make one gesture, a single press makes a gesture of
//! one.

use vstd::prelude::*;
use crate::button::ButtonNumber;
use crate::sequence::{ButtonSequence, SEQUENCE_CAP};

verus! {

/// The quiet period after the last press that ends a gesture, in
/// milliseconds.
pub const QUIET_MS: u64 = 700;

/// The longest the aggregator waits for a press before it looks at the
/// clock, in milliseconds.
pub const POLL_MS: u64 = 50;

/// What the aggregator holds: the presses of the gesture so far, and the time
/// of the last of them.
pub struct AggregatorView {
    pub sequence: Seq<ButtonNumber>,
    pub last_press_time: Option<u64>,
}

/// One turn of the aggregator's loop: the press that arrived while it
/// waited, if any, and the time read after the wait.
#[derive(Clone, Copy, Debug, PartialEq, Eq, Structural)]
pub struct Poll {
    pub received: Option<ButtonNumber>,
    pub now: u64,
}

/// The aggregator that holds nothing.
pub open spec fn empty_aggregator() -> AggregatorView {
    AggregatorView { sequence: Seq::empty(), last_press_time: None }
}

/// The aggregator after a press at `now`. A full sequence takes no more.
pub open spec fn after_press(held: AggregatorView, button: ButtonNumber, now: u64)
    -> AggregatorView {
    AggregatorView {
        sequence: if held.sequence.len() < SEQUENCE_CAP {
            held.sequence.push(button)
        } else {
            held.sequence
        },
        last_press_time: Some(now),
    }
}

/// Whether a tick at `now` finds a reason to flush: the sequence is full, or
/// the quiet period has passed since the last press.
pub open spec fn should_flush(held: AggregatorView, now: u64) -> bool {
    held.sequence.len() >= SEQUENCE_CAP || (held.last_press_time matches Some(last) && now - last
        >= QUIET_MS)
}

/// The aggregator after a tick at `now`, and the sequence that the tick
/// flushed, if it flushed one.
pub open spec fn after_tick(held: AggregatorView, now: u64) -> (
    AggregatorView,
    Option<Seq<ButtonNumber>>,
) {
    if should_flush(held, now) && held.sequence.len() > 0 {
        (empty_aggregator(), Some(held.sequence))
    } else {
        (held, None)
    }
}

/// The aggregator after one turn of its loop, and what the turn flushed.
pub open spec fn after_poll(held: AggregatorView, poll: Poll) -> (
    AggregatorView,
    Option<Seq<ButtonNumber>>,
) {
    match poll.received {
        Some(button) => after_tick(after_press(held, button, poll.now), poll.now),
        None => after_tick(held, poll.now),
    }
}

/// What an aggregator that started empty holds before the turn at `index`.
pub open spec fn state_before(polls: Seq<Poll>, index: int) -> AggregatorView
    decreases index,
{
    if index <= 0 {
        empty_aggregator()
    } else {
        after_poll(state_before(polls, index - 1), polls[index - 1]).0
    }
}

/// What the turn at `index` flushes, for an aggregator that started empty.
pub open spec fn output_at(polls: Seq<Poll>, index: int) -> Option<Seq<ButtonNumber>> {
    after_poll(state_before(polls, index), polls[index]).1
}

/// The buttons of a flushed sequence, where one was flushed.
pub open spec fn flushed_view(flushed: Option<ButtonSequence>) -> Option<Seq<ButtonNumber>> {
    match flushed {
        Some(sequence) => Some(sequence@),
        None => None,
    }
}

/// The sequence aggregator.
#[derive(Debug)]
pub struct SequenceAggregator {
    sequence: ButtonSequence,
    last_press_time: Option<u64>,
}

impl View for SequenceAggregator {
    type V = AggregatorView;

    closed spec fn view(&self) -> AggregatorView {
        AggregatorView { sequence: self.sequence@, last_press_time: self.last_press_time }
    }
}

impl SequenceAggregator {
    #[verifier::type_invariant]
    spec fn inv(self) -> bool {
        self.last_press_time is Some <==> self.sequence@.len() > 0
    }

    /// An aggregator that holds nothing.
    pub fn new() -> (aggregator: Self)
        ensures
            aggregator@ == empty_aggregator(),
    {
        SequenceAggregator { sequence: ButtonSequence::new(), last_press_time: None }
    }

    /// Number of presses held.
    pub fn len(&self) -> (n: usize)
        ensures
            n == self@.sequence.len(),
            n <= SEQUENCE_CAP,
    {
        self.sequence.len()
    }

    /// Time of the last press held, if one is held.
    pub fn last_press_time(&self) -> (last: Option<u64>)
        ensures
            last == self@.last_press_time,
            last is Some <==> self@.sequence.len() > 0,
    {
        proof {
            use_type_invariant(self);
        }
        self.last_press_time
    }

    /// Takes a press that arrived at `now`: the button goes behind those
    /// held, and the quiet period starts anew. A full sequence drops the
    /// button; that is reported.
    pub fn on_press(&mut self, button: ButtonNumber, now: u64) -> (taken: bool)
        ensures
            final(self)@ == after_press(old(self)@, button, now),
            taken == (old(self)@.sequence.len() < SEQUENCE_CAP),
    {
        proof {
            use_type_invariant(&*self);
        }
        let mut held = SequenceAggregator::new();
        std::mem::swap(self, &mut held);
        let SequenceAggregator { sequence, last_press_time: _ } = held;
        let mut sequence = sequence;
        let taken: bool = sequence.push(button);
        let mut next = SequenceAggregator { sequence, last_press_time: Some(now) };
        std::mem::swap(self, &mut next);
        taken
    }

    /// Looks at the clock. Where the sequence is full, or the quiet period
    /// has passed since the last press, the sequence is handed out whole and
    /// the aggregator is empty again. Otherwise nothing changes.
    pub fn on_tick(&mut self, now: u64) -> (flushed: Option<ButtonSequence>)
        ensures
            final(self)@ == after_tick(old(self)@, now).0,
            flushed_view(flushed) == after_tick(old(self)@, now).1,
    {
        proof {
            use_type_invariant(&*self);
        }
        let quiet: bool = match self.last_press_time {
            Some(last) => now >= last && now - last >= QUIET_MS,
            None => false,
        };
        if (self.sequence.is_full() || quiet) && !self.sequence.is_empty() {
            let mut held = SequenceAggregator::new();
            std::mem::swap(self, &mut held);
            let SequenceAggregator { sequence, last_press_time: _ } = held;
            Some(sequence)
        } else {
            None
        }
    }

    /// One turn of the loop: takes the press, if one arrived, then looks at
    /// the clock.
    pub fn poll(&mut self, poll: Poll) -> (flushed: Option<ButtonSequence>)
        ensures
            final(self)@ == after_poll(old(self)@, poll).0,
            flushed_view(flushed) == after_poll(old(self)@, poll).1,
    {
        match poll.received {
            Some(button) => {
                self.on_press(button, poll.now);
            },
            None => {},
        }
        self.on_tick(poll.now)
    }
}

/// Runs an aggregator that starts empty through the turns of its loop, and
/// says for each turn what it flushed.
pub fn button_sequence_debounce_task(polls: &Vec<Poll>) -> (flushed: Vec<Option<ButtonSequence>>)
    ensures
        flushed@.len() == polls@.len(),
        forall|i: int|
            0 <= i < polls@.len() ==> flushed_view(#[trigger] flushed@[i]) == output_at(polls@, i),
{
    let mut aggregator = SequenceAggregator::new();
    let mut flushed: Vec<Option<ButtonSequence>> = Vec::new();
    let mut i: usize = 0;
    while i < polls.len()
        invariant
            i <= polls@.len(),
            flushed@.len() == i,
            aggregator@ == state_before(polls@, i as int),
            forall|k: int|
                0 <= k < i ==> flushed_view(#[trigger] flushed@[k]) == output_at(polls@, k),
        decreases polls@.len() - i,
    {
        let out = aggregator.poll(polls[i]);
        flushed.push(out);
        i += 1;
    }
    flushed
}

/// The latest turn before `index` at which a press arrived; -1 where there
/// is none.
pub open spec fn last_press_before(polls: Seq<Poll>, index: int) -> int
    decreases index,
{
    if index <= 0 {
        -1
    } else if polls[index - 1].received is Some {
        index - 1
    } else {
        last_press_before(polls, index - 1)
    }
}

/// Whether some turn after the one at `press` and before the one at `index`
/// read a time at which the quiet period since `press` had passed.
pub open spec fn quiet_seen(polls: Seq<Poll>, press: int, index: int) -> bool
    decreases index - press,
{
    if index <= press + 1 {
        false
    } else {
        quiet_seen(polls, press, index - 1) || polls[index - 1].now - polls[press].now >= QUIET_MS
    }
}

/// Whether each press stands alone: before a press arrives, the aggregator
/// has looked at the clock after the quiet period of the press before it.
pub open spec fn presses_isolated(polls: Seq<Poll>) -> bool {
    forall|i: int|
        0 <= i < polls.len() && polls[i].received is Some && #[trigger] last_press_before(polls, i)
            >= 0 ==> quiet_seen(polls, last_press_before(polls, i), i)
}

/// The one-press sequence held for the press that arrived at turn `press`.
pub open spec fn lone_press(polls: Seq<Poll>, press: int) -> AggregatorView {
    AggregatorView {
        sequence: Seq::<ButtonNumber>::empty().push(polls[press].received->Some_0),
        last_press_time: Some(polls[press].now),
    }
}

/// The latest press before a turn lies before it, and is a press.
pub proof fn lemma_last_press_before(polls: Seq<Poll>, index: int)
    requires
        0 <= index <= polls.len(),
    ensures
        -1 <= last_press_before(polls, index) < index,
        last_press_before(polls, index) >= 0 ==> polls[last_press_before(
            polls,
            index,
        )].received is Some,
    decreases index,
{
    if index > 0 && polls[index - 1].received is None {
        lemma_last_press_before(polls, index - 1);
    }
}

/// Where each press stands alone, the aggregator holds before each turn
/// either nothing, or the one press that is still waiting for its quiet
/// period.
pub proof fn lemma_isolated_state(polls: Seq<Poll>, index: int)
    requires
        presses_isolated(polls),
        0 <= index <= polls.len(),
    ensures
        state_before(polls, index) == if last_press_before(polls, index) < 0 || quiet_seen(
            polls,
            last_press_before(polls, index),
            index,
        ) {
            empty_aggregator()
        } else {
            lone_press(polls, last_press_before(polls, index))
        },
    decreases index,
{
    if index > 0 {
        let turn = index - 1;
        lemma_isolated_state(polls, turn);
        lemma_last_press_before(polls, turn);
        let before = last_press_before(polls, turn);
        if polls[turn].received is Some {
            assert(before >= 0 ==> quiet_seen(polls, before, turn));
            assert(state_before(polls, turn) == empty_aggregator());
        }
    }
}

/// For presses that stand alone, each flush hands out exactly one press: the
/// turn that first reads a time at which the quiet period since the latest
/// press has passed flushes that press alone, and no other turn flushes
/// anything. So there is one flush for each press, and no two presses share
/// one.
pub proof fn lemma_isolated_presses_flush_alone(polls: Seq<Poll>, index: int)
    requires
        presses_isolated(polls),
        0 <= index < polls.len(),
    ensures
        output_at(polls, index) == if polls[index].received is None && last_press_before(
            polls,
            index,
        ) >= 0 && !quiet_seen(polls, last_press_before(polls, index), index) && polls[index].now
            - polls[last_press_before(polls, index)].now >= QUIET_MS {
            Some(lone_press(polls, last_press_before(polls, index)).sequence)
        } else {
            None::<Seq<ButtonNumber>>
        },
{
    lemma_isolated_state(polls, index);
    lemma_last_press_before(polls, index);
    let before = last_press_before(polls, index);
    if polls[index].received is Some {
        assert(before >= 0 ==> quiet_seen(polls, before, index));
    }
}

/// How many turns before the one at `index` flushed a sequence.
pub open spec fn flushes_before(polls: Seq<Poll>, index: int) -> nat
    decreases index,
{
    if index <= 0 {
        0
    } else if output_at(polls, index - 1) is Some {
        flushes_before(polls, index - 1) + 1
    } else {
        flushes_before(polls, index - 1)
    }
}

/// How many presses arrived before the turn at `index`.
pub open spec fn presses_before(polls: Seq<Poll>, index: int) -> nat
    decreases index,
{
    if index <= 0 {
        0
    } else if polls[index - 1].received is Some {
        presses_before(polls, index - 1) + 1
    } else {
        presses_before(polls, index - 1)
    }
}

/// For presses that stand alone there is one flush for each press: before
/// any turn, as many sequences were flushed as presses arrived, less the one
/// press that may still wait for its quiet period.
pub proof fn lemma_one_flush_per_isolated_press(polls: Seq<Poll>, index: int)
    requires
        presses_isolated(polls),
        0 <= index <= polls.len(),
    ensures
        state_before(polls, index).sequence.len() <= 1,
        flushes_before(polls, index) + state_before(polls, index).sequence.len()
            == presses_before(polls, index),
    decreases index,
{
    lemma_isolated_state(polls, index);
    if index > 0 {
        let turn = index - 1;
        lemma_one_flush_per_isolated_press(polls, turn);
        lemma_isolated_state(polls, turn);
        lemma_isolated_presses_flush_alone(polls, turn);
        lemma_last_press_before(polls, turn);
        if polls[turn].received is Some {
            let before = last_press_before(polls, turn);
            assert(before >= 0 ==> quiet_seen(polls, before, turn));
        }
    }
}

/// Whether the clock never goes back and is looked at again within
/// `POLL_MS` of each look.
pub open spec fn polled_in_time(polls: Seq<Poll>) -> bool {
    forall|i: int|
        0 < i < polls.len() ==> polls[i - 1].now <= (#[trigger] polls[i]).now && polls[i].now
            - polls[i - 1].now <= POLL_MS
}

/// Whether each press comes at least the quiet period and one look at the
/// clock after the press before it.
pub open spec fn presses_spaced(polls: Seq<Poll>) -> bool {
    forall|i: int|
        0 <= i < polls.len() && polls[i].received is Some && #[trigger] last_press_before(polls, i)
            >= 0 ==> polls[i].now - polls[last_press_before(polls, i)].now >= QUIET_MS + POLL_MS
}

/// Presses that are spaced by the quiet period and one look at the clock
/// stand alone, where the clock is looked at in time: the look before each
/// press has seen the quiet period of the press before it.
pub proof fn lemma_spaced_presses_are_isolated(polls: Seq<Poll>)
    requires
        polled_in_time(polls),
        presses_spaced(polls),
    ensures
        presses_isolated(polls),
{
    assert forall|i: int|
        0 <= i < polls.len() && polls[i].received is Some && #[trigger] last_press_before(polls, i)
            >= 0 implies quiet_seen(polls, last_press_before(polls, i), i) by {
        lemma_last_press_before(polls, i);
        let before = last_press_before(polls, i);
        assert(polls[i - 1].now <= polls[i].now && polls[i].now - polls[i - 1].now <= POLL_MS);
    }
}

/// The buttons that arrived before the turn at `index`, in order.
pub open spec fn buttons_before(polls: Seq<Poll>, index: int) -> Seq<ButtonNumber>
    decreases index,
{
    if index <= 0 {
        Seq::empty()
    } else {
        match polls[index - 1].received {
            Some(button) => buttons_before(polls, index - 1).push(button),
            None => buttons_before(polls, index - 1),
        }
    }
}

/// Whether no turn before `index` that came without a press read a time at
/// which the quiet period since the latest press had passed.
pub open spec fn no_quiet_before(polls: Seq<Poll>, index: int) -> bool {
    forall|j: int|
        0 <= j < index && polls[j].received is None && #[trigger] last_press_before(polls, j) >= 0
            ==> polls[j].now - polls[last_press_before(polls, j)].now < QUIET_MS
}

/// While fewer presses than the cap have arrived and no quiet period has
/// passed, nothing is flushed and the aggregator holds every press so far.
pub proof fn lemma_unflushed_state(polls: Seq<Poll>, index: int)
    requires
        0 <= index <= polls.len(),
        buttons_before(polls, index).len() < SEQUENCE_CAP,
        no_quiet_before(polls, index),
    ensures
        state_before(polls, index) == (AggregatorView {
            sequence: buttons_before(polls, index),
            last_press_time: if last_press_before(polls, index) >= 0 {
                Some(polls[last_press_before(polls, index)].now)
            } else {
                None
            },
        }),
        forall|i: int| 0 <= i < index ==> #[trigger] output_at(polls, i) is None,
    decreases index,
{
    if index > 0 {
        let turn = index - 1;
        assert(no_quiet_before(polls, turn));
        lemma_unflushed_state(polls, turn);
        lemma_last_press_before(polls, turn);
        if polls[turn].received is None {
            let before = last_press_before(polls, turn);
            assert(before >= 0 ==> polls[turn].now - polls[before].now < QUIET_MS);
        }
        assert(output_at(polls, turn) is None);
    }
}

/// In a stream without a quiet period the press that fills the sequence
/// flushes it at once: nothing is flushed before that turn, and that turn
/// hands out all the presses so far, in order, and leaves the aggregator
/// empty.
pub proof fn lemma_full_sequence_flushes_at_once(polls: Seq<Poll>, index: int)
    requires
        0 <= index < polls.len(),
        polls[index].received is Some,
        buttons_before(polls, index).len() == SEQUENCE_CAP - 1,
        no_quiet_before(polls, index),
    ensures
        forall|i: int| 0 <= i < index ==> #[trigger] output_at(polls, i) is None,
        output_at(polls, index) == Some(buttons_before(polls, index + 1)),
        buttons_before(polls, index + 1).len() == SEQUENCE_CAP,
        state_before(polls, index + 1) == empty_aggregator(),
{
    lemma_unflushed_state(polls, index);
}

} // verus!
