//! Waiting for DMA channels: the interrupt raises a signal, a task waits for it.
use vstd::prelude::*;

verus! {

/// How many DMA channels there are.
pub const CHANNEL_COUNT: usize = 12;

/// What the interrupt finds out about a channel.
#[derive(Debug, Clone, Copy, PartialEq, Eq, Structural)]
pub enum ChannelEvent {
    /// A bus error, which cannot be recovered from.
    Error,
    /// The channel raised the interrupt.
    Done,
    /// Nothing.
    Idle,
}

/// Whether a channel raised the interrupt, by the interrupt status `ints`.
pub open spec fn raised(ints: u32, channel: int) -> bool {
    (ints >> (channel as u32)) & 1 == 1
}

/// What the interrupt does about `channel`, given whether its control register
/// shows a bus error.
pub fn channel_event(ints: u32, channel: usize, ahb_error: bool) -> (r: ChannelEvent)
    requires
        channel < CHANNEL_COUNT,
    ensures
        r == (if ahb_error {
            ChannelEvent::Error
        } else if raised(ints, channel as int) {
            ChannelEvent::Done
        } else {
            ChannelEvent::Idle
        }),
{
    if ahb_error {
        return ChannelEvent::Error;
    }
    let c: u32 = channel as u32;
    let bit: u32 = 1u32 << c;
    assert(((ints & bit) == bit) == ((ints >> c) & 1 == 1)) by (bit_vector)
        requires
            c < 12,
            bit == 1u32 << c,
    ;
    if (ints & bit) == bit {
        ChannelEvent::Done
    } else {
        ChannelEvent::Idle
    }
}

/// The interrupt enable mask for two channels.
pub fn init(dma0: u8, dma1: u8) -> (r: u32)
    requires
        dma0 < CHANNEL_COUNT,
        dma1 < CHANNEL_COUNT,
    ensures
        forall|c: int| 0 <= c < 32 ==> (#[trigger] raised(r, c) <==> c == dma0 || c == dma1),
        r == (1u32 << dma0) | (1u32 << dma1),
{
    let r: u32 = (1u32 << dma0) | (1u32 << dma1);
    assert forall|c: int| 0 <= c < 32 implies (#[trigger] raised(r, c) <==> c == dma0 || c
        == dma1) by {
        let n: u32 = c as u32;
        assert(((r >> n) & 1 == 1) == (n == dma0 as u32 || n == dma1 as u32)) by (bit_vector)
            requires
                n < 32,
                dma0 < 12,
                dma1 < 12,
                r == (1u32 << dma0) | (1u32 << dma1),
        ;
    }
    r
}

/// What a [`Signal`] is in.
pub enum State<W, T> {
    /// Not signaled, and no task waits.
    Idle,
    /// A task waits and is to be woken by this waker.
    Waiting(W),
    /// Signaled with this value.
    Signaled(T),
}

/// A value that one side gives and a waiting task takes. `W` wakes the task.
pub struct Signal<W, T> {
    state: State<W, T>,
}

/// The answer to a waiting task.
pub enum WaitPoll<W, T> {
    /// The value.
    Ready(T),
    /// No value yet. The waker of another task that waited has to be woken.
    Pending { displaced: Option<W> },
}

/// What giving a value does: the next state and the waker to be woken.
pub open spec fn signaled<W, T>(state: State<W, T>, val: T) -> (State<W, T>, Option<W>) {
    (
        State::Signaled(val),
        match state {
            State::Waiting(waker) => Some(waker),
            _ => None,
        },
    )
}

/// What waiting for the value does: the next state and the answer.
pub open spec fn polled<W, T>(state: State<W, T>, waker: W, same_task: bool) -> (
    State<W, T>,
    WaitPoll<W, T>,
) {
    match state {
        State::Idle => (State::Waiting(waker), WaitPoll::Pending { displaced: None }),
        State::Waiting(waiting) => if same_task {
            (State::Waiting(waiting), WaitPoll::Pending { displaced: None })
        } else {
            (State::Waiting(waker), WaitPoll::Pending { displaced: Some(waiting) })
        },
        State::Signaled(val) => (State::Idle, WaitPoll::Ready(val)),
    }
}

/// A channel has raised the interrupt when the bit with its number is set, and no
/// other bit matters.
pub proof fn law_channel_has_its_bit(ints: u32, channel: u32)
    requires
        channel < 32,
    ensures
        raised(ints, channel as int) <==> ints & (1u32 << channel) != 0,
{
    assert(((ints >> channel) & 1 == 1) == (ints & (1u32 << channel) != 0)) by (bit_vector)
        requires
            channel < 32,
    ;
}

/// A task that waits does not wake itself: only the waker of another task is
/// displaced, and only while no value is there.
pub proof fn law_only_other_tasks_are_displaced<W, T>(
    state: State<W, T>,
    waker: W,
    same_task: bool,
)
    ensures
        match polled(state, waker, same_task).1 {
            WaitPoll::Ready(val) => state == State::<W, T>::Signaled(val) && polled(
                state,
                waker,
                same_task,
            ).0 == State::<W, T>::Idle,
            WaitPoll::Pending { displaced: Some(other) } => !same_task && state == State::<
                W,
                T,
            >::Waiting(other),
            WaitPoll::Pending { displaced: None } => !(state is Signaled) && (state is Waiting
                ==> same_task),
        },
{
}

/// A value that was given is what the next wait takes, once.
pub proof fn law_value_is_taken_once<W, T>(
    state: State<W, T>,
    val: T,
    waker: W,
    same_task: bool,
    next_waker: W,
    next_same: bool,
)
    ensures
        ({
            let given = signaled(state, val).0;
            let taken = polled(given, waker, same_task);
            &&& taken.1 == WaitPoll::<W, T>::Ready(val)
            &&& polled(taken.0, next_waker, next_same).1 is Pending
        }),
{
}

/// No wake-up is lost: a task that was told to wait is woken when the value is
/// given, unless another task took its place, and then it was woken for that.
pub proof fn law_no_wakeup_is_lost<W, T>(state: State<W, T>, waker: W, same_task: bool, val: T)
    requires
        polled(state, waker, same_task).1 is Pending,
    ensures
        ({
            let waiting = polled(state, waker, same_task);
            let woken = signaled(waiting.0, val).1;
            match state {
                State::Waiting(earlier) if same_task => woken == Some(earlier),
                State::Waiting(earlier) => woken == Some(waker) && waiting.1->displaced == Some(
                    earlier,
                ),
                _ => woken == Some(waker),
            }
        }),
{
}

impl<W, T> Signal<W, T> {
    /// What the signal is in.
    pub closed spec fn state(self) -> State<W, T> {
        self.state
    }

    /// A signal that was not given.
    pub fn new() -> (r: Self)
        ensures
            r.state() == State::<W, T>::Idle,
    {
        Signal { state: State::Idle }
    }

    /// Gives the value, in place of one that was not taken. The waker that is
    /// returned has to be woken.
    pub fn signal(&mut self, val: T) -> (r: Option<W>)
        ensures
            (final(self).state(), r) == signaled(old(self).state(), val),
    {
        let mut state = State::Signaled(val);
        core::mem::swap(&mut self.state, &mut state);
        match state {
            State::Waiting(waker) => Some(waker),
            _ => None,
        }
    }

    /// Forgets the value, if there is one, and the waiting task.
    pub fn reset(&mut self)
        ensures
            final(self).state() == State::<W, T>::Idle,
    {
        self.state = State::Idle;
    }

    /// The waker of the task that waits, to be compared with another.
    pub fn waiting(&self) -> (r: Option<&W>)
        ensures
            match self.state() {
                State::Waiting(waker) => r == Some(&waker),
                _ => r == None::<&W>,
            },
    {
        match &self.state {
            State::Waiting(waker) => Some(waker),
            _ => None,
        }
    }

    /// Takes the value, or notes that a task waits for it. `waker` wakes that
    /// task; `same_task` says whether the waker that waits already does too.
    pub fn poll_wait(&mut self, waker: W, same_task: bool) -> (r: WaitPoll<W, T>)
        ensures
            (final(self).state(), r) == polled(old(self).state(), waker, same_task),
    {
        let mut state = State::Idle;
        core::mem::swap(&mut self.state, &mut state);
        match state {
            State::Idle => {
                self.state = State::Waiting(waker);
                WaitPoll::Pending { displaced: None }
            },
            State::Waiting(old_waker) => {
                if same_task {
                    self.state = State::Waiting(old_waker);
                    WaitPoll::Pending { displaced: None }
                } else {
                    self.state = State::Waiting(waker);
                    WaitPoll::Pending { displaced: Some(old_waker) }
                }
            },
            State::Signaled(res) => WaitPoll::Ready(res),
        }
    }
}

impl<W, T> Default for Signal<W, T> {
    fn default() -> (r: Self)
        ensures
            r.state() == State::<W, T>::Idle,
    {
        Self::new()
    }
}

/// Whether a transfer that waits for `signal` is over; if so, the signal is
/// ready for the next one.
pub fn poll_transfer<W>(signal: &mut Signal<W, ()>, waker: W, same_task: bool) -> (r: WaitPoll<
    W,
    (),
>)
    ensures
        (final(signal).state(), r) == polled(old(signal).state(), waker, same_task),
{
    match signal.poll_wait(waker, same_task) {
        WaitPoll::Ready(()) => {
            signal.reset();
            WaitPoll::Ready(())
        },
        WaitPoll::Pending { displaced } => WaitPoll::Pending { displaced },
    }
}

} // verus!
