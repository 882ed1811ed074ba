//! Transfers of ranges of blocks.
//!
//! Each of the three is a sequence of actions. The caller performs the action
//! that is named and reports with a flag how it went.
use vstd::prelude::*;

use crate::command::Failure;
use crate::tasks::{
    block_number, blocks_per_erase, law_blocks_are_consecutive, law_erase_blocks_in_numbers, lba_at,
    sectors_in_block, SpiexTaskRequest,
};

verus! {

/// How many milliseconds the NAND controller has to get ready, each time that an
/// operation of a range waits for it.
pub const NAND_TIMEOUT_MILLIS: u64 = 1000;

/// A range transfer on its way; `A` is what it does.
pub struct RangeView<A> {
    /// The first block.
    pub start: u32,
    /// How many blocks there are.
    pub count: u32,
    /// How many of them are behind.
    pub done: int,
    /// The next action.
    pub next: A,
}

/// An action of receiving the blocks of a range from the host.
#[derive(Debug, Clone, Copy, PartialEq, Eq, Structural)]
pub enum ReceiveAction {
    /// Withdraw any cancellation of receiving and pass this on to the NAND task.
    Begin(SpiexTaskRequest),
    /// Withdraw the cancellation of receiving; report whether there was one.
    TakeCancel,
    /// Wait for a frame; report whether one came.
    AwaitFrame,
    /// Hand the bytes of the frame to the NAND task.
    StoreFrame,
    /// Tell the host of the failure, if there is one, and read on in the mode that
    /// [`crate::tasks::read_mode_after_range`] gives.
    Finish(Option<Failure>),
}

/// How receiving begins.
pub open spec fn receive_begun(start: u32, count: u32) -> RangeView<ReceiveAction> {
    RangeView {
        start,
        count,
        done: 0,
        next: ReceiveAction::Begin(SpiexTaskRequest::WriteLbaRange { start, count }),
    }
}

/// What follows when `done` blocks are behind.
pub open spec fn receive_block(v: RangeView<ReceiveAction>, done: int) -> RangeView<ReceiveAction> {
    RangeView {
        done,
        next: if done < v.count {
            ReceiveAction::TakeCancel
        } else {
            ReceiveAction::Finish(None)
        },
        ..v
    }
}

/// How receiving goes on after its action.
pub open spec fn receive_next(v: RangeView<ReceiveAction>, flag: bool) -> RangeView<ReceiveAction> {
    match v.next {
        ReceiveAction::Begin(_) => receive_block(v, v.done),
        ReceiveAction::TakeCancel => RangeView {
            next: if flag {
                ReceiveAction::Finish(None)
            } else {
                ReceiveAction::AwaitFrame
            },
            ..v
        },
        ReceiveAction::AwaitFrame => RangeView {
            next: if flag {
                ReceiveAction::StoreFrame
            } else {
                ReceiveAction::Finish(Some(Failure::UnexpectedEof))
            },
            ..v
        },
        ReceiveAction::StoreFrame => receive_block(v, v.done + 1),
        ReceiveAction::Finish(_) => v,
    }
}

/// Receives the blocks of a range from the host.
pub struct ReceiveRange {
    start: u32,
    count: u32,
    done: u32,
    next: ReceiveAction,
}

impl View for ReceiveRange {
    type V = RangeView<ReceiveAction>;

    closed spec fn view(&self) -> RangeView<ReceiveAction> {
        RangeView { start: self.start, count: self.count, done: self.done as int, next: self.next }
    }
}

impl ReceiveRange {
    /// No more blocks are behind than there are, and one less while one is in
    /// work.
    #[verifier::type_invariant]
    pub closed spec fn wf(self) -> bool {
        &&& self.done <= self.count
        &&& (self.next is TakeCancel || self.next is AwaitFrame || self.next is StoreFrame)
            ==> self.done < self.count
    }

    /// Begins to receive `count` blocks that are to be written from `start` on.
    pub fn new(start: u32, count: u32) -> (r: Self)
        ensures
            r@ == receive_begun(start, count),
    {
        ReceiveRange {
            start,
            count,
            done: 0,
            next: ReceiveAction::Begin(SpiexTaskRequest::WriteLbaRange { start, count }),
        }
    }

    /// What is to be done next.
    pub fn action(&self) -> (r: ReceiveAction)
        ensures
            r == self@.next,
    {
        self.next
    }

    /// Notes that the action was performed, and how it went where it reports.
    pub fn advance(&mut self, flag: bool)
        ensures
            final(self)@ == receive_next(old(self)@, flag),
    {
        proof {
            use_type_invariant(&*self);
        }
        let (done, next) = match self.next {
            ReceiveAction::Begin(_) => Self::block(self.done, self.count),
            ReceiveAction::TakeCancel => if flag {
                (self.done, ReceiveAction::Finish(None))
            } else {
                (self.done, ReceiveAction::AwaitFrame)
            },
            ReceiveAction::AwaitFrame => if flag {
                (self.done, ReceiveAction::StoreFrame)
            } else {
                (self.done, ReceiveAction::Finish(Some(Failure::UnexpectedEof)))
            },
            ReceiveAction::StoreFrame => Self::block(self.done + 1, self.count),
            ReceiveAction::Finish(failure) => (self.done, ReceiveAction::Finish(failure)),
        };
        *self = ReceiveRange { start: self.start, count: self.count, done, next };
    }

    /// What follows when `done` blocks are behind.
    fn block(done: u32, count: u32) -> (r: (u32, ReceiveAction))
        ensures
            r.0 == done,
            r.1 == (if done < count {
                ReceiveAction::TakeCancel
            } else {
                ReceiveAction::Finish(None)
            }),
    {
        if done < count {
            (done, ReceiveAction::TakeCancel)
        } else {
            (done, ReceiveAction::Finish(None))
        }
    }
}

/// An action of reading a range from the NAND.
#[derive(Debug, Clone, Copy, PartialEq, Eq, Structural)]
pub enum ReadAction {
    /// Withdraw any cancellation of reading.
    Begin,
    /// Withdraw the cancellation of reading; report whether there was one.
    TakeCancel,
    /// Read this block into a free buffer, with [`NAND_TIMEOUT_MILLIS`] for each
    /// wait; report whether it was in time.
    ReadBlock { lba: u32 },
    /// Hand the block to the USB task.
    SendBlock,
    /// Tell the host of the failure, if there is one, and go on in the mode that
    /// [`crate::tasks::mode_after_range`] gives.
    Finish(Option<Failure>),
}

/// How reading begins.
pub open spec fn read_begun(start: u32, count: u32) -> RangeView<ReadAction> {
    RangeView { start, count, done: 0, next: ReadAction::Begin }
}

/// What follows when `done` blocks are behind.
pub open spec fn read_block(v: RangeView<ReadAction>, done: int) -> RangeView<ReadAction> {
    RangeView {
        done,
        next: if done < v.count {
            ReadAction::TakeCancel
        } else {
            ReadAction::Finish(None)
        },
        ..v
    }
}

/// How reading goes on after its action.
pub open spec fn read_next(v: RangeView<ReadAction>, flag: bool) -> RangeView<ReadAction> {
    match v.next {
        ReadAction::Begin => read_block(v, v.done),
        ReadAction::TakeCancel => RangeView {
            next: if flag {
                ReadAction::Finish(None)
            } else {
                ReadAction::ReadBlock { lba: lba_at(v.start, v.done) }
            },
            ..v
        },
        ReadAction::ReadBlock { .. } => RangeView {
            next: if flag {
                ReadAction::SendBlock
            } else {
                ReadAction::Finish(Some(Failure::ReadTimeout))
            },
            ..v
        },
        ReadAction::SendBlock => read_block(v, v.done + 1),
        ReadAction::Finish(_) => v,
    }
}

/// Reads a range from the NAND.
pub struct ReadRange {
    start: u32,
    count: u32,
    done: u32,
    next: ReadAction,
}

impl View for ReadRange {
    type V = RangeView<ReadAction>;

    closed spec fn view(&self) -> RangeView<ReadAction> {
        RangeView { start: self.start, count: self.count, done: self.done as int, next: self.next }
    }
}

impl ReadRange {
    /// No more blocks are behind than there are, and one less while one is in
    /// work.
    #[verifier::type_invariant]
    pub closed spec fn wf(self) -> bool {
        &&& self.done <= self.count
        &&& (self.next is TakeCancel || self.next is ReadBlock || self.next is SendBlock)
            ==> self.done < self.count
    }

    /// Begins to read `count` blocks from `start` on.
    pub fn new(start: u32, count: u32) -> (r: Self)
        ensures
            r@ == read_begun(start, count),
    {
        ReadRange { start, count, done: 0, next: ReadAction::Begin }
    }

    /// What is to be done next.
    pub fn action(&self) -> (r: ReadAction)
        ensures
            r == self@.next,
    {
        self.next
    }

    /// Notes that the action was performed, and how it went where it reports.
    pub fn advance(&mut self, flag: bool)
        ensures
            final(self)@ == read_next(old(self)@, flag),
    {
        proof {
            use_type_invariant(&*self);
        }
        let (done, next) = match self.next {
            ReadAction::Begin => Self::block(self.done, self.count),
            ReadAction::TakeCancel => if flag {
                (self.done, ReadAction::Finish(None))
            } else {
                (self.done, ReadAction::ReadBlock { lba: block_number(self.start, self.done) })
            },
            ReadAction::ReadBlock { .. } => if flag {
                (self.done, ReadAction::SendBlock)
            } else {
                (self.done, ReadAction::Finish(Some(Failure::ReadTimeout)))
            },
            ReadAction::SendBlock => Self::block(self.done + 1, self.count),
            ReadAction::Finish(failure) => (self.done, ReadAction::Finish(failure)),
        };
        *self = ReadRange { start: self.start, count: self.count, done, next };
    }

    /// What follows when `done` blocks are behind.
    fn block(done: u32, count: u32) -> (r: (u32, ReadAction))
        ensures
            r.0 == done,
            r.1 == (if done < count {
                ReadAction::TakeCancel
            } else {
                ReadAction::Finish(None)
            }),
    {
        if done < count {
            (done, ReadAction::TakeCancel)
        } else {
            (done, ReadAction::Finish(None))
        }
    }
}

/// An action of writing a range to the NAND.
#[derive(Debug, Clone, Copy, PartialEq, Eq, Structural)]
pub enum WriteAction {
    /// Withdraw any cancellation of receiving.
    Begin,
    /// Erase the erase block that begins here, with [`NAND_TIMEOUT_MILLIS`] for
    /// each wait; report whether it was in time.
    Erase { lba: u32 },
    /// Cancel receiving and tell the host of this failure.
    Report(Failure),
    /// Take a block from the USB task and prepare it for writing.
    TakeBlock,
    /// Write it here, with [`NAND_TIMEOUT_MILLIS`] for each wait; report whether it
    /// was in time.
    WriteBlock { lba: u32 },
    /// Tell the host of the failure, if there is one, and go on in the mode that
    /// [`crate::tasks::mode_after_range`] gives.
    Finish(Option<Failure>),
}

/// How writing begins.
pub open spec fn write_begun(start: u32, count: u32) -> RangeView<WriteAction> {
    RangeView { start, count, done: 0, next: WriteAction::Begin }
}

/// What follows when `done` blocks are behind: an erase block is erased when its
/// first block is reached.
pub open spec fn write_block(v: RangeView<WriteAction>, flash_config: u32, done: int) -> RangeView<
    WriteAction,
> {
    let lba = lba_at(v.start, done);
    RangeView {
        done,
        next: if done >= v.count {
            WriteAction::Finish(None)
        } else if lba % blocks_per_erase(flash_config) == 0 {
            WriteAction::Erase { lba }
        } else {
            WriteAction::TakeBlock
        },
        ..v
    }
}

/// How writing goes on after its action. A block whose erase block could not be
/// erased is passed over.
pub open spec fn write_next(
    v: RangeView<WriteAction>,
    flash_config: u32,
    flag: bool,
) -> RangeView<WriteAction> {
    match v.next {
        WriteAction::Begin => write_block(v, flash_config, v.done),
        WriteAction::Erase { .. } => RangeView {
            next: if flag {
                WriteAction::TakeBlock
            } else {
                WriteAction::Report(Failure::EraseTimeout)
            },
            ..v
        },
        WriteAction::Report(_) => write_block(v, flash_config, v.done + 1),
        WriteAction::TakeBlock => RangeView {
            next: WriteAction::WriteBlock { lba: lba_at(v.start, v.done) },
            ..v
        },
        WriteAction::WriteBlock { .. } => if flag {
            write_block(v, flash_config, v.done + 1)
        } else {
            RangeView { next: WriteAction::Finish(Some(Failure::WriteTimeout)), ..v }
        },
        WriteAction::Finish(_) => v,
    }
}

/// Writes a range to the NAND.
pub struct WriteRange {
    flash_config: u32,
    start: u32,
    count: u32,
    done: u32,
    next: WriteAction,
}

impl View for WriteRange {
    type V = RangeView<WriteAction>;

    closed spec fn view(&self) -> RangeView<WriteAction> {
        RangeView { start: self.start, count: self.count, done: self.done as int, next: self.next }
    }
}

impl WriteRange {
    /// No more blocks are behind than there are, and one less while one is in
    /// work.
    #[verifier::type_invariant]
    pub closed spec fn wf(self) -> bool {
        &&& self.done <= self.count
        &&& !(self.next is Begin || self.next is Finish) ==> self.done < self.count
    }

    /// The configuration of the flash.
    pub closed spec fn config(self) -> u32 {
        self.flash_config
    }

    /// Begins to write `count` blocks from `start` on.
    pub fn new(flash_config: u32, start: u32, count: u32) -> (r: Self)
        ensures
            r@ == write_begun(start, count),
            r.config() == flash_config,
    {
        WriteRange { flash_config, start, count, done: 0, next: WriteAction::Begin }
    }

    /// What is to be done next.
    pub fn action(&self) -> (r: WriteAction)
        ensures
            r == self@.next,
    {
        self.next
    }

    /// Notes that the action was performed, and how it went where it reports.
    pub fn advance(&mut self, flag: bool)
        ensures
            final(self)@ == write_next(old(self)@, old(self).config(), flag),
            final(self).config() == old(self).config(),
    {
        proof {
            use_type_invariant(&*self);
        }
        let (done, next) = match self.next {
            WriteAction::Begin => self.block(self.done),
            WriteAction::Erase { .. } => if flag {
                (self.done, WriteAction::TakeBlock)
            } else {
                (self.done, WriteAction::Report(Failure::EraseTimeout))
            },
            WriteAction::Report(_) => self.block(self.done + 1),
            WriteAction::TakeBlock => (
                self.done,
                WriteAction::WriteBlock { lba: block_number(self.start, self.done) },
            ),
            WriteAction::WriteBlock { .. } => if flag {
                self.block(self.done + 1)
            } else {
                (self.done, WriteAction::Finish(Some(Failure::WriteTimeout)))
            },
            WriteAction::Finish(failure) => (self.done, WriteAction::Finish(failure)),
        };
        *self =
        WriteRange {
            flash_config: self.flash_config,
            start: self.start,
            count: self.count,
            done,
            next,
        };
    }

    /// What follows when `done` blocks are behind.
    fn block(&self, done: u32) -> (r: (u32, WriteAction))
        ensures
            r.0 == done,
            r.1 == write_block(self@, self.config(), done as int).next,
    {
        if done >= self.count {
            return (done, WriteAction::Finish(None));
        }
        let lba: u32 = block_number(self.start, done);
        let sectors: u32 = sectors_in_block(self.flash_config);
        if lba % sectors == 0 {
            (done, WriteAction::Erase { lba })
        } else {
            (done, WriteAction::TakeBlock)
        }
    }
}

/// A step of receiving that is not cancelled and gets its frame.
pub open spec fn receive_smoothly(v: RangeView<ReceiveAction>) -> RangeView<ReceiveAction> {
    receive_next(v, v.next is AwaitFrame)
}

/// Receiving after so many smooth steps, and how many frames were stored in them.
pub open spec fn received_after(v: RangeView<ReceiveAction>, steps: nat) -> (
    RangeView<ReceiveAction>,
    nat,
)
    decreases steps,
{
    if steps == 0 {
        (v, 0)
    } else {
        let rest = received_after(receive_smoothly(v), (steps - 1) as nat);
        (rest.0, rest.1 + if v.next is StoreFrame { 1nat } else { 0nat })
    }
}

proof fn lemma_receive_rest(v: RangeView<ReceiveAction>)
    requires
        0 <= v.done <= v.count,
        v == receive_block(v, v.done),
    ensures
        received_after(v, (3 * (v.count - v.done)) as nat) == (
            receive_block(v, v.count as int),
            (v.count - v.done) as nat,
        ),
    decreases v.count - v.done,
{
    if v.done < v.count {
        let next = receive_block(v, v.done + 1);
        lemma_receive_rest(next);
        reveal_with_fuel(received_after, 4);
    }
}

/// A range that the host sends without a gap and does not cancel is received
/// whole, and the host is told nothing more.
pub proof fn law_whole_range_is_received(start: u32, count: u32)
    ensures
        ({
            let end = received_after(receive_begun(start, count), (3 * count + 1) as nat);
            &&& end.0.next == ReceiveAction::Finish(None)
            &&& end.1 == count
        }),
{
    let begun = receive_begun(start, count);
    let v = receive_block(begun, 0);
    lemma_receive_rest(v);
    assert(receive_smoothly(begun) == v);
}

/// A step of reading that is not cancelled and is in time.
pub open spec fn read_smoothly(v: RangeView<ReadAction>) -> RangeView<ReadAction> {
    read_next(v, v.next is ReadBlock)
}

/// Reading after so many smooth steps, and the blocks that were sent in them.
pub open spec fn read_after(v: RangeView<ReadAction>, steps: nat) -> (
    RangeView<ReadAction>,
    Seq<u32>,
)
    decreases steps,
{
    if steps == 0 {
        (v, Seq::empty())
    } else {
        let rest = read_after(read_smoothly(v), (steps - 1) as nat);
        (
            rest.0,
            match v.next {
                ReadAction::ReadBlock { lba } => seq![lba] + rest.1,
                _ => rest.1,
            },
        )
    }
}

proof fn lemma_read_rest(v: RangeView<ReadAction>)
    requires
        0 <= v.done <= v.count,
        v == read_block(v, v.done),
    ensures
        read_after(v, (3 * (v.count - v.done)) as nat) == (
            read_block(v, v.count as int),
            Seq::new((v.count - v.done) as nat, |i: int| lba_at(v.start, v.done + i)),
        ),
    decreases v.count - v.done,
{
    let expected = Seq::new((v.count - v.done) as nat, |i: int| lba_at(v.start, v.done + i));
    if v.done < v.count {
        let next = read_block(v, v.done + 1);
        lemma_read_rest(next);
        reveal_with_fuel(read_after, 4);
        assert(seq![lba_at(v.start, v.done)] + Seq::new(
            (v.count - v.done - 1) as nat,
            |i: int| lba_at(v.start, v.done + 1 + i),
        ) =~= expected);
    } else {
        assert(expected =~= Seq::<u32>::empty());
    }
}

/// A range that is not cancelled and whose blocks can be read in time is read
/// whole: each block once, in order, and the host is told nothing more.
pub proof fn law_whole_range_is_read(start: u32, count: u32)
    ensures
        ({
            let end = read_after(read_begun(start, count), (3 * count + 1) as nat);
            &&& end.0.next == ReadAction::Finish(None)
            &&& end.1 == Seq::new(count as nat, |i: int| lba_at(start, i))
        }),
{
    let begun = read_begun(start, count);
    let v = read_block(begun, 0);
    lemma_read_rest(v);
    assert(read_smoothly(begun) == v);
    assert(Seq::new(count as nat, |i: int| lba_at(start, 0 + i)) =~= Seq::new(
        count as nat,
        |i: int| lba_at(start, i),
    ));
}

/// What is done to the NAND to write the blocks of a range from number `i` on:
/// each is written, and an erase block is erased right before its first block.
pub open spec fn nand_writes(start: u32, count: u32, flash_config: u32, i: int) -> Seq<WriteAction>
    decreases count - i,
{
    if i >= count {
        Seq::empty()
    } else {
        let lba = lba_at(start, i);
        let erase = if lba % blocks_per_erase(flash_config) == 0 {
            seq![WriteAction::Erase { lba }]
        } else {
            Seq::empty()
        };
        erase + seq![WriteAction::WriteBlock { lba }] + nand_writes(
            start,
            count,
            flash_config,
            i + 1,
        )
    }
}

/// Writing after so many steps that are in time, and what was done to the NAND
/// in them.
pub open spec fn written_after(v: RangeView<WriteAction>, flash_config: u32, steps: nat) -> (
    RangeView<WriteAction>,
    Seq<WriteAction>,
)
    decreases steps,
{
    if steps == 0 {
        (v, Seq::empty())
    } else {
        let rest = written_after(
            write_next(v, flash_config, true),
            flash_config,
            (steps - 1) as nat,
        );
        (
            rest.0,
            if v.next is Erase || v.next is WriteBlock {
                seq![v.next] + rest.1
            } else {
                rest.1
            },
        )
    }
}

/// A transfer that is over stays so and does nothing.
proof fn lemma_write_over(v: RangeView<WriteAction>, flash_config: u32, steps: nat)
    requires
        v.next is Finish,
    ensures
        written_after(v, flash_config, steps) == (v, Seq::<WriteAction>::empty()),
    decreases steps,
{
    if steps > 0 {
        lemma_write_over(v, flash_config, (steps - 1) as nat);
    }
}

proof fn lemma_write_rest(v: RangeView<WriteAction>, flash_config: u32, steps: nat)
    requires
        0 <= v.done <= v.count,
        v == write_block(v, flash_config, v.done),
        3 * (v.count - v.done) <= steps,
    ensures
        written_after(v, flash_config, steps) == (
            write_block(v, flash_config, v.count as int),
            nand_writes(v.start, v.count, flash_config, v.done),
        ),
    decreases v.count - v.done,
{
    if v.done < v.count {
        let next = write_block(v, flash_config, v.done + 1);
        let lba = lba_at(v.start, v.done);
        reveal_with_fuel(written_after, 4);
        if lba % blocks_per_erase(flash_config) == 0 {
            lemma_write_rest(next, flash_config, (steps - 3) as nat);
        } else {
            lemma_write_rest(next, flash_config, (steps - 2) as nat);
        }
        assert(written_after(v, flash_config, steps).1 =~= nand_writes(
            v.start,
            v.count,
            flash_config,
            v.done,
        ));
    } else {
        lemma_write_over(v, flash_config, steps);
    }
}

/// A range whose erasing and writing is in time is written whole: each block
/// once and in order, each erase block erased right before its first block, and
/// the host is told nothing more.
pub proof fn law_whole_range_is_written(start: u32, count: u32, flash_config: u32)
    ensures
        ({
            let end = written_after(
                write_begun(start, count),
                flash_config,
                (3 * count + 1) as nat,
            );
            &&& end.0.next == WriteAction::Finish(None)
            &&& end.1 == nand_writes(start, count, flash_config, 0)
        }),
{
    let begun = write_begun(start, count);
    let v = write_block(begun, flash_config, 0);
    lemma_write_rest(v, flash_config, (3 * count) as nat);
    assert(write_next(begun, flash_config, true) == v);
}

/// Receiving after its actions went as `flags` say.
pub open spec fn receiving_after(v: RangeView<ReceiveAction>, flags: Seq<bool>) -> RangeView<
    ReceiveAction,
>
    decreases flags.len(),
{
    if flags.len() == 0 {
        v
    } else {
        receiving_after(receive_next(v, flags[0]), flags.skip(1))
    }
}

/// How many actions may be left of receiving.
spec fn receive_left(v: RangeView<ReceiveAction>) -> int {
    match v.next {
        ReceiveAction::Begin(_) => 3 * (v.count - v.done) + 1,
        ReceiveAction::TakeCancel => 3 * (v.count - v.done),
        ReceiveAction::AwaitFrame => 3 * (v.count - v.done) - 1,
        ReceiveAction::StoreFrame => 3 * (v.count - v.done) - 2,
        ReceiveAction::Finish(_) => 0,
    }
}

proof fn lemma_receiving(v: RangeView<ReceiveAction>, flags: Seq<bool>)
    requires
        0 <= v.done <= v.count,
        v.next is Begin || v.next is Finish || v.done < v.count,
    ensures
        ({
            let end = receiving_after(v, flags);
            &&& receive_left(v) <= flags.len() ==> end.next is Finish
            &&& end.start == v.start && end.count == v.count
            &&& v.done <= end.done <= v.count
        }),
    decreases flags.len(),
{
    if flags.len() > 0 {
        lemma_receiving(receive_next(v, flags[0]), flags.skip(1));
    }
}

/// However it goes, receiving is over after three actions for each block and one
/// to begin, and never takes in more blocks than there are.
pub proof fn law_receiving_ends(start: u32, count: u32, flags: Seq<bool>)
    ensures
        ({
            let end = receiving_after(receive_begun(start, count), flags);
            &&& 3 * count + 1 <= flags.len() ==> end.next is Finish
            &&& 0 <= end.done <= count
        }),
{
    lemma_receiving(receive_begun(start, count), flags);
}

/// Reading after its actions went as `flags` say.
pub open spec fn reading_after(v: RangeView<ReadAction>, flags: Seq<bool>) -> RangeView<ReadAction>
    decreases flags.len(),
{
    if flags.len() == 0 {
        v
    } else {
        reading_after(read_next(v, flags[0]), flags.skip(1))
    }
}

/// How many actions may be left of reading.
spec fn read_left(v: RangeView<ReadAction>) -> int {
    match v.next {
        ReadAction::Begin => 3 * (v.count - v.done) + 1,
        ReadAction::TakeCancel => 3 * (v.count - v.done),
        ReadAction::ReadBlock { .. } => 3 * (v.count - v.done) - 1,
        ReadAction::SendBlock => 3 * (v.count - v.done) - 2,
        ReadAction::Finish(_) => 0,
    }
}

/// Whether reading reads no block but the one that is due.
pub open spec fn reads_what_is_due(v: RangeView<ReadAction>) -> bool {
    &&& 0 <= v.done <= v.count
    &&& v.next is Begin || v.next is Finish || v.done < v.count
    &&& v.next matches ReadAction::ReadBlock { lba } ==> lba == lba_at(v.start, v.done)
}

proof fn lemma_reading(v: RangeView<ReadAction>, flags: Seq<bool>)
    requires
        reads_what_is_due(v),
    ensures
        ({
            let end = reading_after(v, flags);
            &&& read_left(v) <= flags.len() ==> end.next is Finish
            &&& end.start == v.start && end.count == v.count
            &&& reads_what_is_due(end)
        }),
    decreases flags.len(),
{
    if flags.len() > 0 {
        lemma_reading(read_next(v, flags[0]), flags.skip(1));
    }
}

/// However it goes, reading is over after three actions for each block and one
/// to begin, and every block that it reads belongs to the range.
pub proof fn law_reading_stays_in_range(start: u32, count: u32, flags: Seq<bool>)
    ensures
        ({
            let end = reading_after(read_begun(start, count), flags);
            &&& 3 * count + 1 <= flags.len() ==> end.next is Finish
            &&& end.start == start && end.count == count
            &&& reads_what_is_due(end)
        }),
{
    lemma_reading(read_begun(start, count), flags);
}

/// Writing after its actions went as `flags` say.
pub open spec fn writing_after(
    v: RangeView<WriteAction>,
    flash_config: u32,
    flags: Seq<bool>,
) -> RangeView<WriteAction>
    decreases flags.len(),
{
    if flags.len() == 0 {
        v
    } else {
        writing_after(write_next(v, flash_config, flags[0]), flash_config, flags.skip(1))
    }
}

/// How many actions may be left of writing.
spec fn write_left(v: RangeView<WriteAction>) -> int {
    match v.next {
        WriteAction::Begin => 3 * (v.count - v.done) + 1,
        WriteAction::Erase { .. } => 3 * (v.count - v.done),
        WriteAction::Report(_) => 3 * (v.count - v.done) - 1,
        WriteAction::TakeBlock => 3 * (v.count - v.done) - 1,
        WriteAction::WriteBlock { .. } => 3 * (v.count - v.done) - 2,
        WriteAction::Finish(_) => 0,
    }
}

/// Whether writing writes no block but the one that is due, and erases only when
/// that block begins an erase block.
pub open spec fn writes_what_is_due(v: RangeView<WriteAction>, flash_config: u32) -> bool {
    &&& 0 <= v.done <= v.count
    &&& v.next is Begin || v.next is Finish || v.done < v.count
    &&& v.next matches WriteAction::WriteBlock { lba } ==> lba == lba_at(v.start, v.done)
    &&& v.next matches WriteAction::Erase { lba } ==> lba == lba_at(v.start, v.done) && lba
        % blocks_per_erase(flash_config) == 0
}

proof fn lemma_writing(v: RangeView<WriteAction>, flash_config: u32, flags: Seq<bool>)
    requires
        writes_what_is_due(v, flash_config),
    ensures
        ({
            let end = writing_after(v, flash_config, flags);
            &&& write_left(v) <= flags.len() ==> end.next is Finish
            &&& end.start == v.start && end.count == v.count
            &&& writes_what_is_due(end, flash_config)
        }),
    decreases flags.len(),
{
    if flags.len() > 0 {
        lemma_writing(write_next(v, flash_config, flags[0]), flash_config, flags.skip(1));
    }
}

/// However it goes, writing is over after three actions for each block and one to
/// begin, every block that it writes belongs to the range, and it erases nothing
/// but erase blocks that begin with a block of the range.
pub proof fn law_writing_stays_in_range(
    start: u32,
    count: u32,
    flash_config: u32,
    flags: Seq<bool>,
)
    ensures
        ({
            let end = writing_after(write_begun(start, count), flash_config, flags);
            &&& 3 * count + 1 <= flags.len() ==> end.next is Finish
            &&& end.start == start && end.count == count
            &&& writes_what_is_due(end, flash_config)
        }),
{
    lemma_writing(write_begun(start, count), flash_config, flags);
}

/// A cancellation ends receiving and reading before another block is taken in,
/// and without telling the host.
pub proof fn law_cancellation_ends_a_range(
    receiving: RangeView<ReceiveAction>,
    reading: RangeView<ReadAction>,
)
    requires
        receiving.next == ReceiveAction::TakeCancel,
        reading.next == ReadAction::TakeCancel,
    ensures
        receive_next(receiving, true).next == ReceiveAction::Finish(None),
        receive_next(receiving, true).done == receiving.done,
        read_next(reading, true).next == ReadAction::Finish(None),
        read_next(reading, true).done == reading.done,
{
}

/// A failed erase is reported and its block passed over, without taking a block
/// from the host for it.
pub proof fn law_failed_erase_skips_the_block(
    v: RangeView<WriteAction>,
    flash_config: u32,
    any_flag: bool,
)
    requires
        v.next is Erase,
    ensures
        ({
            let reported = write_next(v, flash_config, false);
            &&& reported.next == WriteAction::Report(Failure::EraseTimeout)
            &&& write_next(reported, flash_config, any_flag) == write_block(
                v,
                flash_config,
                v.done + 1,
            )
        }),
{
}

/// A range within 32 bits that is not cancelled and whose reads are in time: the
/// blocks that are read are `start`, `start + 1` and so on, `count` of them. So
/// each is one more than the one before, and none is read twice.
pub proof fn law_read_blocks_in_numbers(start: u32, count: u32)
    requires
        start + count <= 0x1_0000_0000,
    ensures
        ({
            let end = read_after(read_begun(start, count), (3 * count + 1) as nat);
            let blocks = end.1;
            &&& end.0.next == ReadAction::Finish(None)
            &&& end.0.done == count
            &&& blocks.len() == count
            &&& forall|k: int| 0 <= k < count ==> #[trigger] blocks[k] == start + k
            &&& blocks.no_duplicates()
        }),
{
    law_whole_range_is_read(start, count);
    let begun = read_begun(start, count);
    lemma_read_rest(read_block(begun, 0));
    let blocks = read_after(begun, (3 * count + 1) as nat).1;
    assert forall|k: int| 0 <= k < count implies #[trigger] blocks[k] == start + k by {
        law_blocks_are_consecutive(start, k, k);
    }
}

/// The blocks that actions on the NAND write, in order.
pub open spec fn written_blocks(actions: Seq<WriteAction>) -> Seq<u32>
    decreases actions.len(),
{
    if actions.len() == 0 {
        Seq::empty()
    } else {
        match actions[0] {
            WriteAction::WriteBlock { lba } => seq![lba] + written_blocks(actions.skip(1)),
            _ => written_blocks(actions.skip(1)),
        }
    }
}

/// Whether action `j` is an erase right before the write of a block whose number
/// is a multiple of `n`, or a write that has its erase right before it if the
/// number of its block is one.
pub open spec fn erased_in_place(actions: Seq<WriteAction>, j: int, n: int) -> bool {
    match actions[j] {
        WriteAction::Erase { lba } => lba as int % n == 0 && j + 1 < actions.len() && actions[j + 1]
            == (WriteAction::WriteBlock { lba }),
        WriteAction::WriteBlock { lba } => lba as int % n == 0 ==> j > 0 && actions[j - 1] == (
        WriteAction::Erase { lba }),
        _ => false,
    }
}

/// Whether every erase comes right before the write of a block whose number is a
/// multiple of `n`, and every such write right behind its erase; nothing else is
/// done.
pub open spec fn erases_at_multiples(actions: Seq<WriteAction>, n: int) -> bool {
    forall|j: int| 0 <= j < actions.len() ==> #[trigger] erased_in_place(actions, j, n)
}

proof fn lemma_block_in_front(lba: u32, rest: Seq<WriteAction>, n: int)
    requires
        0 < n,
        erases_at_multiples(rest, n),
    ensures
        ({
            let write = seq![WriteAction::WriteBlock { lba }];
            let erase = seq![WriteAction::Erase { lba }];
            &&& lba as int % n != 0 ==> erases_at_multiples(write + rest, n)
            &&& lba as int % n == 0 ==> erases_at_multiples(erase + write + rest, n)
        }),
{
    let write = seq![WriteAction::WriteBlock { lba }];
    let erase = seq![WriteAction::Erase { lba }];
    if lba as int % n == 0 {
        let all = erase + write + rest;
        assert forall|j: int| 0 <= j < all.len() implies #[trigger] erased_in_place(all, j, n) by {
            if j >= 2 {
                assert(erased_in_place(rest, j - 2, n));
            }
        }
    } else {
        let all = write + rest;
        assert forall|j: int| 0 <= j < all.len() implies #[trigger] erased_in_place(all, j, n) by {
            if j >= 1 {
                assert(erased_in_place(rest, j - 1, n));
            }
        }
    }
}

proof fn lemma_nand_writes(start: u32, count: u32, flash_config: u32, i: int)
    requires
        0 <= i <= count,
    ensures
        ({
            let actions = nand_writes(start, count, flash_config, i);
            &&& written_blocks(actions) == Seq::new((count - i) as nat, |k: int| lba_at(start, i + k))
            &&& erases_at_multiples(actions, blocks_per_erase(flash_config) as int)
        }),
    decreases count - i,
{
    let actions = nand_writes(start, count, flash_config, i);
    let n = blocks_per_erase(flash_config);
    let expected = Seq::new((count - i) as nat, |k: int| lba_at(start, i + k));
    if i < count {
        lemma_nand_writes(start, count, flash_config, i + 1);
        let rest = nand_writes(start, count, flash_config, i + 1);
        let lba = lba_at(start, i);
        let write = seq![WriteAction::WriteBlock { lba }];
        let erase = seq![WriteAction::Erase { lba }];
        lemma_block_in_front(lba, rest, n as int);
        assert((write + rest).skip(1) =~= rest);
        assert(written_blocks(write + rest) =~= expected);
        if lba % n == 0 {
            assert(actions =~= erase + write + rest);
            assert(actions.skip(1) =~= write + rest);
        } else {
            assert(actions =~= write + rest);
        }
    } else {
        assert(expected =~= Seq::<u32>::empty());
    }
}

/// A range within 32 bits whose erasing and writing is in time: the blocks that
/// are written are `start`, `start + 1` and so on, `count` of them, and an erase
/// comes exactly before the blocks whose number is a multiple of 256, 512 or 32,
/// by the bits of the configuration.
pub proof fn law_written_blocks_in_numbers(start: u32, count: u32, flash_config: u32)
    requires
        start + count <= 0x1_0000_0000,
    ensures
        ({
            let end = written_after(
                write_begun(start, count),
                flash_config,
                (3 * count + 1) as nat,
            );
            let blocks = written_blocks(end.1);
            let major = (flash_config >> 17) & 3;
            let minor = (flash_config >> 4) & 3;
            &&& end.0.next == WriteAction::Finish(None)
            &&& blocks.len() == count
            &&& forall|k: int| 0 <= k < count ==> #[trigger] blocks[k] == start + k
            &&& major != 0 && minor == 2 ==> erases_at_multiples(end.1, 256)
            &&& major != 0 && minor == 3 ==> erases_at_multiples(end.1, 512)
            &&& major == 0 || minor < 2 ==> erases_at_multiples(end.1, 32)
        }),
{
    law_whole_range_is_written(start, count, flash_config);
    lemma_nand_writes(start, count, flash_config, 0);
    law_erase_blocks_in_numbers(flash_config);
    assert((flash_config >> 17) & 3 < 4 && (flash_config >> 4) & 3 < 4) by (bit_vector);
    let blocks = written_blocks(nand_writes(start, count, flash_config, 0));
    assert forall|k: int| 0 <= k < count implies #[trigger] blocks[k] == start + k by {
        law_blocks_are_consecutive(start, k, k);
    }
}

/// However a range goes: a block that was read in time is sent before anything
/// else, a frame that came is stored, and a block is written only after it was
/// taken; each of these brings the range one block on, and none is skipped but
/// after a failed erase.
pub proof fn law_blocks_go_one_by_one(
    receiving: RangeView<ReceiveAction>,
    reading: RangeView<ReadAction>,
    writing: RangeView<WriteAction>,
    flash_config: u32,
    flag: bool,
)
    ensures
        ({
            let next = receive_next(receiving, flag);
            &&& receiving.next is AwaitFrame && flag ==> next.next is StoreFrame
            &&& next.done == receiving.done + (if receiving.next is StoreFrame {
                1int
            } else {
                0int
            })
        }),
        ({
            let next = read_next(reading, flag);
            &&& reading.next is ReadBlock && flag ==> next.next is SendBlock
            &&& next.done == reading.done + (if reading.next is SendBlock {
                1int
            } else {
                0int
            })
        }),
        ({
            let next = write_next(writing, flash_config, flag);
            &&& next.next is WriteBlock ==> writing.next is TakeBlock
            &&& next.done == writing.done + (if writing.next is Report || (writing.next
                is WriteBlock && flag) {
                1int
            } else {
                0int
            })
        }),
{
}

/// What a range is ended with when something is not in time or does not come: the
/// host is told which of the three it was, and no further block is touched.
pub proof fn law_failures_are_told(
    receiving: RangeView<ReceiveAction>,
    reading: RangeView<ReadAction>,
    writing: RangeView<WriteAction>,
    flash_config: u32,
    flag: bool,
)
    requires
        receiving.next is AwaitFrame,
        reading.next is ReadBlock,
        writing.next is WriteBlock,
    ensures
        receive_next(receiving, false).next == ReceiveAction::Finish(Some(Failure::UnexpectedEof)),
        read_next(reading, false).next == ReadAction::Finish(Some(Failure::ReadTimeout)),
        write_next(writing, flash_config, false).next == WriteAction::Finish(
            Some(Failure::WriteTimeout),
        ),
        ({
            let over = receive_next(receiving, false);
            receive_next(over, flag) == over
        }),
        ({
            let over = read_next(reading, false);
            read_next(over, flag) == over
        }),
        ({
            let over = write_next(writing, flash_config, false);
            write_next(over, flash_config, flag) == over
        }),
{
}

/// Receiving a range begins by asking the NAND task to write exactly that range.
pub proof fn law_received_range_is_written(start: u32, count: u32)
    ensures
        receive_begun(start, count).next == ReceiveAction::Begin(
            SpiexTaskRequest::WriteLbaRange { start, count },
        ),
{
}

/// However a range within 32 bits goes, the blocks that are read, written or at
/// which is erased have numbers from `start` up to, but not including,
/// `start + count`.
pub proof fn law_touched_blocks_belong_to_the_range(
    start: u32,
    count: u32,
    flash_config: u32,
    flags: Seq<bool>,
)
    requires
        start + count <= 0x1_0000_0000,
    ensures
        reading_after(read_begun(start, count), flags).next matches ReadAction::ReadBlock { lba }
            ==> start <= lba < start + count,
        writing_after(write_begun(start, count), flash_config, flags).next
            matches WriteAction::WriteBlock { lba } ==> start <= lba < start + count,
        writing_after(write_begun(start, count), flash_config, flags).next
            matches WriteAction::Erase { lba } ==> start <= lba < start + count,
{
    law_reading_stays_in_range(start, count, flags);
    law_writing_stays_in_range(start, count, flash_config, flags);
    let read = reading_after(read_begun(start, count), flags);
    let written = writing_after(write_begun(start, count), flash_config, flags);
    law_blocks_are_consecutive(start, read.done, 0);
    law_blocks_are_consecutive(start, written.done, 0);
}

/// However writing goes, whenever it comes to a block it erases first exactly if
/// the number of the block is a multiple of 256, 512 or 32, by the bits of the
/// configuration.
pub proof fn law_erases_exactly_at_multiples(
    v: RangeView<WriteAction>,
    flash_config: u32,
    flag: bool,
)
    requires
        0 <= v.done,
        v.next is Begin || v.next is Report || (v.next is WriteBlock && flag),
    ensures
        ({
            let next = write_next(v, flash_config, flag);
            let number = (v.start + next.done) % 0x1_0000_0000;
            let major = (flash_config >> 17) & 3;
            let minor = (flash_config >> 4) & 3;
            let n = if major != 0 && minor == 2 {
                256int
            } else if major != 0 && minor == 3 {
                512int
            } else {
                32int
            };
            &&& next.done < v.count && number % n == 0 ==> (next.next matches WriteAction::Erase {
                lba,
            } && lba == number)
            &&& next.done < v.count && number % n != 0 ==> next.next is TakeBlock
            &&& next.done >= v.count ==> next.next == WriteAction::Finish(None)
        }),
{
    law_erase_blocks_in_numbers(flash_config);
    assert((flash_config >> 17) & 3 < 4 && (flash_config >> 4) & 3 < 4) by (bit_vector);
    let next = write_next(v, flash_config, flag);
    law_blocks_are_consecutive(v.start, next.done, 0);
}

} // verus!
