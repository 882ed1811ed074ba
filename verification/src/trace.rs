//! Events of the task scheduler and their wire form.
use vstd::prelude::*;
use vstd::string::StringSliceAdditionalSpecFns;
use vstd::utf8::{encode_utf8, is_ascii_chars_encode_utf8};

use crate::bytes::{
    copy_at, law_short_numbers, le_bytes, le_value, lemma_le_bytes_len, lemma_le_value_of_bytes,
    pow256, splice, u32_le, u64_le,
};

verus! {

/// The text that a task name holds.
pub uninterp spec fn task_name_text(name: TaskName) -> Seq<char>;

/// The name of a task, in a `heapless::String` of at most 32 bytes.
#[verifier::external_body]
#[derive(Debug)]
pub struct TaskName {
    text: heapless::String<32>,
}

impl View for TaskName {
    type V = Seq<char>;

    open spec fn view(&self) -> Seq<char> {
        task_name_text(*self)
    }
}

impl TaskName {
    /// `heapless::String::try_from` on a string slice: a copy of the text, which
    /// exists exactly when the text takes at most 32 bytes.
    #[verifier::external_body]
    fn try_new(text: &str) -> (r: Option<TaskName>)
        ensures
            r is Some <==> text.spec_bytes().len() <= 32,
            r matches Some(name) ==> task_name_text(name) == text@,
    {
        heapless::String::<32>::try_from(text).ok().map(|text| TaskName { text })
    }

    /// `heapless::String::as_str`: the text itself, which takes at most 32 bytes.
    #[verifier::external_body]
    pub(crate) fn as_str(&self) -> (r: &str)
        ensures
            r@ == task_name_text(*self),
            r.spec_bytes().len() <= 32,
    {
        self.text.as_str()
    }
}

impl Clone for TaskName {
    /// `heapless::String::clone`: the same text.
    #[verifier::external_body]
    fn clone(&self) -> (r: Self)
        ensures
            task_name_text(r) == task_name_text(*self),
    {
        TaskName { text: self.text.clone() }
    }
}

/// The name given to tasks without a usable one.
pub open spec fn unknown_name() -> Seq<char> {
    "unknown"@
}

/// What a task is called in the trace: its name if it has one of at most 32
/// bytes.
pub open spec fn traced_name(name: Option<&str>) -> Seq<char> {
    match name {
        Some(text) => if text.spec_bytes().len() <= 32 {
            text@
        } else {
            unknown_name()
        },
        None => unknown_name(),
    }
}

/// The name under which a task is traced.
pub fn task_name(name: Option<&str>) -> (r: TaskName)
    ensures
        r@ == traced_name(name),
{
    let given = match name {
        Some(text) => TaskName::try_new(text),
        None => None,
    };
    match given {
        Some(name) => name,
        None => {
            proof {
                reveal_strlit("unknown");
                is_ascii_chars_encode_utf8("unknown"@);
            }
            match TaskName::try_new("unknown") {
                Some(name) => name,
                None => vstd::pervasive::unreached(),
            }
        },
    }
}

/// What happened in the scheduler.
#[derive(Debug)]
pub enum EventType {
    ExecutorPollStart { id: u32 },
    ExecutorIdle { id: u32 },
    TaskNew { executor_id: u32, id: u32, name: TaskName },
    TaskExecBegin { executor_id: u32, id: u32 },
    TaskExecEnd { executor_id: u32, id: u32 },
    /// Takes effect only after the task stopped executing, if it was.
    TaskWaitingBegin { executor_id: u32, id: u32 },
    TaskEnd { executor_id: u32, id: u32 },
}

/// What happened in the scheduler, with names as text.
pub enum EventTypeView {
    ExecutorPollStart { id: u32 },
    ExecutorIdle { id: u32 },
    TaskNew { executor_id: u32, id: u32, name: Seq<char> },
    TaskExecBegin { executor_id: u32, id: u32 },
    TaskExecEnd { executor_id: u32, id: u32 },
    TaskWaitingBegin { executor_id: u32, id: u32 },
    TaskEnd { executor_id: u32, id: u32 },
}

impl View for EventType {
    type V = EventTypeView;

    open spec fn view(&self) -> EventTypeView {
        match *self {
            EventType::ExecutorPollStart { id } => EventTypeView::ExecutorPollStart { id },
            EventType::ExecutorIdle { id } => EventTypeView::ExecutorIdle { id },
            EventType::TaskNew { executor_id, id, name } => EventTypeView::TaskNew {
                executor_id,
                id,
                name: name@,
            },
            EventType::TaskExecBegin { executor_id, id } => EventTypeView::TaskExecBegin {
                executor_id,
                id,
            },
            EventType::TaskExecEnd { executor_id, id } => EventTypeView::TaskExecEnd {
                executor_id,
                id,
            },
            EventType::TaskWaitingBegin { executor_id, id } => EventTypeView::TaskWaitingBegin {
                executor_id,
                id,
            },
            EventType::TaskEnd { executor_id, id } => EventTypeView::TaskEnd { executor_id, id },
        }
    }
}

/// The number that stands for the kind of an event on the wire.
pub open spec fn event_number(ty: EventTypeView) -> u8 {
    match ty {
        EventTypeView::ExecutorPollStart { .. } => 0,
        EventTypeView::ExecutorIdle { .. } => 1,
        EventTypeView::TaskNew { .. } => 2,
        EventTypeView::TaskExecBegin { .. } => 3,
        EventTypeView::TaskExecEnd { .. } => 4,
        EventTypeView::TaskWaitingBegin { .. } => 5,
        EventTypeView::TaskEnd { .. } => 6,
    }
}

/// How many bytes are set aside for an event, before its time stamp.
pub open spec fn event_size(ty: EventTypeView) -> nat {
    match ty {
        EventTypeView::TaskNew { name, .. } => 10 + encode_utf8(name).len(),
        _ => 9,
    }
}

/// The bytes that follow the kind of an event.
pub open spec fn event_body(ty: EventTypeView) -> Seq<u8> {
    match ty {
        EventTypeView::ExecutorPollStart { id } => le_bytes(id as nat, 4),
        EventTypeView::ExecutorIdle { id } => le_bytes(id as nat, 4),
        EventTypeView::TaskNew { executor_id, id, name } => le_bytes(executor_id as nat, 4)
            + le_bytes(id as nat, 4) + seq![encode_utf8(name).len() as u8] + encode_utf8(name),
        EventTypeView::TaskExecBegin { executor_id, id } => le_bytes(executor_id as nat, 4)
            + le_bytes(id as nat, 4),
        EventTypeView::TaskExecEnd { executor_id, id } => le_bytes(executor_id as nat, 4)
            + le_bytes(id as nat, 4),
        EventTypeView::TaskWaitingBegin { executor_id, id } => le_bytes(executor_id as nat, 4)
            + le_bytes(id as nat, 4),
        EventTypeView::TaskEnd { executor_id, id } => le_bytes(executor_id as nat, 4) + le_bytes(
            id as nat,
            4,
        ),
    }
}

/// The array after an event was written to its front: its kind, then its body.
pub open spec fn event_written(ty: EventTypeView, array: Seq<u8>) -> Seq<u8> {
    splice(array, 0, seq![event_number(ty)] + event_body(ty))
}

/// Writes the ids of an executor and a task to their place.
fn put_ids(array: &mut [u8], executor_id: u32, id: u32)
    requires
        9 <= old(array)@.len(),
    ensures
        final(array)@ == splice(
            old(array)@,
            1,
            le_bytes(executor_id as nat, 4) + le_bytes(id as nat, 4),
        ),
{
    let a: [u8; 4] = u32_le(executor_id);
    let b: [u8; 4] = u32_le(id);
    copy_at(array, 1, &a);
    copy_at(array, 5, &b);
    assert(array@ =~= splice(
        old(array)@,
        1,
        le_bytes(executor_id as nat, 4) + le_bytes(id as nat, 4),
    ));
}

impl EventType {
    /// The size of a buffer for events, without their time stamp. Events that tell
    /// of a new task whose name has more than 27 bytes do not fit.
    fn max_size() -> (r: usize)
        ensures
            r == 37,
    {
        4 + 1 + 32
    }

    /// How many bytes are set aside for this event, before its time stamp.
    fn serialized_size(&self) -> (r: usize)
        ensures
            r == event_size(self@),
            r <= 42,
    {
        match self {
            EventType::TaskNew { name, .. } => 4 * 2 + 2 + name.as_str().len(),
            _ => 4 * 2 + 1,
        }
    }

    /// The number that stands for this kind of event on the wire.
    fn variant_id(&self) -> (r: u8)
        ensures
            r == event_number(self@),
    {
        match self {
            EventType::ExecutorPollStart { .. } => 0,
            EventType::ExecutorIdle { .. } => 1,
            EventType::TaskNew { .. } => 2,
            EventType::TaskExecBegin { .. } => 3,
            EventType::TaskExecEnd { .. } => 4,
            EventType::TaskWaitingBegin { .. } => 5,
            EventType::TaskEnd { .. } => 6,
        }
    }

    /// Writes the event to the front of `array`, which needs room for
    /// `serialized_size` bytes.
    fn serialize(&self, array: &mut [u8])
        requires
            event_size(self@) <= old(array)@.len(),
        ensures
            final(array)@ == event_written(self@, old(array)@),
    {
        let kind: [u8; 1] = [self.variant_id()];
        proof {
            lemma_event_body_len(self@);
            assert(kind@ =~= seq![event_number(self@)]);
        }
        copy_at(array, 0, &kind);
        match self {
            EventType::ExecutorPollStart { id } | EventType::ExecutorIdle { id } => {
                let bytes: [u8; 4] = u32_le(*id);
                copy_at(array, 1, &bytes);
            },
            EventType::TaskExecBegin { executor_id, id }
            | EventType::TaskExecEnd { executor_id, id }
            | EventType::TaskWaitingBegin { executor_id, id }
            | EventType::TaskEnd { executor_id, id } => {
                put_ids(array, *executor_id, *id);
            },
            EventType::TaskNew { executor_id, id, name } => {
                put_ids(array, *executor_id, *id);
                let text: &str = name.as_str();
                let bytes: &[u8] = text.as_bytes();
                let len: [u8; 1] = [bytes.len() as u8];
                copy_at(array, 9, &len);
                copy_at(array, 10, bytes);
            },
        }
        assert(array@ =~= event_written(self@, old(array)@));
    }
}

/// How long the body of each kind of event is.
proof fn lemma_event_body_len(ty: EventTypeView)
    ensures
        match ty {
            EventTypeView::ExecutorPollStart { .. } => event_body(ty).len() == 4,
            EventTypeView::ExecutorIdle { .. } => event_body(ty).len() == 4,
            EventTypeView::TaskNew { name, .. } => event_body(ty).len() == 9 + encode_utf8(
                name,
            ).len(),
            _ => event_body(ty).len() == 8,
        },
{
    assert forall|v: nat| #[trigger] le_bytes(v, 4).len() == 4 by {
        lemma_le_bytes_len(v, 4);
    }
}

impl Clone for EventType {
    fn clone(&self) -> (r: Self)
        ensures
            r@ == self@,
    {
        match self {
            EventType::ExecutorPollStart { id } => EventType::ExecutorPollStart { id: *id },
            EventType::ExecutorIdle { id } => EventType::ExecutorIdle { id: *id },
            EventType::TaskNew { executor_id, id, name } => EventType::TaskNew {
                executor_id: *executor_id,
                id: *id,
                name: name.clone(),
            },
            EventType::TaskExecBegin { executor_id, id } => EventType::TaskExecBegin {
                executor_id: *executor_id,
                id: *id,
            },
            EventType::TaskExecEnd { executor_id, id } => EventType::TaskExecEnd {
                executor_id: *executor_id,
                id: *id,
            },
            EventType::TaskWaitingBegin { executor_id, id } => EventType::TaskWaitingBegin {
                executor_id: *executor_id,
                id: *id,
            },
            EventType::TaskEnd { executor_id, id } => EventType::TaskEnd {
                executor_id: *executor_id,
                id: *id,
            },
        }
    }
}

/// Something that happened in the scheduler, and when.
#[derive(Debug)]
pub struct Event {
    ty: EventType,
    time_ticks: u64,
}

/// Something that happened in the scheduler, and when, with names as text.
pub struct EventView {
    pub ty: EventTypeView,
    pub time_ticks: u64,
}

impl View for Event {
    type V = EventView;

    closed spec fn view(&self) -> EventView {
        EventView { ty: self.ty@, time_ticks: self.time_ticks }
    }
}

impl Clone for Event {
    fn clone(&self) -> (r: Self)
        ensures
            r@ == self@,
    {
        Event { ty: self.ty.clone(), time_ticks: self.time_ticks }
    }
}

impl Event {
    /// The executor starts to poll its tasks.
    pub fn poll_start(executor_id: u32, time_ticks: u64) -> (r: Event)
        ensures
            r@ == (EventView {
                ty: EventTypeView::ExecutorPollStart { id: executor_id },
                time_ticks,
            }),
    {
        Event { ty: EventType::ExecutorPollStart { id: executor_id }, time_ticks }
    }

    /// The executor has nothing to do.
    pub fn executor_idle(executor_id: u32, time_ticks: u64) -> (r: Event)
        ensures
            r@ == (EventView { ty: EventTypeView::ExecutorIdle { id: executor_id }, time_ticks }),
    {
        Event { ty: EventType::ExecutorIdle { id: executor_id }, time_ticks }
    }

    /// A task was created.
    pub fn task_new(executor_id: u32, task_id: u32, name: Option<&str>, time_ticks: u64) -> (r:
        Event)
        ensures
            r@ == (EventView {
                ty: EventTypeView::TaskNew { executor_id, id: task_id, name: traced_name(name) },
                time_ticks,
            }),
    {
        Event {
            ty: EventType::TaskNew { executor_id, id: task_id, name: task_name(name) },
            time_ticks,
        }
    }

    /// A task came to its end.
    pub fn task_end(executor_id: u32, task_id: u32, time_ticks: u64) -> (r: Event)
        ensures
            r@ == (EventView {
                ty: EventTypeView::TaskEnd { executor_id, id: task_id },
                time_ticks,
            }),
    {
        Event { ty: EventType::TaskEnd { executor_id, id: task_id }, time_ticks }
    }

    /// A task starts to execute.
    pub fn task_exec_begin(executor_id: u32, task_id: u32, time_ticks: u64) -> (r: Event)
        ensures
            r@ == (EventView {
                ty: EventTypeView::TaskExecBegin { executor_id, id: task_id },
                time_ticks,
            }),
    {
        Event { ty: EventType::TaskExecBegin { executor_id, id: task_id }, time_ticks }
    }

    /// A task stops executing.
    pub fn task_exec_end(executor_id: u32, task_id: u32, time_ticks: u64) -> (r: Event)
        ensures
            r@ == (EventView {
                ty: EventTypeView::TaskExecEnd { executor_id, id: task_id },
                time_ticks,
            }),
    {
        Event { ty: EventType::TaskExecEnd { executor_id, id: task_id }, time_ticks }
    }

    /// A task became ready to execute.
    pub fn task_ready_begin(executor_id: u32, task_id: u32, time_ticks: u64) -> (r: Event)
        ensures
            r@ == (EventView {
                ty: EventTypeView::TaskWaitingBegin { executor_id, id: task_id },
                time_ticks,
            }),
    {
        Event { ty: EventType::TaskWaitingBegin { executor_id, id: task_id }, time_ticks }
    }

    /// The size of a buffer for events. Those that tell of a new task whose name
    /// has more than 27 bytes do not fit.
    pub fn max_size() -> (r: usize)
        ensures
            r == 45,
    {
        EventType::max_size() + 8
    }

    /// How many bytes this event takes on the wire.
    pub fn serialized_size(&self) -> (r: usize)
        ensures
            r == event_size(self@.ty) + 8,
    {
        self.ty.serialized_size() + 8
    }

    /// Writes the event to the front of `array`, which needs room for
    /// `serialized_size` bytes. The time stamp takes the last eight of these.
    pub fn serialize(&self, array: &mut [u8])
        requires
            event_size(self@.ty) + 8 <= old(array)@.len(),
        ensures
            final(array)@ == serialized(self@, old(array)@),
    {
        proof {
            lemma_event_body_len(self.ty@);
        }
        let at: usize = self.ty.serialized_size();
        self.ty.serialize(array);
        let ticks: [u8; 8] = u64_le(self.time_ticks);
        copy_at(array, at, &ticks);
    }
}

/// An array after an event was written to its front.
pub open spec fn serialized(event: EventView, array: Seq<u8>) -> Seq<u8> {
    splice(
        event_written(event.ty, array),
        event_size(event.ty) as int,
        le_bytes(event.time_ticks as nat, 8),
    )
}

/// The id that a serialized event names first: that of an executor.
pub open spec fn first_id(ty: EventTypeView) -> u32 {
    match ty {
        EventTypeView::ExecutorPollStart { id } => id,
        EventTypeView::ExecutorIdle { id } => id,
        EventTypeView::TaskNew { executor_id, .. } => executor_id,
        EventTypeView::TaskExecBegin { executor_id, .. } => executor_id,
        EventTypeView::TaskExecEnd { executor_id, .. } => executor_id,
        EventTypeView::TaskWaitingBegin { executor_id, .. } => executor_id,
        EventTypeView::TaskEnd { executor_id, .. } => executor_id,
    }
}

/// The id of a task that a serialized event names, if it names one.
pub open spec fn second_id(ty: EventTypeView) -> Option<u32> {
    match ty {
        EventTypeView::ExecutorPollStart { .. } => None,
        EventTypeView::ExecutorIdle { .. } => None,
        EventTypeView::TaskNew { id, .. } => Some(id),
        EventTypeView::TaskExecBegin { id, .. } => Some(id),
        EventTypeView::TaskExecEnd { id, .. } => Some(id),
        EventTypeView::TaskWaitingBegin { id, .. } => Some(id),
        EventTypeView::TaskEnd { id, .. } => Some(id),
    }
}

/// Everything can be read back from a serialized event: its kind, its ids, the
/// name of a new task and the time stamp. Bytes behind it are left alone.
#[verifier::spinoff_prover]
#[verifier::rlimit(60)]
pub proof fn law_event_reads_back(event: EventView, array: Seq<u8>)
    requires
        event_size(event.ty) + 8 <= array.len(),
    ensures
        ({
            let wire = serialized(event, array);
            let size = event_size(event.ty) as int;
            &&& wire.len() == array.len()
            &&& wire[0] == event_number(event.ty)
            &&& le_value(wire.subrange(1, 5)) == first_id(event.ty)
            &&& second_id(event.ty) matches Some(id) ==> le_value(wire.subrange(5, 9)) == id
            &&& event.ty matches EventTypeView::TaskNew { name, .. } ==> {
                let text = encode_utf8(name);
                &&& wire[9] == text.len() as u8
                &&& wire.subrange(10, 10 + text.len() as int) == text
            }
            &&& le_value(wire.subrange(size, size + 8)) == event.time_ticks
            &&& wire.skip(size + 8) == array.skip(size + 8)
        }),
{
    let wire = serialized(event, array);
    let size = event_size(event.ty) as int;
    let body = event_body(event.ty);
    let first = le_bytes(first_id(event.ty) as nat, 4);
    reveal_with_fuel(pow256, 9);
    lemma_event_body_len(event.ty);
    lemma_le_value_of_bytes(first_id(event.ty) as nat, 4);
    lemma_le_value_of_bytes(event.time_ticks as nat, 8);
    assert(forall|i: int| 0 <= i < 4 ==> body[i] == first[i]);
    assert(wire.subrange(1, 5) =~= first);
    assert(wire.subrange(size, size + 8) =~= le_bytes(event.time_ticks as nat, 8));
    assert(wire.skip(size + 8) =~= array.skip(size + 8));
    if second_id(event.ty) is Some {
        let second = le_bytes(second_id(event.ty)->0 as nat, 4);
        lemma_le_value_of_bytes(second_id(event.ty)->0 as nat, 4);
        assert(forall|i: int| 0 <= i < 4 ==> body[4 + i] == second[i]);
        assert(wire.subrange(5, 9) =~= second);
    }
    if event.ty is TaskNew {
        let text = encode_utf8(event.ty->TaskNew_name);
        assert(wire.subrange(10, 10 + text.len() as int) =~= text);
    }
}

/// The number that four bytes spell.
proof fn lemma_four_bytes(wire: Seq<u8>, at: int)
    requires
        0 <= at,
        at + 4 <= wire.len(),
    ensures
        le_value(wire.subrange(at, at + 4)) == wire[at] + 0x100 * wire[at + 1] + 0x1_0000 * wire[at
            + 2] + 0x100_0000 * wire[at + 3],
{
    assert(wire.subrange(at, at + 4) =~= seq![wire[at], wire[at + 1], wire[at + 2], wire[at + 3]]);
    law_short_numbers(wire[at], wire[at + 1], wire[at + 2], wire[at + 3]);
}

/// An executor event on the wire, in numbers: its kind, the id with the lowest
/// byte first, four bytes that are left as they were, and the time stamp.
#[verifier::spinoff_prover]
#[verifier::rlimit(60)]
pub proof fn law_executor_events_in_numbers(id: u32, time_ticks: u64, idle: bool, array: Seq<u8>)
    requires
        17 <= array.len(),
    ensures
        ({
            let ty = if idle {
                EventTypeView::ExecutorIdle { id }
            } else {
                EventTypeView::ExecutorPollStart { id }
            };
            let wire = serialized(EventView { ty, time_ticks }, array);
            &&& event_size(ty) + 8 == 17
            &&& wire.len() == array.len()
            &&& wire[0] == if idle {
                1u8
            } else {
                0u8
            }
            &&& wire[1] + 0x100 * wire[2] + 0x1_0000 * wire[3] + 0x100_0000 * wire[4] == id
            &&& wire.subrange(5, 9) == array.subrange(5, 9)
            &&& le_value(wire.subrange(9, 17)) == time_ticks
            &&& wire.skip(17) == array.skip(17)
        }),
{
    let ty = if idle {
        EventTypeView::ExecutorIdle { id }
    } else {
        EventTypeView::ExecutorPollStart { id }
    };
    let event = EventView { ty, time_ticks };
    let wire = serialized(event, array);
    law_event_reads_back(event, array);
    lemma_event_body_len(ty);
    lemma_four_bytes(wire, 1);
    assert(wire.subrange(5, 9) =~= array.subrange(5, 9));
}

/// A task event on the wire, in numbers: its kind, the ids of the executor and of
/// the task with the lowest byte first, and the time stamp.
#[verifier::spinoff_prover]
#[verifier::rlimit(60)]
pub proof fn law_task_events_in_numbers(
    executor_id: u32,
    id: u32,
    time_ticks: u64,
    kind: u8,
    array: Seq<u8>,
)
    requires
        17 <= array.len(),
        3 <= kind <= 6,
    ensures
        ({
            let ty = if kind == 3 {
                EventTypeView::TaskExecBegin { executor_id, id }
            } else if kind == 4 {
                EventTypeView::TaskExecEnd { executor_id, id }
            } else if kind == 5 {
                EventTypeView::TaskWaitingBegin { executor_id, id }
            } else {
                EventTypeView::TaskEnd { executor_id, id }
            };
            let wire = serialized(EventView { ty, time_ticks }, array);
            &&& event_size(ty) + 8 == 17
            &&& wire.len() == array.len()
            &&& wire[0] == kind
            &&& wire[1] + 0x100 * wire[2] + 0x1_0000 * wire[3] + 0x100_0000 * wire[4]
                == executor_id
            &&& wire[5] + 0x100 * wire[6] + 0x1_0000 * wire[7] + 0x100_0000 * wire[8] == id
            &&& le_value(wire.subrange(9, 17)) == time_ticks
            &&& wire.skip(17) == array.skip(17)
        }),
{
    let ty = if kind == 3 {
        EventTypeView::TaskExecBegin { executor_id, id }
    } else if kind == 4 {
        EventTypeView::TaskExecEnd { executor_id, id }
    } else if kind == 5 {
        EventTypeView::TaskWaitingBegin { executor_id, id }
    } else {
        EventTypeView::TaskEnd { executor_id, id }
    };
    let event = EventView { ty, time_ticks };
    let wire = serialized(event, array);
    law_event_reads_back(event, array);
    lemma_four_bytes(wire, 1);
    lemma_four_bytes(wire, 5);
}

/// The event of a new task on the wire, in numbers: its kind, the two ids, the
/// length of the name, the bytes of the name and the time stamp right behind it.
#[verifier::spinoff_prover]
#[verifier::rlimit(60)]
pub proof fn law_new_tasks_in_numbers(
    executor_id: u32,
    id: u32,
    name: Seq<char>,
    time_ticks: u64,
    array: Seq<u8>,
)
    requires
        encode_utf8(name).len() <= 32,
        18 + encode_utf8(name).len() <= array.len(),
    ensures
        ({
            let ty = EventTypeView::TaskNew { executor_id, id, name };
            let wire = serialized(EventView { ty, time_ticks }, array);
            let text = encode_utf8(name);
            let n = text.len() as int;
            &&& event_size(ty) + 8 == 18 + n
            &&& wire.len() == array.len()
            &&& wire[0] == 2
            &&& wire[1] + 0x100 * wire[2] + 0x1_0000 * wire[3] + 0x100_0000 * wire[4]
                == executor_id
            &&& wire[5] + 0x100 * wire[6] + 0x1_0000 * wire[7] + 0x100_0000 * wire[8] == id
            &&& wire[9] == n
            &&& wire.subrange(10, 10 + n) == text
            &&& le_value(wire.subrange(10 + n, 18 + n)) == time_ticks
            &&& wire.skip(18 + n) == array.skip(18 + n)
        }),
{
    let ty = EventTypeView::TaskNew { executor_id, id, name };
    let event = EventView { ty, time_ticks };
    let wire = serialized(event, array);
    law_event_reads_back(event, array);
    lemma_four_bytes(wire, 1);
    lemma_four_bytes(wire, 5);
}

/// A task keeps its name in the trace if the name has at most 32 bytes; otherwise,
/// and without a name, it is called unknown.
pub proof fn law_names_are_kept_up_to_32_bytes(text: &str)
    ensures
        text.spec_bytes().len() <= 32 ==> traced_name(Some(text)) == text@,
        text.spec_bytes().len() > 32 ==> traced_name(Some(text)) == "unknown"@,
        traced_name(None) == "unknown"@,
{
}

/// An event takes no more than [`Event::max_size`] bytes, except when it tells
/// of a new task whose name has more than 27.
pub proof fn law_most_events_fit(event: EventView)
    requires
        event.ty matches EventTypeView::TaskNew { name, .. } ==> encode_utf8(name).len() <= 27,
    ensures
        event_size(event.ty) + 8 <= 45,
{
}

/// The events that a buffer holds, oldest first.
pub uninterp spec fn buffered_events(buffer: EventBuffer) -> Seq<EventView>;

/// Events that could not be handed on yet, in a `heapless::Vec` of at most 128.
#[verifier::external_body]
#[derive(Debug)]
pub struct EventBuffer {
    events: heapless::Vec<Event, 128>,
}

impl View for EventBuffer {
    type V = Seq<EventView>;

    open spec fn view(&self) -> Seq<EventView> {
        buffered_events(*self)
    }
}

impl EventBuffer {
    /// `heapless::Vec::new`: no events.
    #[verifier::external_body]
    pub(crate) fn empty() -> (r: Self)
        ensures
            buffered_events(r) == Seq::<EventView>::empty(),
    {
        EventBuffer { events: heapless::Vec::new() }
    }

    /// `heapless::Vec::len`: how many events there are, which is never more than
    /// the capacity.
    #[verifier::external_body]
    fn count(&self) -> (r: usize)
        ensures
            r == buffered_events(*self).len(),
            r <= 128,
    {
        self.events.len()
    }

    /// Indexing a `heapless::Vec`: the event at that position.
    #[verifier::external_body]
    fn at(&self, i: usize) -> (r: &Event)
        requires
            i < buffered_events(*self).len(),
        ensures
            r@ == buffered_events(*self)[i as int],
    {
        &self.events[i]
    }

    /// `heapless::Vec::push`: appends the event, or gives it back if 128 events
    /// are there already.
    #[verifier::external_body]
    fn push(&mut self, event: Event) -> (r: Result<(), Event>)
        ensures
            match r {
                Ok(()) => buffered_events(*old(self)).len() < 128 && buffered_events(*final(self))
                    == buffered_events(*old(self)).push(event@),
                Err(back) => buffered_events(*old(self)).len() == 128 && back@ == event@
                    && buffered_events(*final(self)) == buffered_events(*old(self)),
            },
    {
        self.events.push(event)
    }

    /// `heapless::Vec::drain` of everything before `end`: those events are gone
    /// afterwards, the others stay in order.
    #[verifier::external_body]
    fn drain_to(&mut self, end: usize)
        requires
            end <= buffered_events(*old(self)).len(),
        ensures
            buffered_events(*final(self)) == buffered_events(*old(self)).skip(end as int),
    {
        let _ = self.events.drain(..end);
    }
}

/// `events` with `event` behind them if that makes no more than 128.
pub open spec fn pushed(events: Seq<EventView>, event: EventView) -> Seq<EventView> {
    if events.len() < 128 {
        events.push(event)
    } else {
        events
    }
}

impl EventBuffer {
    /// A buffer without events.
    pub fn new() -> (r: Self)
        ensures
            r@ == Seq::<EventView>::empty(),
    {
        Self::empty()
    }

    /// Keeps `event` for later, unless the buffer is full.
    pub fn keep(&mut self, event: Event)
        ensures
            final(self)@ == pushed(old(self)@, event@),
    {
        let _ = self.push(event);
    }
}

/// The writing of one event: first the buffered events are offered to the
/// receiver, oldest first, until one is refused.
pub struct EventWrite {
    len: usize,
    removed: usize,
    refused: bool,
}

impl EventWrite {
    /// How many events were buffered when the writing began.
    pub closed spec fn total(self) -> int {
        self.len as int
    }

    /// How many buffered events the receiver took.
    pub closed spec fn sent(self) -> int {
        self.removed as int
    }

    /// Whether the receiver refused a buffered event.
    pub closed spec fn stopped(self) -> bool {
        self.refused
    }

    /// The counts fit each other.
    #[verifier::type_invariant]
    pub closed spec fn wf(self) -> bool {
        &&& self.removed <= self.len <= 128
        &&& self.refused ==> self.removed < self.len
    }

    /// Begins to write an event.
    pub fn begin(buffer: &EventBuffer) -> (r: EventWrite)
        ensures
            r.total() == buffer@.len(),
            r.sent() == 0,
            !r.stopped(),
    {
        EventWrite { len: buffer.count(), removed: 0, refused: false }
    }

    /// The buffered event to offer next, if there is one.
    pub fn offer(&self, buffer: &EventBuffer) -> (r: Option<Event>)
        requires
            self.total() == buffer@.len(),
        ensures
            match r {
                Some(event) => !self.stopped() && 0 <= self.sent() < self.total() && event@
                    == buffer@[self.sent()],
                None => self.stopped() || self.sent() == self.total(),
            },
    {
        proof {
            use_type_invariant(self);
        }
        if self.refused || self.removed >= self.len {
            None
        } else {
            Some(buffer.at(self.removed).clone())
        }
    }

    /// Notes whether the receiver took the event that was offered.
    pub fn answer(&mut self, taken: bool)
        requires
            !old(self).stopped(),
            old(self).sent() < old(self).total(),
        ensures
            final(self).total() == old(self).total(),
            final(self).sent() == old(self).sent() + (if taken {
                1int
            } else {
                0int
            }),
            final(self).stopped() == !taken,
    {
        proof {
            use_type_invariant(&*self);
        }
        if taken {
            self.removed = self.removed + 1;
        } else {
            self.refused = true;
        }
    }

    /// Clears the events that were taken. If not all of them were, `event` is kept
    /// behind the others; otherwise it is handed back, to be offered as the last
    /// one.
    pub fn finish(self, buffer: &mut EventBuffer, event: Event) -> (r: Option<Event>)
        requires
            self.total() == old(buffer)@.len(),
        ensures
            match r {
                Some(back) => self.sent() == self.total() && back@ == event@ && final(buffer)@
                    == Seq::<EventView>::empty(),
                None => self.sent() != self.total() && final(buffer)@ == pushed(
                    old(buffer)@.skip(self.sent()),
                    event@,
                ),
            },
    {
        proof {
            use_type_invariant(&self);
        }
        buffer.drain_to(self.removed);
        if self.removed != self.len {
            buffer.keep(event);
            None
        } else {
            assert(buffer@ =~= Seq::<EventView>::empty());
            Some(event)
        }
    }
}

/// What a buffer holds once an event was written: the receiver took the first
/// `sent` of the events `held`, and `accepted` says whether it took the new one,
/// which it is offered only when it took all of those.
pub open spec fn after_write(
    held: Seq<EventView>,
    sent: int,
    event: EventView,
    accepted: bool,
) -> Seq<EventView> {
    if sent < held.len() {
        pushed(held.skip(sent), event)
    } else if accepted {
        Seq::empty()
    } else {
        pushed(Seq::empty(), event)
    }
}

/// No event is lost, none is sent twice and their order is kept: what the
/// receiver took, followed by what is buffered, is what was buffered before,
/// followed by the new event. Only when the buffer is full and the receiver
/// takes nothing is there no room for the new event.
pub proof fn law_events_pass_in_order(
    held: Seq<EventView>,
    sent: int,
    event: EventView,
    accepted: bool,
)
    requires
        0 <= sent <= held.len() <= 128,
        accepted ==> sent == held.len(),
        held.len() < 128 || 0 < sent,
    ensures
        ({
            let taken = held.take(sent) + if accepted {
                seq![event]
            } else {
                Seq::empty()
            };
            taken + after_write(held, sent, event, accepted) == held.push(event)
        }),
{
    let taken = held.take(sent) + if accepted {
        seq![event]
    } else {
        Seq::empty()
    };
    assert(taken + after_write(held, sent, event, accepted) =~= held.push(event));
}

/// A buffer has room for 128 events: an event is kept behind the others up to that
/// number, and beyond it the buffer stays as it is.
pub proof fn law_buffer_holds_128_events(held: Seq<EventView>, event: EventView)
    ensures
        held.len() < 128 ==> pushed(held, event).len() == held.len() + 1 && pushed(
            held,
            event,
        ).last() == event && pushed(held, event).drop_last() == held,
        held.len() >= 128 ==> pushed(held, event) == held,
{
    assert(held.len() < 128 ==> pushed(held, event).drop_last() =~= held);
}

/// A full buffer whose events the receiver does not take stays as it is.
pub proof fn law_full_buffer_keeps_its_events(held: Seq<EventView>, event: EventView)
    requires
        held.len() == 128,
    ensures
        after_write(held, 0, event, false) == held,
{
    assert(held.skip(0) =~= held);
}

} // verus!
