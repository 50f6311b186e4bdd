//! What the engine asks of the device: a plan is a list of commands that a
//! caller carries out in order on one command queue.

use crate::device::Access;
use crate::device::DeviceBuffer;
use crate::programs::Kernel;
use crate::programs::Program;
use vstd::prelude::*;

verus! {

/// One positional argument of a kernel.
#[derive(Debug, PartialEq)]
pub enum KernelArg<T> {
    /// A device buffer.
    Buffer(DeviceBuffer),
    /// A 32-bit signed integer, such as a count of samples.
    Int(i32),
    /// A value of the buffers' element type, such as a learning rate.
    Scalar(T),
}

/// One dispatch of a kernel.
#[derive(Debug, PartialEq)]
pub struct Launch<T> {
    /// The program that declares the kernel.
    pub program: Program,
    /// The entry point to run.
    pub kernel: Kernel,
    /// The arguments in the order of the kernel's parameters.
    pub args: Vec<KernelArg<T>>,
    /// The number of work items along each dimension.
    pub global_work_sizes: Vec<usize>,
}

/// A dispatch with its lists as sequences.
pub struct LaunchView<T> {
    pub program: Program,
    pub kernel: Kernel,
    pub args: Seq<KernelArg<T>>,
    pub global_work_sizes: Seq<usize>,
}

impl<T> View for Launch<T> {
    type V = LaunchView<T>;

    open spec fn view(&self) -> LaunchView<T> {
        LaunchView {
            program: self.program,
            kernel: self.kernel,
            args: self.args@,
            global_work_sizes: self.global_work_sizes@,
        }
    }
}

/// One request to the device.
#[derive(Debug, PartialEq)]
pub enum Command<T> {
    /// Allocate `buffer.len` values under the handle `buffer.id`.
    CreateBuffer { buffer: DeviceBuffer, access: Access },
    /// Copy `data` from the host to the start of `buffer`.
    WriteBuffer { buffer: DeviceBuffer, data: Vec<T> },
    /// Copy all of `buffer` to the host.
    ReadBuffer { buffer: DeviceBuffer },
    /// Copy the first `len` values of `source` to the start of `target`.
    CopyBuffer { source: DeviceBuffer, target: DeviceBuffer, len: usize },
    /// Run a kernel.
    Launch(Launch<T>),
    /// Wait until the device has finished all earlier commands.
    Finish,
    /// Free `buffer`.
    ReleaseBuffer { buffer: DeviceBuffer },
}

/// A request with its lists as sequences.
pub enum CommandView<T> {
    CreateBuffer { buffer: DeviceBuffer, access: Access },
    WriteBuffer { buffer: DeviceBuffer, data: Seq<T> },
    ReadBuffer { buffer: DeviceBuffer },
    CopyBuffer { source: DeviceBuffer, target: DeviceBuffer, len: usize },
    Launch(LaunchView<T>),
    Finish,
    ReleaseBuffer { buffer: DeviceBuffer },
}

impl<T> View for Command<T> {
    type V = CommandView<T>;

    open spec fn view(&self) -> CommandView<T> {
        match *self {
            Command::CreateBuffer { buffer, access } => CommandView::CreateBuffer {
                buffer,
                access,
            },
            Command::WriteBuffer { buffer, data } => CommandView::WriteBuffer {
                buffer,
                data: data@,
            },
            Command::ReadBuffer { buffer } => CommandView::ReadBuffer { buffer },
            Command::CopyBuffer { source, target, len } => CommandView::CopyBuffer {
                source,
                target,
                len,
            },
            Command::Launch(launch) => CommandView::Launch(launch@),
            Command::Finish => CommandView::Finish,
            Command::ReleaseBuffer { buffer } => CommandView::ReleaseBuffer { buffer },
        }
    }
}

/// A plan as a sequence of requests.
pub open spec fn plan_of<T>(commands: Seq<Command<T>>) -> Seq<CommandView<T>> {
    commands.map_values(|c: Command<T>| c@)
}

/// The requests that free `buffers`, one each, in order.
pub open spec fn releases<T>(buffers: Seq<DeviceBuffer>) -> Seq<CommandView<T>> {
    buffers.map_values(|buffer: DeviceBuffer| CommandView::ReleaseBuffer { buffer })
}

/// The buffers that `slots` hold, in order.
pub open spec fn held(slots: Seq<Option<DeviceBuffer>>) -> Seq<DeviceBuffer>
    decreases slots.len(),
{
    if slots.len() == 0 {
        Seq::empty()
    } else {
        let rest = held(slots.drop_last());
        match slots.last() {
            Some(buffer) => rest.push(buffer),
            None => rest,
        }
    }
}

/// `buffers` without every occurrence of `gone`.
pub open spec fn without(buffers: Seq<DeviceBuffer>, gone: DeviceBuffer) -> Seq<DeviceBuffer>
    decreases buffers.len(),
{
    if buffers.len() == 0 {
        Seq::empty()
    } else {
        let rest = without(buffers.drop_last(), gone);
        if buffers.last() == gone {
            rest
        } else {
            rest.push(buffers.last())
        }
    }
}

/// The buffers that `plan` has created and not freed again, in the order of
/// their creation.
pub open spec fn outstanding<T>(plan: Seq<CommandView<T>>) -> Seq<DeviceBuffer>
    decreases plan.len(),
{
    if plan.len() == 0 {
        Seq::empty()
    } else {
        let before = outstanding(plan.drop_last());
        match plan.last() {
            CommandView::CreateBuffer { buffer, .. } => before.push(buffer),
            CommandView::ReleaseBuffer { buffer } => without(before, buffer),
            _ => before,
        }
    }
}

/// What a plan has created and not freed changes with its last request
/// only: a creation adds a buffer, a release takes one away, and nothing
/// else counts.
pub proof fn lemma_outstanding_push<T>(plan: Seq<CommandView<T>>, command: CommandView<T>)
    ensures
        outstanding(plan.push(command)) == (match command {
            CommandView::CreateBuffer { buffer, .. } => outstanding(plan).push(buffer),
            CommandView::ReleaseBuffer { buffer } => without(outstanding(plan), buffer),
            _ => outstanding(plan),
        }),
{
    assert(plan.push(command).drop_last() =~= plan);
}

/// The dispatch of `kernel` of `program`.
pub fn launch<T>(
    program: Program,
    kernel: Kernel,
    args: Vec<KernelArg<T>>,
    global_work_sizes: Vec<usize>,
) -> (command: Command<T>)
    ensures
        command@ == CommandView::Launch(
            LaunchView { program, kernel, args: args@, global_work_sizes: global_work_sizes@ },
        ),
{
    Command::Launch(Launch { program, kernel, args, global_work_sizes })
}

/// What slots hold changes with the last slot only: it adds its buffer, if
/// it holds one.
pub proof fn lemma_held_push(slots: Seq<Option<DeviceBuffer>>, slot: Option<DeviceBuffer>)
    ensures
        held(slots.push(slot)) == (match slot {
            Some(buffer) => held(slots).push(buffer),
            None => held(slots),
        }),
{
    assert(slots.push(slot).drop_last() =~= slots);
}

/// What two rows of slots hold together is what the first holds, then
/// what the second holds.
pub proof fn lemma_held_concat(first: Seq<Option<DeviceBuffer>>, then: Seq<Option<DeviceBuffer>>)
    ensures
        held(first + then) == held(first) + held(then),
    decreases then.len(),
{
    if then.len() == 0 {
        assert(first + then =~= first);
        assert(held(first) + held(then) =~= held(first));
    } else {
        assert((first + then).drop_last() =~= first + then.drop_last());
        lemma_held_concat(first, then.drop_last());
        assert((first + then).last() == then.last());
        match then.last() {
            Some(buffer) => {
                assert(held(first + then) =~= held(first) + held(then));
            },
            None => {},
        }
    }
}

/// Slots that hold nothing hold no buffer.
pub proof fn lemma_nothing_held(slots: Seq<Option<DeviceBuffer>>)
    requires
        forall|i: int| 0 <= i < slots.len() ==> slots[i] is None,
    ensures
        held(slots) == Seq::<DeviceBuffer>::empty(),
    decreases slots.len(),
{
    if slots.len() > 0 {
        lemma_nothing_held(slots.drop_last());
    }
}

/// The commands that free the buffers that `slots` hold, in order.
pub fn release_held<T>(slots: &Vec<Option<DeviceBuffer>>) -> (commands: Vec<Command<T>>)
    ensures
        plan_of(commands@) == releases::<T>(held(slots@)),
{
    let mut commands: Vec<Command<T>> = Vec::new();
    let mut i: usize = 0;
    while i < slots.len()
        invariant
            i <= slots.len(),
            plan_of(commands@) == releases::<T>(held(slots@.take(i as int))),
        decreases slots.len() - i,
    {
        proof {
            assert(slots@.take(i + 1).drop_last() =~= slots@.take(i as int));
        }
        match slots[i] {
            Some(buffer) => {
                proof {
                    let before = held(slots@.take(i as int));
                    let next = plan_of(commands@.push(Command::ReleaseBuffer { buffer }));
                    let want = releases::<T>(before.push(buffer));
                    assert(plan_of(commands@).len() == before.len());
                    assert forall|n: int| 0 <= n < next.len() implies next[n] == want[n] by {
                        if n < before.len() {
                            assert(next[n] == plan_of(commands@)[n]);
                            assert(releases::<T>(before)[n] == want[n]);
                        }
                    }
                    assert(next =~= want);
                }
                commands.push(Command::ReleaseBuffer { buffer });
            },
            None => {},
        }
        i += 1;
    }
    proof {
        assert(slots@.take(i as int) =~= slots@);
    }
    commands
}

/// `buffers` without every occurrence of `gone`.
fn remove_buffer(buffers: &Vec<DeviceBuffer>, gone: DeviceBuffer) -> (kept: Vec<DeviceBuffer>)
    ensures
        kept@ == without(buffers@, gone),
{
    let mut kept: Vec<DeviceBuffer> = Vec::new();
    let mut i: usize = 0;
    while i < buffers.len()
        invariant
            i <= buffers.len(),
            kept@ == without(buffers@.take(i as int), gone),
        decreases buffers.len() - i,
    {
        proof {
            assert(buffers@.take(i + 1).drop_last() =~= buffers@.take(i as int));
        }
        if !(buffers[i].id == gone.id && buffers[i].len == gone.len) {
            kept.push(buffers[i]);
        }
        i += 1;
    }
    proof {
        assert(buffers@.take(i as int) =~= buffers@);
    }
    kept
}

/// The first `done` requests of `plan`, or all of them if there are fewer.
pub open spec fn carried_out<T>(plan: Seq<CommandView<T>>, done: int) -> Seq<CommandView<T>> {
    if 0 <= done <= plan.len() {
        plan.take(done)
    } else {
        plan
    }
}

/// What is left to do when the device failed at command `done` of a plan,
/// after it had carried out the `done` commands before it: free every buffer
/// those commands created and did not free themselves.
pub fn cleanup_after_failure<T>(commands: &Vec<Command<T>>, done: usize) -> (cleanup: Vec<
    Command<T>,
>)
    ensures
        plan_of(cleanup@) == releases::<T>(
            outstanding(carried_out(plan_of(commands@), done as int)),
        ),
{
    let done: usize = if done <= commands.len() {
        done
    } else {
        commands.len()
    };
    proof {
        assert(plan_of(commands@.take(done as int)) =~= plan_of(commands@).take(done as int));
        assert(plan_of(commands@).take(commands@.len() as int) =~= plan_of(commands@));
    }
    let mut live: Vec<DeviceBuffer> = Vec::new();
    let mut i: usize = 0;
    while i < done
        invariant
            i <= done <= commands.len(),
            live@ == outstanding(plan_of(commands@.take(i as int))),
        decreases done - i,
    {
        proof {
            let next = plan_of(commands@.take(i + 1));
            assert(next.drop_last() =~= plan_of(commands@.take(i as int)));
            assert(next.last() == commands@[i as int]@);
        }
        match &commands[i] {
            Command::CreateBuffer { buffer, .. } => {
                live.push(*buffer);
            },
            Command::ReleaseBuffer { buffer } => {
                live = remove_buffer(&live, *buffer);
            },
            _ => {},
        }
        i += 1;
    }
    let mut cleanup: Vec<Command<T>> = Vec::new();
    let mut k: usize = 0;
    while k < live.len()
        invariant
            k <= live.len(),
            cleanup.len() == k,
            plan_of(cleanup@) == releases::<T>(live@.take(k as int)),
        decreases live.len() - k,
    {
        proof {
            let next = plan_of(cleanup@.push(Command::ReleaseBuffer { buffer: live@[k as int] }));
            let want = releases::<T>(live@.take(k + 1));
            assert forall|n: int| 0 <= n < next.len() implies next[n] == want[n] by {
                if n < k {
                    assert(next[n] == plan_of(cleanup@)[n]);
                    assert(releases::<T>(live@.take(k as int))[n] == want[n]);
                }
            }
            assert(next =~= want);
        }
        cleanup.push(Command::ReleaseBuffer { buffer: live[k] });
        k += 1;
    }
    proof {
        assert(live@.take(k as int) =~= live@);
    }
    cleanup
}

} // verus!
