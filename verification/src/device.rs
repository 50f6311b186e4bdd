//! The compute context as the engine sees it: how many command queues the
//! device offers, which programs and kernels it has compiled, and which
//! buffer handles have been given out.

use crate::programs::Kernel;
use crate::programs::Program;
use vstd::prelude::*;

verus! {

/// A handle to a flat array of 32-bit values that lives on the device.
#[derive(Clone, Copy, Debug, PartialEq, Eq, Structural)]
pub struct DeviceBuffer {
    /// Where the device keeps the buffer.
    pub id: u64,
    /// How many values the buffer holds.
    pub len: usize,
}

/// What kernels may do with a buffer.
#[derive(Clone, Copy, Debug, PartialEq, Eq, Structural)]
pub enum Access {
    /// Kernels only read the buffer.
    ReadOnly,
    /// Kernels read and write the buffer.
    ReadWrite,
}

/// A step of bringing a program onto the device.
#[derive(Clone, Copy, Debug, PartialEq, Eq, Structural)]
pub enum Compilation {
    /// Compile the program's source.
    BuildProgram { program: Program },
    /// Create one entry point of a compiled program.
    CreateKernel { program: Program, kernel: Kernel },
}

/// The most values a buffer can hold: its size in bytes must fit the
/// machine word, and kernels index it with 32-bit signed integers.
pub open spec fn max_buffer_len() -> int {
    if usize::MAX / 4 < 0x7fff_ffff {
        (usize::MAX / 4) as int
    } else {
        0x7fff_ffff
    }
}

/// Whether a buffer of `len` values can exist on a device.
pub open spec fn valid_buffer_len(len: int) -> bool {
    1 <= len <= max_buffer_len()
}

/// The most values a buffer can hold.
pub fn buffer_len_limit() -> (n: usize)
    ensures
        n == max_buffer_len(),
{
    let by_bytes: usize = usize::MAX / 4;
    if by_bytes < 0x7fff_ffff {
        by_bytes
    } else {
        0x7fff_ffff
    }
}

/// Whether a buffer of `len` values can exist on a device.
pub fn is_valid_buffer_len(len: usize) -> (valid: bool)
    ensures
        valid == valid_buffer_len(len as int),
{
    1 <= len && len <= buffer_len_limit()
}

impl DeviceBuffer {
    /// Whether a device can hold a buffer of this length.
    pub fn is_valid(&self) -> (valid: bool)
        ensures
            valid == valid_buffer_len(self.len as int),
    {
        is_valid_buffer_len(self.len)
    }
}

/// The handles of buffers of the lengths `lens`, given out one after
/// another starting at `first`.
pub open spec fn reserved(first: nat, lens: Seq<usize>) -> Seq<DeviceBuffer> {
    Seq::new(lens.len(), |i: int| DeviceBuffer { id: (first + i) as u64, len: lens[i] })
}

/// Whether a device can hold a buffer of each of the lengths `lens`.
pub open spec fn valid_buffer_lens(lens: Seq<usize>) -> bool {
    forall|i: int| 0 <= i < lens.len() ==> valid_buffer_len(#[trigger] lens[i] as int)
}

/// The state of a compute context.
pub struct ContextView {
    /// The number of command queues.
    pub queues: nat,
    /// The handle that the next buffer gets.
    pub next_buffer: nat,
    /// The programs that the device has compiled.
    pub programs: Set<Program>,
    /// The entry points that the device has created.
    pub kernels: Set<(Program, Kernel)>,
}

/// The context after `count` buffer handles have been given out.
pub open spec fn after_reserving(ctx: ContextView, count: nat) -> ContextView {
    ContextView { next_buffer: ctx.next_buffer + count, ..ctx }
}

/// The context after the device has carried out `step`.
pub open spec fn after_step(ctx: ContextView, step: Compilation) -> ContextView {
    match step {
        Compilation::BuildProgram { program } => ContextView {
            programs: ctx.programs.insert(program),
            ..ctx
        },
        Compilation::CreateKernel { program, kernel } => ContextView {
            kernels: ctx.kernels.insert((program, kernel)),
            ..ctx
        },
    }
}

/// The context after the device has carried out `steps` in order.
pub open spec fn after_steps(ctx: ContextView, steps: Seq<Compilation>) -> ContextView
    decreases steps.len(),
{
    if steps.len() == 0 {
        ctx
    } else {
        after_step(after_steps(ctx, steps.drop_last()), steps.last())
    }
}

/// The entry points among `kernels` that `have` lacks, each as the step
/// that creates it.
pub open spec fn missing_kernels(
    have: Set<(Program, Kernel)>,
    program: Program,
    kernels: Seq<Kernel>,
) -> Seq<Compilation>
    decreases kernels.len(),
{
    if kernels.len() == 0 {
        Seq::empty()
    } else {
        let rest = missing_kernels(have, program, kernels.drop_last());
        if have.contains((program, kernels.last())) {
            rest
        } else {
            rest.push(Compilation::CreateKernel { program, kernel: kernels.last() })
        }
    }
}

/// The steps that bring `program` with `kernels` onto a device in state
/// `ctx`: the build unless the program is compiled, then each entry point
/// that is not created yet.
pub open spec fn missing_steps(ctx: ContextView, program: Program, kernels: Seq<Kernel>) -> Seq<
    Compilation,
> {
    let build = if ctx.programs.contains(program) {
        Seq::empty()
    } else {
        seq![Compilation::BuildProgram { program }]
    };
    build + missing_kernels(ctx.kernels, program, kernels)
}

/// Carrying out the steps for entry points leaves the programs alone,
/// forgets no entry point, and leaves none of `kernels` missing that
/// `have` lacked.
proof fn lemma_after_missing_kernels(
    ctx: ContextView,
    have: Set<(Program, Kernel)>,
    program: Program,
    kernels: Seq<Kernel>,
)
    ensures
        ({
            let after = after_steps(ctx, missing_kernels(have, program, kernels));
            &&& after.programs == ctx.programs
            &&& after.queues == ctx.queues
            &&& after.next_buffer == ctx.next_buffer
            &&& ctx.kernels.subset_of(after.kernels)
            &&& forall|i: int|
                0 <= i < kernels.len() ==> have.contains((program, #[trigger] kernels[i]))
                    || after.kernels.contains((program, kernels[i]))
        }),
    decreases kernels.len(),
{
    if kernels.len() > 0 {
        let rest = kernels.drop_last();
        lemma_after_missing_kernels(ctx, have, program, rest);
        let before = after_steps(ctx, missing_kernels(have, program, rest));
        let after = after_steps(ctx, missing_kernels(have, program, kernels));
        if !have.contains((program, kernels.last())) {
            let steps = missing_kernels(have, program, kernels);
            assert(steps.drop_last() =~= missing_kernels(have, program, rest));
            assert(after == after_step(before, steps.last()));
        }
        assert forall|i: int| 0 <= i < kernels.len() implies have.contains(
            (program, #[trigger] kernels[i]),
        ) || after.kernels.contains((program, kernels[i])) by {
            if i < rest.len() {
                assert(rest[i] == kernels[i]);
            }
        }
    }
}

/// Where the device has all of `kernels`, none is missing.
proof fn lemma_no_kernel_missing(have: Set<(Program, Kernel)>, program: Program, kernels: Seq<Kernel>)
    requires
        forall|i: int| 0 <= i < kernels.len() ==> have.contains((program, #[trigger] kernels[i])),
    ensures
        missing_kernels(have, program, kernels) == Seq::<Compilation>::empty(),
    decreases kernels.len(),
{
    if kernels.len() > 0 {
        let rest = kernels.drop_last();
        assert forall|i: int| 0 <= i < rest.len() implies have.contains(
            (program, #[trigger] rest[i]),
        ) by {
            assert(rest[i] == kernels[i]);
        }
        lemma_no_kernel_missing(have, program, rest);
        assert(kernels.last() == kernels[kernels.len() - 1]);
    }
}

/// Once the device has carried out the steps that were missing for a
/// program, it has the program and each of its entry points, it has lost
/// nothing that it had, and no step is missing any more: a program is
/// compiled once, however many layers share it.
pub proof fn lemma_missing_steps_complete(ctx: ContextView, program: Program, kernels: Seq<Kernel>)
    ensures
        ({
            let after = after_steps(ctx, missing_steps(ctx, program, kernels));
            &&& after.programs.contains(program)
            &&& forall|i: int|
                0 <= i < kernels.len() ==> after.kernels.contains((program, #[trigger] kernels[i]))
            &&& ctx.programs.subset_of(after.programs)
            &&& ctx.kernels.subset_of(after.kernels)
            &&& after.queues == ctx.queues
            &&& after.next_buffer == ctx.next_buffer
            &&& missing_steps(after, program, kernels) == Seq::<Compilation>::empty()
        }),
{
    let create = missing_kernels(ctx.kernels, program, kernels);
    let built = if ctx.programs.contains(program) {
        ctx
    } else {
        after_step(ctx, Compilation::BuildProgram { program })
    };
    if ctx.programs.contains(program) {
        assert(missing_steps(ctx, program, kernels) =~= create);
    } else {
        let build = seq![Compilation::BuildProgram { program }];
        assert(build.drop_last() =~= Seq::<Compilation>::empty());
        assert(after_steps(ctx, build.drop_last()) == ctx);
        assert(build.last() == Compilation::BuildProgram { program });
        assert(after_steps(ctx, build) == built);
        lemma_after_steps_concat(ctx, build, create);
    }
    lemma_after_missing_kernels(built, ctx.kernels, program, kernels);
    let after = after_steps(ctx, missing_steps(ctx, program, kernels));
    assert(after == after_steps(built, create));
    lemma_no_kernel_missing(after.kernels, program, kernels);
    assert(missing_steps(after, program, kernels) =~= Seq::<Compilation>::empty());
}

/// Carrying out one list of steps after another is carrying out both
/// together.
pub proof fn lemma_after_steps_concat(ctx: ContextView, first: Seq<Compilation>, then: Seq<
    Compilation,
>)
    ensures
        after_steps(ctx, first + then) == after_steps(after_steps(ctx, first), then),
    decreases then.len(),
{
    if then.len() == 0 {
        assert(first + then =~= first);
    } else {
        assert((first + then).drop_last() =~= first + then.drop_last());
        lemma_after_steps_concat(ctx, first, then.drop_last());
    }
}

/// The compute context: the device's queues, its registry of compiled
/// programs, and the source of buffer handles.
#[derive(Debug)]
pub struct ComputeContext {
    queues: usize,
    next_buffer: u64,
    programs: Vec<Program>,
    kernels: Vec<(Program, Kernel)>,
}

impl View for ComputeContext {
    type V = ContextView;

    closed spec fn view(&self) -> ContextView {
        ContextView {
            queues: self.queues as nat,
            next_buffer: self.next_buffer as nat,
            programs: self.programs@.to_set(),
            kernels: self.kernels@.to_set(),
        }
    }
}

impl ComputeContext {
    /// A context with `queues` command queues on a device that has compiled
    /// nothing and holds no buffer.
    pub fn new(queues: usize) -> (ctx: ComputeContext)
        ensures
            ctx@ == (ContextView {
                queues: queues as nat,
                next_buffer: 0,
                programs: Set::empty(),
                kernels: Set::empty(),
            }),
    {
        let ctx = ComputeContext {
            queues,
            next_buffer: 0,
            programs: Vec::new(),
            kernels: Vec::new(),
        };
        assert(ctx.programs@.to_set() =~= Set::empty());
        assert(ctx.kernels@.to_set() =~= Set::empty());
        ctx
    }

    /// The number of command queues.
    pub fn queues(&self) -> (n: usize)
        ensures
            n == self@.queues,
    {
        self.queues
    }

    /// Whether the device has compiled `program`.
    pub fn has_program(&self, program: Program) -> (found: bool)
        ensures
            found == self@.programs.contains(program),
    {
        let mut i: usize = 0;
        while i < self.programs.len()
            invariant
                i <= self.programs.len(),
                forall|k: int| 0 <= k < i ==> self.programs@[k] != program,
            decreases self.programs.len() - i,
        {
            if self.programs[i] == program {
                return true;
            }
            i += 1;
        }
        false
    }

    /// Whether the device has created entry point `kernel` of `program`.
    pub fn has_kernel(&self, program: Program, kernel: Kernel) -> (found: bool)
        ensures
            found == self@.kernels.contains((program, kernel)),
    {
        let mut i: usize = 0;
        while i < self.kernels.len()
            invariant
                i <= self.kernels.len(),
                forall|k: int| 0 <= k < i ==> self.kernels@[k] != (program, kernel),
            decreases self.kernels.len() - i,
        {
            if self.kernels[i].0 == program && self.kernels[i].1 == kernel {
                return true;
            }
            i += 1;
        }
        false
    }

    /// Whether a handle is left for one more buffer.
    pub fn has_buffers_left(&self) -> (left: bool)
        ensures
            left == (self@.next_buffer < u64::MAX),
    {
        self.next_buffer < u64::MAX
    }

    /// Gives out the handle of a new buffer of `len` values. There is one
    /// exactly when a buffer of that length can exist and handles are left;
    /// it differs from every handle given out before.
    pub fn reserve_buffer(&mut self, len: usize) -> (buffer: Option<DeviceBuffer>)
        ensures
            buffer is Some <==> valid_buffer_len(len as int) && old(self)@.next_buffer < u64::MAX,
            buffer matches Some(b) ==> b == (DeviceBuffer {
                id: old(self)@.next_buffer as u64,
                len,
            }) && final(self)@ == after_reserving(old(self)@, 1),
            buffer is None ==> final(self)@ == old(self)@,
    {
        if len == 0 || len > buffer_len_limit() || self.next_buffer == u64::MAX {
            return None;
        }
        let id: u64 = self.next_buffer;
        self.next_buffer = id + 1;
        Some(DeviceBuffer { id, len })
    }

    /// Gives out the handles of new buffers of the lengths `lens`, all or
    /// none: there are handles exactly when a buffer of each length can
    /// exist and enough handles are left.
    pub fn reserve_buffers(&mut self, lens: &Vec<usize>) -> (buffers: Option<Vec<DeviceBuffer>>)
        ensures
            buffers is Some <==> valid_buffer_lens(lens@) && old(self)@.next_buffer + lens.len()
                <= u64::MAX,
            buffers matches Some(bs) ==> bs@ == reserved(old(self)@.next_buffer, lens@)
                && final(self)@ == after_reserving(old(self)@, lens.len() as nat),
            buffers is None ==> final(self)@ == old(self)@,
    {
        let limit: usize = buffer_len_limit();
        let mut i: usize = 0;
        while i < lens.len()
            invariant
                i <= lens.len(),
                limit == max_buffer_len(),
                forall|k: int| 0 <= k < i ==> valid_buffer_len(#[trigger] lens@[k] as int),
            decreases lens.len() - i,
        {
            if lens[i] == 0 || lens[i] > limit {
                return None;
            }
            i += 1;
        }
        if u64::MAX - self.next_buffer < lens.len() as u64 {
            return None;
        }
        let first: u64 = self.next_buffer;
        let mut buffers: Vec<DeviceBuffer> = Vec::new();
        let mut k: usize = 0;
        while k < lens.len()
            invariant
                k <= lens.len(),
                first + lens.len() <= u64::MAX,
                buffers@ == reserved(first as nat, lens@.take(k as int)),
            decreases lens.len() - k,
        {
            buffers.push(DeviceBuffer { id: first + k as u64, len: lens[k] });
            proof {
                assert(buffers@ =~= reserved(first as nat, lens@.take(k + 1)));
            }
            k += 1;
        }
        proof {
            assert(lens@.take(k as int) =~= lens@);
        }
        self.next_buffer = first + lens.len() as u64;
        Some(buffers)
    }

    /// Records that the device has carried out `step`.
    pub fn completed(&mut self, step: Compilation)
        ensures
            final(self)@ == after_step(old(self)@, step),
    {
        match step {
            Compilation::BuildProgram { program } => {
                proof {
                    self.programs@.lemma_push_to_set_commute(program);
                }
                self.programs.push(program);
            },
            Compilation::CreateKernel { program, kernel } => {
                proof {
                    self.kernels@.lemma_push_to_set_commute((program, kernel));
                }
                self.kernels.push((program, kernel));
            },
        }
    }

    /// The steps that are left to bring `program` with `kernels` onto the
    /// device. A program that is compiled is not built again, and an entry
    /// point that exists is not created again.
    pub fn ensure_program(&self, program: Program, kernels: &Vec<Kernel>) -> (steps: Vec<
        Compilation,
    >)
        ensures
            steps@ == missing_steps(self@, program, kernels@),
    {
        let mut steps: Vec<Compilation> = Vec::new();
        if !self.has_program(program) {
            steps.push(Compilation::BuildProgram { program });
        }
        let ghost build = steps@;
        let mut i: usize = 0;
        while i < kernels.len()
            invariant
                i <= kernels.len(),
                steps@ == build + missing_kernels(self@.kernels, program, kernels@.take(i as int)),
            decreases kernels.len() - i,
        {
            let kernel = kernels[i];
            proof {
                assert(kernels@.take(i + 1).drop_last() =~= kernels@.take(i as int));
            }
            if !self.has_kernel(program, kernel) {
                steps.push(Compilation::CreateKernel { program, kernel });
            }
            i += 1;
        }
        proof {
            assert(kernels@.take(i as int) =~= kernels@);
        }
        steps
    }
}

} // verus!
