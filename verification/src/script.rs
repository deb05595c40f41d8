//! The actions of a finished run, written out from the first to the last.

use vstd::prelude::*;
use crate::actions::{Action, Command, Fill, Location, Outcome, Pass, SHARED_MEMORY_NOTE};
use crate::job::JobView;
use crate::pipeline::{cleanup_pipeline, create_compute_pipeline};
use crate::run::{commands, lemma_next_filled, lemma_next_wf, next_filled, RunView, Stage};
use crate::run_laws::{run_after, trace};
use crate::vulkan::{DESCRIPTOR_STORAGE_BUFFER, LEVEL_PRIMARY, NO_FLAGS, QUERY_TIMESTAMP};
use crate::vulkan::{RESULT_64, USAGE_ONE_TIME_SUBMIT};

verus! {

/// The pipeline, and the set that its buffers will be written to.
pub open spec fn prepare(job: JobView) -> Seq<Action> {
    seq![Action::CreateSetLayout { bindings: job.buffers.len() as u32 }]
        + create_compute_pipeline(job) + seq![
        Action::CreateDescriptorPool {
            kind: DESCRIPTOR_STORAGE_BUFFER,
            max_sets: 1,
            max_descriptors: job.buffers.len() as u32,
        },
        Action::AllocateDescriptorSet,
    ]
}

/// A try for memory of the device that failed.
pub open spec fn failed_try(job: JobView, i: int) -> Seq<Action> {
    seq![
        Action::CreateBuffer { slot: i as usize, size: job.buffers[i].size },
        Action::AllocateMemory { slot: i as usize, location: Location::GpuOnly },
        Action::DestroyBuffer { slot: i as usize },
    ]
}

/// The failed try for buffer `i`, if there was one.
pub open spec fn first_try(job: JobView, fallen: Seq<bool>, i: int) -> Seq<Action> {
    if fallen[i] {
        failed_try(job, i)
    } else {
        Seq::empty()
    }
}

/// A buffer with memory behind it.
pub open spec fn make_buffer(job: JobView, fallen: Seq<bool>, i: int) -> Seq<Action> {
    seq![
        Action::CreateBuffer { slot: i as usize, size: job.buffers[i].size },
        Action::AllocateMemory {
            slot: i as usize,
            location: if job.buffers[i].device_local && !fallen[i] {
                Location::GpuOnly
            } else {
                Location::CpuToGpu
            },
        },
        Action::BindMemory { slot: i as usize },
    ]
}

/// The first `n` buffers.
pub open spec fn make_buffers(job: JobView, fallen: Seq<bool>, n: int) -> Seq<Action>
    decreases n,
{
    if n <= 0 {
        Seq::empty()
    } else {
        make_buffers(job, fallen, n - 1) + first_try(job, fallen, n - 1) + make_buffer(
            job,
            fallen,
            n - 1,
        )
    }
}

/// The user is told of shared memory.
pub open spec fn note(fallen: Seq<bool>) -> Seq<Action> {
    if fallen.contains(true) {
        seq![Action::NoteSharedMemory { text: SHARED_MEMORY_NOTE }]
    } else {
        Seq::empty()
    }
}

/// The contents of those of the first `n` buffers that the host fills.
pub open spec fn generate(job: JobView, n: int) -> Seq<Action>
    decreases n,
{
    if n <= 0 {
        Seq::empty()
    } else if job.buffers[n - 1].fill == Fill::Empty {
        generate(job, n - 1)
    } else {
        generate(job, n - 1).push(
            Action::Generate { slot: (n - 1) as usize, fill: job.buffers[n - 1].fill },
        )
    }
}

/// The copies into those of the first `n` buffers that the host fills.
pub open spec fn upload(job: JobView, n: int) -> Seq<Action>
    decreases n,
{
    if n <= 0 {
        Seq::empty()
    } else if job.buffers[n - 1].fill == Fill::Empty {
        upload(job, n - 1)
    } else {
        upload(job, n - 1).push(
            Action::Upload {
                slot: (n - 1) as usize,
                floats: job.buffers[n - 1].fill.count() as usize,
            },
        )
    }
}

/// What the passes need.
pub open spec fn equip(job: JobView) -> Seq<Action> {
    seq![
        Action::WriteDescriptorSet { count: job.buffers.len() as u32 },
        Action::AllocateCommandBuffer { level: LEVEL_PRIMARY, buffers: 1 },
        Action::CreateQueryPool { kind: QUERY_TIMESTAMP, count: 2 },
    ]
}

/// Commands, recorded one by one.
pub open spec fn record(list: Seq<Command>) -> Seq<Action> {
    Seq::new(list.len(), |i: int| Action::Record(list[i]))
}

/// Recording starts, for one submission.
pub open spec fn begin() -> Action {
    Action::BeginCommandBuffer { flags: USAGE_ONE_TIME_SUBMIT }
}

/// The command buffer is made ready for another recording.
pub open spec fn reset() -> Action {
    Action::ResetCommandBuffer { flags: NO_FLAGS }
}

/// Both timestamps are read.
pub open spec fn read_timestamps() -> Action {
    Action::ReadTimestamps { first: 0, count: 2, flags: RESULT_64 }
}

/// One submission, waited for.
pub open spec fn submit_and_wait() -> Seq<Action> {
    seq![
        Action::CreateFence { flags: NO_FLAGS },
        Action::Submit,
        Action::WaitForFence { all: true, timeout: u64::MAX },
        Action::DestroyFence,
    ]
}

/// One pass: recorded, submitted, waited for.
pub open spec fn pass_actions(job: JobView, pass: Pass) -> Seq<Action> {
    seq![begin()] + record(commands(job, pass)) + seq![Action::EndCommandBuffer]
        + submit_and_wait()
}

/// The first `n` buffers are destroyed.
pub open spec fn destroy_buffers(n: int) -> Seq<Action>
    decreases n,
{
    if n <= 0 {
        Seq::empty()
    } else {
        destroy_buffers(n - 1) + seq![
            Action::DestroyBuffer { slot: (n - 1) as usize },
            Action::FreeMemory { slot: (n - 1) as usize },
        ]
    }
}

/// The objects that only the passes needed are destroyed.
pub open spec fn unequip() -> Seq<Action> {
    seq![Action::DestroyQueryPool, Action::FreeCommandBuffer]
}

/// The objects that were created first are destroyed.
pub open spec fn dismantle() -> Seq<Action> {
    cleanup_pipeline() + seq![Action::DestroyDescriptorPool, Action::DestroySetLayout]
}

/// Up to the point where the buffers hold what the kernel will read.
pub open spec fn up_to_data(job: JobView, fallen: Seq<bool>) -> Seq<Action> {
    let n = job.buffers.len() as int;
    prepare(job) + make_buffers(job, fallen, n) + note(fallen)
}

/// Up to the point where the passes can start.
pub open spec fn up_to_passes(job: JobView, fallen: Seq<bool>) -> Seq<Action> {
    let n = job.buffers.len() as int;
    up_to_data(job, fallen) + generate(job, n) + upload(job, n)
}

/// Up to the point where both passes are over.
pub open spec fn up_to_result(job: JobView, fallen: Seq<bool>) -> Seq<Action> {
    up_to_passes(job, fallen) + equip(job) + pass_actions(job, Pass::Warmup) + seq![
        reset(),
    ] + pass_actions(job, Pass::Timed)
}

/// Up to the point where the buffers are destroyed.
pub open spec fn up_to_cleanup(job: JobView, fallen: Seq<bool>) -> Seq<Action> {
    up_to_result(job, fallen) + seq![read_timestamps()] + unequip()
}

/// All actions of a run in which the buffers of `fallen` had to settle for shared
/// memory.
pub open spec fn script(job: JobView, fallen: Seq<bool>) -> Seq<Action> {
    up_to_cleanup(job, fallen) + destroy_buffers(job.buffers.len() as int) + dismantle()
}

/// What comes before the passes of kind `pass`.
spec fn up_to_pass(job: JobView, fallen: Seq<bool>, pass: Pass) -> Seq<Action> {
    match pass {
        Pass::Warmup => up_to_passes(job, fallen) + equip(job),
        Pass::Timed => up_to_passes(job, fallen) + equip(job) + pass_actions(job, Pass::Warmup)
            + seq![reset()],
    }
}

/// A pass up to the `k`th action of its submission.
spec fn pass_until(job: JobView, fallen: Seq<bool>, pass: Pass, k: int) -> Seq<Action> {
    up_to_pass(job, fallen, pass) + (seq![begin()] + record(commands(job, pass)) + seq![
        Action::EndCommandBuffer,
    ] + submit_and_wait().take(k))
}

/// The actions that a run has asked for when it stands where `run` does.
spec fn asked(run: RunView) -> Seq<Action> {
    let job = run.job;
    let fallen = run.fallen;
    let n = job.buffers.len() as int;
    match run.stage {
        Stage::SetLayout => prepare(job).take(0),
        Stage::ShaderModule => prepare(job).take(1),
        Stage::PipelineLayout => prepare(job).take(2),
        Stage::Pipeline => prepare(job).take(3),
        Stage::DropShaderModule => prepare(job).take(4),
        Stage::DescriptorPool => prepare(job).take(5),
        Stage::DescriptorSet => prepare(job).take(6),
        Stage::CreateBuffer(i) => prepare(job) + make_buffers(job, fallen, i as int) + first_try(
            job,
            fallen,
            i as int,
        ),
        Stage::Allocate(i) => prepare(job) + make_buffers(job, fallen, i as int) + first_try(
            job,
            fallen,
            i as int,
        ) + make_buffer(job, fallen, i as int).take(1),
        Stage::Discard(i) => prepare(job) + make_buffers(job, fallen, i as int) + failed_try(
            job,
            i as int,
        ).take(2),
        Stage::Bind(i) => prepare(job) + make_buffers(job, fallen, i as int) + first_try(
            job,
            fallen,
            i as int,
        ) + make_buffer(job, fallen, i as int).take(2),
        Stage::Note => prepare(job) + make_buffers(job, fallen, n),
        Stage::Generate(i) => up_to_data(job, fallen) + generate(job, i as int),
        Stage::Upload(i) => up_to_data(job, fallen) + generate(job, n) + upload(job, i as int),
        Stage::WriteSet => up_to_passes(job, fallen) + equip(job).take(0),
        Stage::CommandBuffer => up_to_passes(job, fallen) + equip(job).take(1),
        Stage::QueryPool => up_to_passes(job, fallen) + equip(job).take(2),
        Stage::Begin(pass) => up_to_pass(job, fallen, pass),
        Stage::Record(pass, i) => up_to_pass(job, fallen, pass) + (seq![begin()] + record(
            commands(job, pass),
        ).take(i as int)),
        Stage::End(pass) => up_to_pass(job, fallen, pass) + (seq![begin()] + record(
            commands(job, pass),
        )),
        Stage::Fence(pass) => pass_until(job, fallen, pass, 0),
        Stage::Submit(pass) => pass_until(job, fallen, pass, 1),
        Stage::Wait(pass) => pass_until(job, fallen, pass, 2),
        Stage::DropFence(pass) => pass_until(job, fallen, pass, 3),
        Stage::ResetCommands => up_to_passes(job, fallen) + equip(job) + pass_actions(
            job,
            Pass::Warmup,
        ),
        Stage::Timestamps => up_to_result(job, fallen),
        Stage::DropQueryPool => up_to_result(job, fallen) + seq![
            read_timestamps(),
        ],
        Stage::FreeCommands => up_to_result(job, fallen) + seq![
            read_timestamps(),
        ] + unequip().take(1),
        Stage::DropBuffer(i) => up_to_cleanup(job, fallen) + destroy_buffers(i as int),
        Stage::FreeMemory(i) => up_to_cleanup(job, fallen) + destroy_buffers(i as int) + seq![
            Action::DestroyBuffer { slot: i },
        ],
        Stage::DropPipeline => up_to_cleanup(job, fallen) + destroy_buffers(n)
            + dismantle().take(0),
        Stage::DropPipelineLayout => up_to_cleanup(job, fallen) + destroy_buffers(n)
            + dismantle().take(1),
        Stage::DropDescriptorPool => up_to_cleanup(job, fallen) + destroy_buffers(n)
            + dismantle().take(2),
        Stage::DropSetLayout => up_to_cleanup(job, fallen) + destroy_buffers(n)
            + dismantle().take(3),
        Stage::Finished => script(job, fallen),
    }
}

/// One more element of `b` behind `a`.
proof fn lemma_take_push(a: Seq<Action>, b: Seq<Action>, k: int)
    requires
        0 <= k < b.len(),
    ensures
        (a + b.take(k)).push(b[k]) == a + b.take(k + 1),
        a + b.take(0) == a,
        k + 1 == b.len() ==> a + b.take(k + 1) == a + b,
{
    assert((a + b.take(k)).push(b[k]) =~= a + b.take(k + 1));
    assert(a + b.take(0) =~= a);
    assert(b.take(b.len() as int) =~= b);
}

/// The first buffers do not depend on what becomes of the later ones.
proof fn lemma_make_buffers_same(job: JobView, f: Seq<bool>, g: Seq<bool>, n: int)
    requires
        forall|j: int| 0 <= j < n ==> f[j] == g[j],
    ensures
        make_buffers(job, f, n) == make_buffers(job, g, n),
    decreases n,
{
    if n > 0 {
        lemma_make_buffers_same(job, f, g, n - 1);
    }
}

/// Buffers that the host does not fill add nothing.
proof fn lemma_skip(job: JobView, i: int, j: int)
    requires
        0 <= i <= j <= job.buffers.len(),
        forall|k: int| i <= k < j ==> (#[trigger] job.buffers[k]).fill == Fill::Empty,
    ensures
        generate(job, i) == generate(job, j),
        upload(job, i) == upload(job, j),
    decreases j - i,
{
    if i < j {
        lemma_skip(job, i, j - 1);
    }
}

spec fn asked_in_step(run: RunView, outcome: Outcome) -> bool {
    asked(run.next(outcome)->Ok_0) == asked(run).push(run.action())
}

/// Where the buffers come from nothing but their fills.
proof fn lemma_asked_at_data(run: RunView, i: int)
    requires
        run.wf(),
        0 <= i <= run.job.buffers.len(),
    ensures
        asked(RunView { stage: run.data_from(i), ..run }) == up_to_data(run.job, run.fallen)
            + generate(run.job, i),
        asked(RunView { stage: run.uploads_from(i), ..run }) == up_to_data(run.job, run.fallen)
            + generate(run.job, run.job.buffers.len() as int) + upload(run.job, i),
{
    let job = run.job;
    let n = job.buffers.len() as int;
    let base = up_to_data(job, run.fallen);
    lemma_next_filled(job.buffers, i);
    lemma_next_filled(job.buffers, 0);
    match next_filled(job.buffers, i) {
        Some(j) => lemma_skip(job, i, j),
        None => {
            lemma_skip(job, i, n);
            match next_filled(job.buffers, 0) {
                Some(j) => {
                    lemma_skip(job, 0, j);
                    assert(base + generate(job, n) + upload(job, 0) =~= base + generate(job, n));
                },
                None => {
                    lemma_skip(job, 0, n);
                    assert(base + generate(job, n) + upload(job, n) =~= base + generate(job, n));
                },
            }
            assert(up_to_passes(job, run.fallen) + equip(job).take(0) =~= up_to_passes(
                job,
                run.fallen,
            ));
        },
    }
}

proof fn lemma_asked_prepare(run: RunView, outcome: Outcome)
    requires
        run.wf(),
        run.next(outcome) is Ok,
        run.stage is SetLayout || run.stage is ShaderModule || run.stage is PipelineLayout
            || run.stage is Pipeline || run.stage is DropShaderModule
            || run.stage is DescriptorPool,
    ensures
        asked_in_step(run, outcome),
{
    let all = prepare(run.job);
    assert(all.take(1) =~= all.take(0).push(all[0]));
    assert(all.take(2) =~= all.take(1).push(all[1]));
    assert(all.take(3) =~= all.take(2).push(all[2]));
    assert(all.take(4) =~= all.take(3).push(all[3]));
    assert(all.take(5) =~= all.take(4).push(all[4]));
    assert(all.take(6) =~= all.take(5).push(all[5]));
}

/// With `i` buffers made, the next buffer is due, or the data.
proof fn lemma_asked_at_buffers(run: RunView, i: int)
    requires
        run.wf(),
        0 <= i <= run.job.buffers.len(),
        i < run.job.buffers.len() ==> !run.fallen[i],
    ensures
        asked(RunView { stage: run.buffers_from(i), ..run }) == prepare(run.job) + make_buffers(
            run.job,
            run.fallen,
            i,
        ),
{
    let job = run.job;
    let done = prepare(job) + make_buffers(job, run.fallen, i);
    if i < job.buffers.len() {
        assert(done + first_try(job, run.fallen, i) =~= done);
    } else if !run.fallen.contains(true) {
        lemma_asked_at_data(run, 0);
        assert(done + note(run.fallen) =~= done);
        assert(up_to_data(job, run.fallen) + generate(job, 0) =~= done);
    }
}

proof fn lemma_asked_buffers(run: RunView, outcome: Outcome)
    requires
        run.wf(),
        run.next(outcome) is Ok,
        run.stage is DescriptorSet || run.stage is CreateBuffer || run.stage is Allocate
            || run.stage is Discard || run.stage is Bind,
    ensures
        asked_in_step(run, outcome),
{
    let job = run.job;
    let fallen = run.fallen;
    let next = run.next(outcome)->Ok_0;
    match run.stage {
        Stage::DescriptorSet => {
            lemma_asked_at_buffers(run, 0);
            let all = prepare(job);
            assert(all + make_buffers(job, fallen, 0) =~= all.take(6).push(all[6]));
        },
        Stage::CreateBuffer(i) => {
            lemma_take_push(
                prepare(job) + make_buffers(job, fallen, i as int) + first_try(
                    job,
                    fallen,
                    i as int,
                ),
                make_buffer(job, fallen, i as int),
                0,
            );
        },
        Stage::Allocate(i) => {
            let made = prepare(job) + make_buffers(job, fallen, i as int);
            if outcome == Outcome::Done {
                lemma_take_push(
                    made + first_try(job, fallen, i as int),
                    make_buffer(job, fallen, i as int),
                    1,
                );
            } else {
                lemma_make_buffers_same(job, fallen, next.fallen, i as int);
                lemma_take_push(made, failed_try(job, i as int), 1);
                assert(made + first_try(job, fallen, i as int) =~= made);
                assert(make_buffer(job, fallen, i as int).take(1) =~= failed_try(
                    job,
                    i as int,
                ).take(1));
            }
        },
        Stage::Discard(i) => {
            lemma_take_push(
                prepare(job) + make_buffers(job, fallen, i as int),
                failed_try(job, i as int),
                2,
            );
        },
        Stage::Bind(i) => {
            let tried = prepare(job) + make_buffers(job, fallen, i as int) + first_try(
                job,
                fallen,
                i as int,
            );
            lemma_asked_at_buffers(run, i + 1);
            lemma_take_push(tried, make_buffer(job, fallen, i as int), 2);
            assert(tried + make_buffer(job, fallen, i as int) =~= prepare(job) + make_buffers(
                job,
                fallen,
                i + 1,
            ));
        },
        _ => {},
    }
}

proof fn lemma_asked_data(run: RunView, outcome: Outcome)
    requires
        run.wf(),
        run.next(outcome) is Ok,
        run.stage is Note || run.stage is Generate || run.stage is Upload,
    ensures
        asked_in_step(run, outcome),
{
    let job = run.job;
    let base = up_to_data(job, run.fallen);
    let n = job.buffers.len() as int;
    match run.stage {
        Stage::Note => {
            lemma_asked_at_data(run, 0);
            assert(base + generate(job, 0) =~= (prepare(job) + make_buffers(
                job,
                run.fallen,
                n,
            )).push(Action::NoteSharedMemory { text: SHARED_MEMORY_NOTE }));
        },
        Stage::Generate(i) => {
            lemma_asked_at_data(run, i + 1);
            assert(base + generate(job, i + 1) =~= (base + generate(job, i as int)).push(
                run.action(),
            ));
        },
        Stage::Upload(i) => {
            lemma_asked_at_data(run, i + 1);
            let filled = base + generate(job, n);
            assert(filled + upload(job, i + 1) =~= (filled + upload(job, i as int)).push(
                run.action(),
            ));
        },
        _ => {},
    }
}

proof fn lemma_asked_equip(run: RunView, outcome: Outcome)
    requires
        run.wf(),
        run.next(outcome) is Ok,
        run.stage is WriteSet || run.stage is CommandBuffer || run.stage is QueryPool,
    ensures
        asked_in_step(run, outcome),
{
    let base = up_to_passes(run.job, run.fallen);
    let all = equip(run.job);
    lemma_take_push(base, all, 0);
    lemma_take_push(base, all, 1);
    lemma_take_push(base, all, 2);
}

proof fn lemma_asked_pass(run: RunView, outcome: Outcome, pass: Pass)
    requires
        run.wf(),
        run.next(outcome) is Ok,
        ({
            ||| run.stage == Stage::Begin(pass)
            ||| run.stage matches Stage::Record(p, _) && p == pass
            ||| run.stage == Stage::End(pass)
            ||| run.stage == Stage::Fence(pass)
            ||| run.stage == Stage::Submit(pass)
            ||| run.stage == Stage::Wait(pass)
            ||| run.stage == Stage::DropFence(pass)
        }),
    ensures
        asked_in_step(run, outcome),
{
    let job = run.job;
    let base = up_to_pass(job, run.fallen, pass);
    let start = seq![begin()];
    let recorded = record(commands(job, pass));
    let ended = start + recorded + seq![Action::EndCommandBuffer];
    let tail = submit_and_wait();
    match run.stage {
        Stage::Begin(_) => {
            assert(base + (start + recorded.take(0)) =~= base.push(begin()));
        },
        Stage::Record(_, i) => {
            assert(base + (start + recorded.take(i + 1)) =~= (base + (start + recorded.take(
                i as int,
            ))).push(recorded[i as int]));
            if i + 1 == recorded.len() {
                assert(recorded.take(i + 1) =~= recorded);
            }
        },
        Stage::End(_) => {
            assert(base + (ended + tail.take(0)) =~= (base + (start + recorded)).push(
                Action::EndCommandBuffer,
            ));
        },
        _ => {
            let k: int = match run.stage {
                Stage::Fence(_) => 0,
                Stage::Submit(_) => 1,
                Stage::Wait(_) => 2,
                _ => 3,
            };
            lemma_take_push(ended, tail, k);
            assert(base + (ended + tail.take(k + 1)) =~= (base + (ended + tail.take(k))).push(
                tail[k],
            ));
        },
    }
}

proof fn lemma_asked_cleanup(run: RunView, outcome: Outcome)
    requires
        run.wf(),
        run.next(outcome) is Ok,
        run.stage is ResetCommands || run.stage is Timestamps || run.stage is DropQueryPool
            || run.stage is FreeCommands,
    ensures
        asked_in_step(run, outcome),
{
    let job = run.job;
    let base = up_to_result(job, run.fallen) + seq![read_timestamps()];
    match run.stage {
        Stage::ResetCommands => {
            let before = up_to_passes(job, run.fallen) + equip(job) + pass_actions(
                job,
                Pass::Warmup,
            );
            assert(before + seq![reset()] =~= before.push(reset()));
        },
        Stage::Timestamps => {
            assert(base =~= up_to_result(job, run.fallen).push(read_timestamps()));
        },
        Stage::DropQueryPool => {
            lemma_take_push(base, unequip(), 0);
        },
        _ => {
            lemma_take_push(base, unequip(), 1);
            let done = up_to_cleanup(job, run.fallen);
            assert(done + destroy_buffers(0) =~= done);
            assert(done + destroy_buffers(0) + dismantle().take(0) =~= done);
        },
    }
}

proof fn lemma_asked_destroy(run: RunView, outcome: Outcome)
    requires
        run.wf(),
        run.next(outcome) is Ok,
        run.stage is DropBuffer || run.stage is FreeMemory || run.stage is DropPipeline
            || run.stage is DropPipelineLayout || run.stage is DropDescriptorPool
            || run.stage is DropSetLayout,
    ensures
        asked_in_step(run, outcome),
{
    let job = run.job;
    let n = job.buffers.len() as int;
    let done = up_to_cleanup(job, run.fallen);
    let all = done + destroy_buffers(n);
    match run.stage {
        Stage::DropBuffer(i) => {
            let some = done + destroy_buffers(i as int);
            assert(some + seq![Action::DestroyBuffer { slot: i }] =~= some.push(
                Action::DestroyBuffer { slot: i },
            ));
        },
        Stage::FreeMemory(i) => {
            let some = done + destroy_buffers(i as int) + seq![Action::DestroyBuffer { slot: i }];
            assert(done + destroy_buffers(i + 1) =~= some.push(Action::FreeMemory { slot: i }));
            assert(all + dismantle().take(0) =~= all);
        },
        _ => {
            lemma_take_push(all, dismantle(), 0);
            lemma_take_push(all, dismantle(), 1);
            lemma_take_push(all, dismantle(), 2);
            lemma_take_push(all, dismantle(), 3);
        },
    }
}

proof fn lemma_asked_step(run: RunView, outcome: Outcome)
    requires
        run.wf(),
        run.next(outcome) is Ok,
    ensures
        asked_in_step(run, outcome),
{
    match run.stage {
        Stage::SetLayout
        | Stage::ShaderModule
        | Stage::PipelineLayout
        | Stage::Pipeline
        | Stage::DropShaderModule
        | Stage::DescriptorPool => lemma_asked_prepare(run, outcome),
        Stage::DescriptorSet
        | Stage::CreateBuffer(_)
        | Stage::Allocate(_)
        | Stage::Discard(_)
        | Stage::Bind(_) => lemma_asked_buffers(run, outcome),
        Stage::Note | Stage::Generate(_) | Stage::Upload(_) => lemma_asked_data(run, outcome),
        Stage::WriteSet | Stage::CommandBuffer | Stage::QueryPool => lemma_asked_equip(
            run,
            outcome,
        ),
        Stage::Begin(pass) => lemma_asked_pass(run, outcome, pass),
        Stage::Record(pass, _) => lemma_asked_pass(run, outcome, pass),
        Stage::End(pass) => lemma_asked_pass(run, outcome, pass),
        Stage::Fence(pass) => lemma_asked_pass(run, outcome, pass),
        Stage::Submit(pass) => lemma_asked_pass(run, outcome, pass),
        Stage::Wait(pass) => lemma_asked_pass(run, outcome, pass),
        Stage::DropFence(pass) => lemma_asked_pass(run, outcome, pass),
        Stage::ResetCommands
        | Stage::Timestamps
        | Stage::DropQueryPool
        | Stage::FreeCommands => lemma_asked_cleanup(run, outcome),
        _ => lemma_asked_destroy(run, outcome),
    }
}

proof fn lemma_trace_is_asked(job: JobView, outcomes: Seq<Outcome>)
    requires
        job.wf(),
        run_after(job, outcomes) is Some,
    ensures
        run_after(job, outcomes)->0.wf(),
        run_after(job, outcomes)->0.job == job,
        trace(job, outcomes) == asked(run_after(job, outcomes)->0),
    decreases outcomes.len(),
{
    if outcomes.len() == 0 {
        assert(prepare(job).take(0) =~= Seq::empty());
    } else {
        let earlier = outcomes.drop_last();
        lemma_trace_is_asked(job, earlier);
        let run = run_after(job, earlier)->0;
        lemma_next_wf(run, outcomes.last());
        lemma_asked_step(run, outcomes.last());
    }
}

/// A finished run has asked for the actions of its script, in that order, and for
/// nothing else. The script depends on the device's answers only by the buffers for
/// which it had no memory of its own.
pub proof fn law_finished_run_followed_the_script(job: JobView, outcomes: Seq<Outcome>)
    requires
        job.wf(),
        run_after(job, outcomes) is Some,
        run_after(job, outcomes)->0.stage == Stage::Finished,
    ensures
        trace(job, outcomes) == script(job, run_after(job, outcomes)->0.fallen),
{
    lemma_trace_is_asked(job, outcomes);
}

} // verus!
