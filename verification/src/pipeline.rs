//! Pipelines beside other pipelines: what is alive on a device that several benchmarks
//! may be using.

use vstd::prelude::*;
use crate::actions::{Action, Outcome, ENTRY_POINT};
use crate::job::JobView;
use crate::run::{lemma_next_wf, RunView, Stage};
use crate::run_laws::{phase, run_after, trace};
use crate::vulkan::STAGE_COMPUTE;

verus! {

/// A compute pipeline is created. The shader module is not needed once it stands.
pub open spec fn create_compute_pipeline(job: JobView) -> Seq<Action> {
    seq![
        Action::CreateShaderModule { shader: job.shader },
        Action::CreatePipelineLayout {
            stages: STAGE_COMPUTE,
            push_offset: 0,
            push_size: job.push_size() as u32,
        },
        Action::CreatePipeline { stage: STAGE_COMPUTE, entry: ENTRY_POINT },
        Action::DestroyShaderModule,
    ]
}

/// A compute pipeline is destroyed, and after it its layout. The layout of the
/// descriptor set is not the pipeline's own.
pub open spec fn cleanup_pipeline() -> Seq<Action> {
    seq![Action::DestroyPipeline, Action::DestroyPipelineLayout]
}

/// The objects that the actions of one benchmark speak of.
pub struct Handles {
    pub set_layout: nat,
    pub module: nat,
    pub pipeline_layout: nat,
    pub pipeline: nat,
}

/// An action, and whose objects it is about.
pub struct Call {
    pub action: Action,
    pub of: Handles,
}

/// Actions on the objects of one benchmark.
pub open spec fn calls(actions: Seq<Action>, of: Handles) -> Seq<Call> {
    actions.map_values(|action: Action| Call { action, of })
}

impl Call {
    /// None of the objects of `other` is created, used or destroyed, except that its set
    /// layout may be used.
    pub open spec fn spares(self, other: Handles) -> bool {
        match self.action {
            Action::CreateSetLayout { .. } => self.of.set_layout != other.set_layout,
            Action::DestroySetLayout => self.of.set_layout != other.set_layout,
            Action::CreateShaderModule { .. } => self.of.module != other.module,
            Action::DestroyShaderModule => self.of.module != other.module,
            Action::CreatePipelineLayout { .. } => self.of.pipeline_layout
                != other.pipeline_layout,
            Action::DestroyPipelineLayout => self.of.pipeline_layout != other.pipeline_layout,
            Action::CreatePipeline { .. } => {
                &&& self.of.module != other.module
                &&& self.of.pipeline_layout != other.pipeline_layout
                &&& self.of.pipeline != other.pipeline
            },
            Action::DestroyPipeline => self.of.pipeline != other.pipeline,
            _ => true,
        }
    }
}

/// The objects that are alive.
#[verifier::ext_equal]
pub struct Live {
    pub set_layouts: Set<nat>,
    pub modules: Set<nat>,
    pub pipeline_layouts: Set<nat>,
    pub pipelines: Set<nat>,
}

impl Live {
    /// What the call uses or destroys is alive, and what it creates is not yet.
    pub open spec fn legal(self, call: Call) -> bool {
        let of = call.of;
        match call.action {
            Action::CreateSetLayout { .. } => !self.set_layouts.contains(of.set_layout),
            Action::DestroySetLayout => self.set_layouts.contains(of.set_layout),
            Action::CreateShaderModule { .. } => !self.modules.contains(of.module),
            Action::DestroyShaderModule => self.modules.contains(of.module),
            Action::CreatePipelineLayout { .. } => {
                &&& self.set_layouts.contains(of.set_layout)
                &&& !self.pipeline_layouts.contains(of.pipeline_layout)
            },
            Action::DestroyPipelineLayout => self.pipeline_layouts.contains(of.pipeline_layout),
            Action::CreatePipeline { .. } => {
                &&& self.modules.contains(of.module)
                &&& self.pipeline_layouts.contains(of.pipeline_layout)
                &&& !self.pipelines.contains(of.pipeline)
            },
            Action::DestroyPipeline => self.pipelines.contains(of.pipeline),
            _ => true,
        }
    }

    /// What is alive after the call.
    pub open spec fn after(self, call: Call) -> Live {
        let of = call.of;
        match call.action {
            Action::CreateSetLayout { .. } => Live {
                set_layouts: self.set_layouts.insert(of.set_layout),
                ..self
            },
            Action::DestroySetLayout => Live {
                set_layouts: self.set_layouts.remove(of.set_layout),
                ..self
            },
            Action::CreateShaderModule { .. } => Live {
                modules: self.modules.insert(of.module),
                ..self
            },
            Action::DestroyShaderModule => Live {
                modules: self.modules.remove(of.module),
                ..self
            },
            Action::CreatePipelineLayout { .. } => Live {
                pipeline_layouts: self.pipeline_layouts.insert(of.pipeline_layout),
                ..self
            },
            Action::DestroyPipelineLayout => Live {
                pipeline_layouts: self.pipeline_layouts.remove(of.pipeline_layout),
                ..self
            },
            Action::CreatePipeline { .. } => Live {
                pipelines: self.pipelines.insert(of.pipeline),
                ..self
            },
            Action::DestroyPipeline => Live {
                pipelines: self.pipelines.remove(of.pipeline),
                ..self
            },
            _ => self,
        }
    }

    /// What is alive after the calls.
    pub open spec fn after_all(self, list: Seq<Call>) -> Live
        decreases list.len(),
    {
        if list.len() == 0 {
            self
        } else {
            self.after_all(list.drop_last()).after(list.last())
        }
    }

    /// Each call is legal after those before it.
    pub open spec fn accepts(self, list: Seq<Call>) -> bool
        decreases list.len(),
    {
        list.len() > 0 ==> {
            &&& self.accepts(list.drop_last())
            &&& self.after_all(list.drop_last()).legal(list.last())
        }
    }

    /// A pipeline of `of` and its layout are alive besides.
    pub open spec fn with_pipeline(self, of: Handles) -> Live {
        Live {
            pipeline_layouts: self.pipeline_layouts.insert(of.pipeline_layout),
            pipelines: self.pipelines.insert(of.pipeline),
            ..self
        }
    }

    /// No module, pipeline or pipeline layout of `of` is alive.
    pub open spec fn lacks_pipeline(self, of: Handles) -> bool {
        &&& !self.modules.contains(of.module)
        &&& !self.pipeline_layouts.contains(of.pipeline_layout)
        &&& !self.pipelines.contains(of.pipeline)
    }
}

proof fn lemma_push(live: Live, list: Seq<Call>, call: Call)
    ensures
        live.after_all(list.push(call)) == live.after_all(list).after(call),
        live.accepts(list.push(call)) == (live.accepts(list) && live.after_all(list).legal(call)),
{
    assert(list.push(call).drop_last() =~= list);
}

proof fn lemma_append(live: Live, first: Seq<Call>, second: Seq<Call>)
    ensures
        live.after_all(first + second) == live.after_all(first).after_all(second),
        live.accepts(first + second) == (live.accepts(first) && live.after_all(first).accepts(
            second,
        )),
    decreases second.len(),
{
    if second.len() == 0 {
        assert(first + second =~= first);
    } else {
        let rest = second.drop_last();
        lemma_append(live, first, rest);
        assert((first + second).drop_last() =~= first + rest);
        assert((first + second).last() == second.last());
    }
}

/// The pipeline and its layout are what remains of creating a pipeline.
proof fn lemma_create(live: Live, job: JobView, of: Handles)
    requires
        live.set_layouts.contains(of.set_layout),
        live.lacks_pipeline(of),
    ensures
        live.accepts(calls(create_compute_pipeline(job), of)),
        live.after_all(calls(create_compute_pipeline(job), of)) == live.with_pipeline(of),
{
    let all = create_compute_pipeline(job);
    let none: Seq<Call> = Seq::empty();
    let c0 = Call { action: all[0], of };
    let c1 = Call { action: all[1], of };
    let c2 = Call { action: all[2], of };
    let c3 = Call { action: all[3], of };
    lemma_push(live, none, c0);
    lemma_push(live, none.push(c0), c1);
    lemma_push(live, none.push(c0).push(c1), c2);
    lemma_push(live, none.push(c0).push(c1).push(c2), c3);
    assert(calls(all, of) =~= none.push(c0).push(c1).push(c2).push(c3));
    assert(live.modules.insert(of.module).remove(of.module) =~= live.modules);
    assert(live.after_all(calls(all, of)) =~= live.with_pipeline(of));
}

proof fn lemma_cleanup(live: Live, of: Handles)
    requires
        live.lacks_pipeline(of),
    ensures
        live.with_pipeline(of).accepts(calls(cleanup_pipeline(), of)),
        live.with_pipeline(of).after_all(calls(cleanup_pipeline(), of)) == live,
{
    let all = cleanup_pipeline();
    let none: Seq<Call> = Seq::empty();
    let c0 = Call { action: all[0], of };
    let c1 = Call { action: all[1], of };
    let start = live.with_pipeline(of);
    lemma_push(start, none, c0);
    lemma_push(start, none.push(c0), c1);
    assert(calls(all, of) =~= none.push(c0).push(c1));
    assert(start.after_all(calls(all, of)) =~= live);
}

/// Calls that spare a pipeline do the same whether or not it is alive.
proof fn lemma_spared(live: Live, list: Seq<Call>, of: Handles)
    requires
        live.set_layouts.contains(of.set_layout),
        live.lacks_pipeline(of),
        live.accepts(list),
        forall|i: int| 0 <= i < list.len() ==> (#[trigger] list[i]).spares(of),
    ensures
        live.after_all(list).set_layouts.contains(of.set_layout),
        live.after_all(list).lacks_pipeline(of),
        live.with_pipeline(of).accepts(list),
        live.with_pipeline(of).after_all(list) == live.after_all(list).with_pipeline(of),
    decreases list.len(),
{
    if list.len() > 0 {
        let rest = list.drop_last();
        assert(forall|i: int| 0 <= i < rest.len() ==> #[trigger] rest[i] == list[i]);
        lemma_spared(live, rest, of);
        let call = list.last();
        assert(call == list[list.len() - 1]);
        assert(live.after_all(rest).with_pipeline(of).after(call) =~= live.after_all(rest).after(
            call,
        ).with_pipeline(of));
    }
}

/// Destroying a pipeline undoes its creation. Whatever else is done in between with
/// other pipelines, in the end the live objects are those that there would be without
/// this pipeline: its module, its layout and the pipeline itself are gone, and the
/// set layout that it was created for is still alive. The pipeline is destroyed first
/// and its layout right after it, each of them once.
pub proof fn law_cleanup_undoes_create(
    live: Live,
    job: JobView,
    of: Handles,
    between: Seq<Call>,
)
    requires
        live.set_layouts.contains(of.set_layout),
        live.lacks_pipeline(of),
        live.accepts(between),
        forall|i: int| 0 <= i < between.len() ==> (#[trigger] between[i]).spares(of),
    ensures
        ({
            let created = calls(create_compute_pipeline(job), of);
            let all = created + between + calls(cleanup_pipeline(), of);
            let last = all.len() - 1;
            &&& live.after_all(created) == live.with_pipeline(of)
            &&& live.accepts(all)
            &&& live.after_all(all) == live.after_all(between)
            &&& live.after_all(all).lacks_pipeline(of)
            &&& live.after_all(all).set_layouts.contains(of.set_layout)
            &&& forall|i: int|
                0 <= i < all.len() && (#[trigger] all[i]).action == Action::DestroyPipeline
                    && all[i].of.pipeline == of.pipeline <==> i == last - 1
            &&& forall|i: int|
                0 <= i < all.len() && (#[trigger] all[i]).action == Action::DestroyPipelineLayout
                    && all[i].of.pipeline_layout == of.pipeline_layout <==> i == last
        }),
{
    let created = calls(create_compute_pipeline(job), of);
    let cleanup = calls(cleanup_pipeline(), of);
    let all = created + between + cleanup;
    lemma_create(live, job, of);
    lemma_spared(live, between, of);
    lemma_cleanup(live.after_all(between), of);
    lemma_append(live, created, between);
    lemma_append(live, created + between, cleanup);
    assert forall|i: int| 0 <= i < all.len() - 2 implies {
        &&& (#[trigger] all[i]).action == Action::DestroyPipeline ==> all[i].of.pipeline
            != of.pipeline
        &&& all[i].action == Action::DestroyPipelineLayout ==> all[i].of.pipeline_layout
            != of.pipeline_layout
    } by {
        if i >= created.len() {
            assert(all[i] == between[i - created.len()]);
        } else {
            assert(all[i] == created[i]);
        }
    }
    assert(all[all.len() - 2] == cleanup[0]);
    assert(all[all.len() - 1] == cleanup[1]);
}

/// What is alive when a run on the objects of `of` stands where `run` does, `live`
/// being what was alive before.
spec fn live_at(live: Live, of: Handles, run: RunView) -> Live {
    let p = phase(run.stage);
    Live {
        set_layouts: if 1 <= p <= 24 {
            live.set_layouts.insert(of.set_layout)
        } else {
            live.set_layouts
        },
        modules: if 2 <= p <= 4 {
            live.modules.insert(of.module)
        } else {
            live.modules
        },
        pipeline_layouts: if 3 <= p <= 22 {
            live.pipeline_layouts.insert(of.pipeline_layout)
        } else {
            live.pipeline_layouts
        },
        pipelines: if 4 <= p <= 21 {
            live.pipelines.insert(of.pipeline)
        } else {
            live.pipelines
        },
    }
}

/// The action concerns none of the objects that are told apart here.
spec fn elsewhere(action: Action) -> bool {
    match action {
        Action::CreateSetLayout { .. }
        | Action::DestroySetLayout
        | Action::CreateShaderModule { .. }
        | Action::DestroyShaderModule
        | Action::CreatePipelineLayout { .. }
        | Action::DestroyPipelineLayout
        | Action::CreatePipeline { .. }
        | Action::DestroyPipeline => false,
        _ => true,
    }
}

/// The run is, and stays, between the creation of its pipeline and its destruction.
spec fn passes_on(run: RunView, outcome: Outcome) -> bool {
    &&& elsewhere(run.action())
    &&& 5 <= phase(run.next(outcome)->Ok_0.stage) <= 21
}

proof fn lemma_passes_on_before_data(run: RunView, outcome: Outcome)
    requires
        run.next(outcome) is Ok,
        5 <= phase(run.stage) <= 7,
    ensures
        passes_on(run, outcome),
{
}

proof fn lemma_passes_on_with_data(run: RunView, outcome: Outcome)
    requires
        run.next(outcome) is Ok,
        8 <= phase(run.stage) <= 10,
    ensures
        passes_on(run, outcome),
{
}

proof fn lemma_passes_on_after_data(run: RunView, outcome: Outcome)
    requires
        run.next(outcome) is Ok,
        11 <= phase(run.stage) <= 20,
    ensures
        passes_on(run, outcome),
{
}

proof fn lemma_elsewhere(live: Live, call: Call)
    requires
        elsewhere(call.action),
    ensures
        live.legal(call),
        live.after(call) == live,
{
}

proof fn lemma_live_step(live: Live, of: Handles, run: RunView, outcome: Outcome)
    requires
        run.wf(),
        run.next(outcome) is Ok,
        !live.set_layouts.contains(of.set_layout),
        live.lacks_pipeline(of),
    ensures
        ({
            let here = live_at(live, of, run);
            let call = Call { action: run.action(), of };
            here.legal(call) && live_at(live, of, run.next(outcome)->Ok_0) == here.after(call)
        }),
{
    let p = phase(run.stage);
    let here = live_at(live, of, run);
    let call = Call { action: run.action(), of };
    if 5 <= p <= 20 {
        if p <= 7 {
            lemma_passes_on_before_data(run, outcome);
        } else if p <= 10 {
            lemma_passes_on_with_data(run, outcome);
        } else {
            lemma_passes_on_after_data(run, outcome);
        }
        lemma_elsewhere(here, call);
    } else {
        assert(live_at(live, of, run.next(outcome)->Ok_0) =~= here.after(call));
    }
}

proof fn lemma_live_after(live: Live, of: Handles, job: JobView, outcomes: Seq<Outcome>)
    requires
        job.wf(),
        run_after(job, outcomes) is Some,
        !live.set_layouts.contains(of.set_layout),
        live.lacks_pipeline(of),
    ensures
        run_after(job, outcomes)->0.wf(),
        live.accepts(calls(trace(job, outcomes), of)),
        live.after_all(calls(trace(job, outcomes), of)) == live_at(
            live,
            of,
            run_after(job, outcomes)->0,
        ),
    decreases outcomes.len(),
{
    if outcomes.len() > 0 {
        let earlier = outcomes.drop_last();
        let run = run_after(job, earlier)->0;
        lemma_live_after(live, of, job, earlier);
        lemma_next_wf(run, outcomes.last());
        lemma_live_step(live, of, run, outcomes.last());
        let before = calls(trace(job, earlier), of);
        let call = Call { action: run.action(), of };
        lemma_push(live, before, call);
        assert(calls(trace(job, outcomes), of) =~= before.push(call));
    } else {
        assert(live_at(live, of, RunView::begun(job)) =~= live);
    }
}

/// A run leaves the pipelines of others alone: at any point it has created, used and
/// destroyed only objects of its own, and once it is finished the live objects are
/// those that were alive when it began.
pub proof fn law_finished_run_restores_the_live_objects(
    live: Live,
    of: Handles,
    job: JobView,
    outcomes: Seq<Outcome>,
)
    requires
        job.wf(),
        run_after(job, outcomes) is Some,
        !live.set_layouts.contains(of.set_layout),
        live.lacks_pipeline(of),
    ensures
        live.accepts(calls(trace(job, outcomes), of)),
        run_after(job, outcomes)->0.stage == Stage::Finished ==> live.after_all(
            calls(trace(job, outcomes), of),
        ) == live,
{
    lemma_live_after(live, of, job, outcomes);
    assert(run_after(job, outcomes)->0.stage == Stage::Finished ==> live_at(
        live,
        of,
        run_after(job, outcomes)->0,
    ) =~= live);
}

} // verus!
