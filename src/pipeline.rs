//! The render pipeline: six stages run in a fixed order every frame, with the
//! render world loaned to the simulation world for Extract and the simulation
//! world loaned to the render world for Queue.

use crate::schedule::{batched, Schedule, SystemAccess};
use crate::scratch::{Role, ScratchCache};
use crate::world::{
    flushed, is_live, reserved_through, run, Command, Contents, RenderError, ResourceTag, SlotView, World,
};
use vstd::prelude::*;

verus! {

/// The stages of a frame, in the order in which they run.
#[derive(Debug, Clone, Copy, PartialEq, Eq, Hash, Structural)]
pub enum RenderStage {
    /// Copies what rendering needs out of the simulation world into the render
    /// world. Kept short, so the next simulation frame can start early.
    Extract,
    /// Prepares render resources from the extracted data.
    Prepare,
    /// Queues up draw calls; may write back into the simulation world.
    Queue,
    /// Sorts the render phases.
    PhaseSort,
    /// Renders. Mostly only the render backend writes resources here.
    Render,
    /// Cleans up render resources; the render world's entities are dropped after it.
    Cleanup,
}

impl RenderStage {
    /// The stage that runs after this one in a frame; none after Cleanup.
    pub open spec fn spec_next(self) -> Option<RenderStage> {
        match self {
            RenderStage::Extract => Some(RenderStage::Prepare),
            RenderStage::Prepare => Some(RenderStage::Queue),
            RenderStage::Queue => Some(RenderStage::PhaseSort),
            RenderStage::PhaseSort => Some(RenderStage::Render),
            RenderStage::Render => Some(RenderStage::Cleanup),
            RenderStage::Cleanup => None,
        }
    }

    pub fn next(&self) -> (r: Option<RenderStage>)
        ensures
            r == self.spec_next(),
    {
        match self {
            RenderStage::Extract => Some(RenderStage::Prepare),
            RenderStage::Prepare => Some(RenderStage::Queue),
            RenderStage::Queue => Some(RenderStage::PhaseSort),
            RenderStage::PhaseSort => Some(RenderStage::Render),
            RenderStage::Render => Some(RenderStage::Cleanup),
            RenderStage::Cleanup => None,
        }
    }

    /// Whether the stage applies its deferred buffers to the world it ran on when
    /// it ends. Extract does not: it runs on the simulation world, and its
    /// buffers go to the render world once that is back in place.
    pub fn applies_buffers(&self) -> (r: bool)
        ensures
            r == !(*self is Extract),
    {
        match self {
            RenderStage::Extract => false,
            _ => true,
        }
    }
}

/// What the systems of one stage wrote: directly to the world the stage runs
/// on, directly to the world on loan to it, and to the stage's deferred buffer.
pub struct StageWrites {
    pub own: Vec<Command>,
    pub loaned: Vec<Command>,
    pub deferred: Vec<Command>,
}

/// The simulation and render contents after a stage, or the first error.
///
/// Extract runs on the simulation world with the render world on loan, and its
/// buffer is applied to the render world after the loan ends. Queue runs on the
/// render world with the simulation world on loan, and its buffer is applied to
/// the simulation world after the loan ends. The other stages run on the render
/// world alone: a write through a loan finds none.
pub open spec fn stage_outcome(
    stage: RenderStage,
    app: Contents,
    render: Contents,
    own: Seq<Command>,
    loaned: Seq<Command>,
    deferred: Seq<Command>,
) -> Result<(Contents, Contents), RenderError> {
    match stage {
        RenderStage::Extract => match run(app, own) {
            Err(e) => Err(e),
            Ok(a1) => match run(render, loaned) {
                Err(e) => Err(e),
                Ok(r1) => match run(r1, deferred) {
                    Err(e) => Err(e),
                    Ok(r2) => Ok((a1, r2)),
                },
            },
        },
        RenderStage::Queue => match run(render, own) {
            Err(e) => Err(e),
            Ok(r1) => match run(app, loaned) {
                Err(e) => Err(e),
                Ok(a1) => match run(a1, deferred) {
                    Err(e) => Err(e),
                    Ok(a2) => Ok((a2, r1)),
                },
            },
        },
        _ => if loaned.len() > 0 {
            Err(RenderError::MissingResource(ResourceTag::LoanedAppWorld))
        } else {
            match run(render, own) {
                Err(e) => Err(e),
                Ok(r1) => match run(r1, deferred) {
                    Err(e) => Err(e),
                    Ok(r2) => Ok((app, r2)),
                },
            }
        },
    }
}

/// Sets up the render pipeline around a simulation world.
#[derive(Debug, Clone, Copy, PartialEq, Eq, Default)]
pub struct RenderPlugin;

impl RenderPlugin {
    /// Builds the pipeline: Extract first, with its buffers held back until the
    /// render world is in place, then Prepare, Queue, PhaseSort, Render, Cleanup.
    pub fn build(&self, app_world: World) -> (r: RenderApp)
        requires
            app_world.loaned_render() is None,
            app_world.loaned_app() is None,
        ensures
            r.wf(),
            r.app_world() == app_world,
            r.render_world().is_empty(),
            r.next_stage() is None,
            r.scratch().created() == 0,
            forall|s: RenderStage|
                s != RenderStage::Render ==> #[trigger] r.schedule().systems(s).len() == 0,
            r.schedule().systems(RenderStage::Render).len() == 1,
            r.schedule().systems(RenderStage::Render)[0].exclusive,
    {
        RenderApp::new(app_world)
    }
}

/// The simulation world, the render world, the spare worlds, and the stage
/// that runs next in the current frame.
pub struct RenderApp {
    app_world: World,
    render_world: World,
    scratch: ScratchCache,
    schedule: Schedule,
    next: Option<RenderStage>,
}

impl RenderApp {
    pub closed spec fn app_world(&self) -> World {
        self.app_world
    }

    pub closed spec fn render_world(&self) -> World {
        self.render_world
    }

    pub closed spec fn scratch(&self) -> ScratchCache {
        self.scratch
    }

    /// The systems registered into the stages.
    pub closed spec fn schedule(&self) -> Schedule {
        self.schedule
    }

    /// The stage that runs next; none between frames.
    pub closed spec fn next_stage(&self) -> Option<RenderStage> {
        self.next
    }

    /// Neither world is on loan, and between frames the render world holds no
    /// entity identifiers.
    pub open spec fn wf(&self) -> bool {
        &&& self.schedule().wf()
        &&& self.app_world().loaned_render() is None
        &&& self.app_world().loaned_app() is None
        &&& self.render_world().loaned_render() is None
        &&& self.render_world().loaned_app() is None
        &&& self.next_stage() is None ==> self.render_world().slots().len() == 0
    }

    /// Starts a pipeline around the simulation world `app_world`, with an empty
    /// render world and no spare worlds yet.
    pub fn new(app_world: World) -> (r: RenderApp)
        requires
            app_world.loaned_render() is None,
            app_world.loaned_app() is None,
        ensures
            r.wf(),
            r.app_world() == app_world,
            r.render_world().is_empty(),
            r.scratch().cached(Role::Render) is None,
            r.scratch().cached(Role::App) is None,
            r.scratch().created() == 0,
            forall|s: RenderStage|
                s != RenderStage::Render ==> #[trigger] r.schedule().systems(s).len() == 0,
            r.schedule().systems(RenderStage::Render).len() == 1,
            r.schedule().systems(RenderStage::Render)[0].exclusive,
            r.next_stage() is None,
    {
        RenderApp {
            app_world,
            render_world: World::new(),
            scratch: ScratchCache::new(),
            schedule: Schedule::new(),
            next: None,
        }
    }
    pub fn app(&self) -> (r: &World)
        ensures
            *r == self.app_world(),
    {
        &self.app_world
    }

    pub fn render(&self) -> (r: &World)
        ensures
            *r == self.render_world(),
    {
        &self.render_world
    }

    /// How many spare worlds the pipeline has had to build.
    pub fn scratch_created(&self) -> (r: u64)
        ensures
            r == self.scratch().created(),
    {
        self.scratch.created_count()
    }

    pub fn next_stage_to_run(&self) -> (r: Option<RenderStage>)
        ensures
            r == self.next_stage(),
    {
        self.next
    }

    /// Starts a frame: every identifier the simulation world has issued is reserved
    /// in the render world and flushed as invalid, so that it can only be claimed
    /// by spawning onto it, and Extract is the next stage.
    pub fn begin_frame(&mut self)
        requires
            old(self).wf(),
            old(self).next_stage() is None,
        ensures
            final(self).wf(),
            final(self).next_stage() == Some(RenderStage::Extract),
            final(self).render_world().slots() == flushed(
                reserved_through(old(self).render_world().slots(), old(self).app_world().slots().len()),
            ),
            final(self).render_world().slots() == Seq::new(
                old(self).app_world().slots().len(),
                |i: int| SlotView::Invalid,
            ),
            forall|i: int| !is_live(final(self).render_world().slots(), i),
            final(self).render_world().resources() == old(self).render_world().resources(),
            final(self).app_world() == old(self).app_world(),
            final(self).scratch() == old(self).scratch(),
            final(self).schedule() == old(self).schedule(),
    {
        let n = self.app_world.entity_count();
        self.render_world.reserve_entities(n);
        self.render_world.flush_as_invalid();
        self.next = Some(RenderStage::Extract);
        assert(self.render_world().slots() =~= Seq::new(n as nat, |i: int| SlotView::Invalid));
    }

    /// Runs Extract: the render world is swapped out for the spare render world
    /// and loaned to the simulation world; the writes are applied; the render world
    /// comes back, the spare is cleared and kept; then the deferred buffer is
    /// applied to the render world.
    fn extract(&mut self, writes: &StageWrites) -> (r: Result<(), RenderError>)
        requires
            old(self).wf(),
        ensures
            final(self).app_world().loaned_render() is None,
            final(self).app_world().loaned_app() is None,
            final(self).render_world().loaned_render() is None,
            final(self).render_world().loaned_app() is None,
            final(self).next_stage() == old(self).next_stage(),
            final(self).schedule() == old(self).schedule(),
            final(self).scratch().cached(Role::Render) is Some,
            final(self).scratch().cached(Role::Render)->0.slots().len() == 0,
            final(self).scratch().cached(Role::App) == old(self).scratch().cached(Role::App),
            final(self).scratch().created() == old(self).scratch().created_after_take(Role::Render),
            match stage_outcome(
                RenderStage::Extract,
                old(self).app_world().contents(),
                old(self).render_world().contents(),
                writes.own@,
                writes.loaned@,
                writes.deferred@,
            ) {
                Ok((a, rw)) => r is Ok && final(self).app_world().contents() == a
                    && final(self).render_world().contents() == rw,
                Err(e) => r == Err::<(), RenderError>(e),
            },
    {
        let mut world = self.scratch.take(Role::Render);
        std::mem::swap(&mut self.render_world, &mut world);
        self.app_world.insert_render_world(world);

        let mut res = self.app_world.apply_all(&writes.own);
        if res.is_ok() {
            res = self.app_world.apply_to_loaned_render(&writes.loaned);
        }

        let mut spare = match self.app_world.remove_render_world() {
            Ok(w) => w,
            Err(_) => {
                proof {
                    assert(false);
                }
                World::new()
            },
        };
        std::mem::swap(&mut self.render_world, &mut spare);
        spare.clear_entities();
        self.scratch.put(Role::Render, spare);

        if res.is_ok() {
            res = self.render_world.apply_all(&writes.deferred);
        }
        res
    }
    /// Runs Queue: the simulation world is swapped out for the spare simulation
    /// world and loaned to the render world; the writes are applied; the simulation
    /// world comes back, the spare is cleared and kept; then the deferred buffer is
    /// applied to the simulation world.
    fn queue_worldsurgery(&mut self, writes: &StageWrites) -> (r: Result<(), RenderError>)
        requires
            old(self).wf(),
        ensures
            final(self).app_world().loaned_render() is None,
            final(self).app_world().loaned_app() is None,
            final(self).render_world().loaned_render() is None,
            final(self).render_world().loaned_app() is None,
            final(self).next_stage() == old(self).next_stage(),
            final(self).schedule() == old(self).schedule(),
            final(self).scratch().cached(Role::App) is Some,
            final(self).scratch().cached(Role::App)->0.slots().len() == 0,
            final(self).scratch().cached(Role::Render) == old(self).scratch().cached(Role::Render),
            final(self).scratch().created() == old(self).scratch().created_after_take(Role::App),
            match stage_outcome(
                RenderStage::Queue,
                old(self).app_world().contents(),
                old(self).render_world().contents(),
                writes.own@,
                writes.loaned@,
                writes.deferred@,
            ) {
                Ok((a, rw)) => r is Ok && final(self).app_world().contents() == a
                    && final(self).render_world().contents() == rw,
                Err(e) => r == Err::<(), RenderError>(e),
            },
    {
        let mut world = self.scratch.take(Role::App);
        std::mem::swap(&mut self.app_world, &mut world);
        self.render_world.insert_app_world(world);

        let mut res = self.render_world.apply_all(&writes.own);
        if res.is_ok() {
            res = self.render_world.apply_to_loaned_app(&writes.loaned);
        }

        let mut spare = match self.render_world.remove_app_world() {
            Ok(w) => w,
            Err(_) => {
                proof {
                    assert(false);
                }
                World::new()
            },
        };
        std::mem::swap(&mut self.app_world, &mut spare);
        spare.clear_entities();
        self.scratch.put(Role::App, spare);

        if res.is_ok() {
            res = self.app_world.apply_all(&writes.deferred);
        }
        res
    }

    /// Runs a stage other than Extract and Queue, on the render world alone.
    fn run_plain(&mut self, stage: RenderStage, writes: &StageWrites) -> (r: Result<(), RenderError>)
        requires
            old(self).wf(),
            !(stage is Extract),
            !(stage is Queue),
        ensures
            final(self).app_world() == old(self).app_world(),
            final(self).render_world().loaned_render() is None,
            final(self).render_world().loaned_app() is None,
            final(self).next_stage() == old(self).next_stage(),
            final(self).schedule() == old(self).schedule(),
            final(self).scratch() == old(self).scratch(),
            match stage_outcome(
                stage,
                old(self).app_world().contents(),
                old(self).render_world().contents(),
                writes.own@,
                writes.loaned@,
                writes.deferred@,
            ) {
                Ok((a, rw)) => r is Ok && final(self).render_world().contents() == rw,
                Err(e) => r == Err::<(), RenderError>(e),
            },
    {
        if writes.loaned.len() > 0 {
            return Err(RenderError::MissingResource(ResourceTag::LoanedAppWorld));
        }
        let mut res = self.render_world.apply_all(&writes.own);
        if res.is_ok() && stage.applies_buffers() {
            res = self.render_world.apply_all(&writes.deferred);
        }
        res
    }

    /// Runs the stage that is due, with what its systems wrote. After Cleanup the
    /// render world's entities are dropped and the frame ends. An error ends the
    /// frame too: the worlds are back in place, the render world's entities are
    /// dropped, and the error is returned.
    pub fn run_stage(&mut self, stage: RenderStage, writes: &StageWrites) -> (r: Result<
        (),
        RenderError,
    >)
        requires
            old(self).wf(),
            old(self).next_stage() == Some(stage),
        ensures
            final(self).wf(),
            final(self).schedule() == old(self).schedule(),
            final(self).app_world().loaned_render() is None,
            final(self).render_world().loaned_app() is None,
            match stage_outcome(
                stage,
                old(self).app_world().contents(),
                old(self).render_world().contents(),
                writes.own@,
                writes.loaned@,
                writes.deferred@,
            ) {
                Ok((a, rw)) => {
                    &&& r is Ok
                    &&& final(self).app_world().contents() == a
                    &&& final(self).render_world().resources() == rw.resources
                    &&& final(self).render_world().slots() == if stage is Cleanup {
                        Seq::<SlotView>::empty()
                    } else {
                        rw.slots
                    }
                    &&& final(self).next_stage() == stage.spec_next()
                },
                Err(e) => {
                    &&& r == Err::<(), RenderError>(e)
                    &&& final(self).next_stage() is None
                    &&& final(self).render_world().slots().len() == 0
                },
            },
            stage is Extract ==> final(self).scratch().cached(Role::Render) is Some,
            stage is Queue ==> final(self).scratch().cached(Role::App) is Some,
            forall|role: Role| #[trigger]
                old(self).scratch().cached(role) is Some ==> final(self).scratch().cached(
                    role,
                ) is Some,
            final(self).scratch().created() == match stage {
                RenderStage::Extract => old(self).scratch().created_after_take(Role::Render),
                RenderStage::Queue => old(self).scratch().created_after_take(Role::App),
                _ => old(self).scratch().created(),
            },
    {
        let res = match stage {
            RenderStage::Extract => self.extract(writes),
            RenderStage::Queue => self.queue_worldsurgery(writes),
            _ => self.run_plain(stage, writes),
        };
        if res.is_err() {
            self.render_world.clear_entities();
            self.next = None;
        } else {
            if stage == RenderStage::Cleanup {
                self.render_world.clear_entities();
            }
            self.next = stage.next();
        }
        res
    }
    /// Registers a system into `stage`.
    pub fn add_system(&mut self, stage: RenderStage, access: SystemAccess)
        requires
            old(self).wf(),
        ensures
            final(self).wf(),
            final(self).schedule().systems(stage) == old(self).schedule().systems(stage).push(access),
            forall|s: RenderStage|
                s != stage ==> #[trigger] final(self).schedule().systems(s) == old(
                    self,
                ).schedule().systems(s),
            final(self).app_world() == old(self).app_world(),
            final(self).render_world() == old(self).render_world(),
            final(self).scratch() == old(self).scratch(),
            final(self).next_stage() == old(self).next_stage(),
    {
        self.schedule.add_system(stage, access);
    }

    /// The batch in which each system of `stage` runs.
    pub fn batches(&self, stage: RenderStage) -> (r: Vec<usize>)
        requires
            self.wf(),
        ensures
            batched(self.schedule().systems(stage), r@),
    {
        self.schedule.batches(stage)
    }
    /// Applies the simulation's own writes between frames, in order, stopping at
    /// the first error.
    pub fn update_app(&mut self, cmds: &Vec<Command>) -> (r: Result<(), RenderError>)
        requires
            old(self).wf(),
            old(self).next_stage() is None,
        ensures
            final(self).wf(),
            match run(old(self).app_world().contents(), cmds@) {
                Ok(c) => r is Ok && final(self).app_world().contents() == c,
                Err(e) => r == Err::<(), RenderError>(e),
            },
            final(self).render_world() == old(self).render_world(),
            final(self).scratch() == old(self).scratch(),
            final(self).schedule() == old(self).schedule(),
            final(self).next_stage() is None,
    {
        self.app_world.apply_all(cmds)
    }
}

} // verus!
