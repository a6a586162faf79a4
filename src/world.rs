//! The world container: entities with an identifier allocator, integer-keyed
//! resource slots, and the two slots through which a whole world is loaned.

use std::collections::HashMap;
use vstd::prelude::*;

verus! {

broadcast use vstd::std_specs::hash::group_hash_axioms;

/// Errors of the world container and of the frame pipeline.
#[derive(Debug, PartialEq, Eq, Structural)]
pub enum RenderError {
    /// A resource that the protocol expects is absent.
    MissingResource(ResourceTag),
    /// An identifier that is reserved but not yet flushed was spawned onto.
    IdentifierCollision(u32),
}

/// Names a resource slot of a world.
#[derive(Debug, Clone, Copy, PartialEq, Eq, Structural)]
pub enum ResourceTag {
    /// An ordinary resource, keyed by an integer.
    Value(u32),
    /// The render world while it is loaned to the simulation world.
    LoanedRenderWorld,
    /// The simulation world while it is loaned to the render world.
    LoanedAppWorld,
}

/// The state of one entity identifier in a world's allocator.
pub enum EntitySlot {
    /// Reserved, not flushed yet: nothing may be spawned onto it.
    Reserved,
    /// Reserved and flushed as invalid: it holds no entity until one is spawned onto it.
    Invalid,
    /// A live entity with its components, keyed by component id.
    Live(HashMap<u32, u64>),
}

/// What an entity slot holds, as plain values.
pub enum SlotView {
    Reserved,
    Invalid,
    Live(Map<u32, u64>),
}

impl View for EntitySlot {
    type V = SlotView;

    open spec fn view(&self) -> SlotView {
        match self {
            EntitySlot::Reserved => SlotView::Reserved,
            EntitySlot::Invalid => SlotView::Invalid,
            EntitySlot::Live(m) => SlotView::Live(m@),
        }
    }
}

/// The entities and ordinary resources of a world, as plain values.
pub struct Contents {
    pub slots: Seq<SlotView>,
    pub resources: Map<u32, u64>,
}

/// The slots after flushing: every reserved identifier becomes invalid.
pub open spec fn flushed(s: Seq<SlotView>) -> Seq<SlotView> {
    s.map_values(|v: SlotView| if v is Reserved { SlotView::Invalid } else { v })
}

/// The slots after reserving identifiers up to `n`.
pub open spec fn reserved_through(s: Seq<SlotView>, n: nat) -> Seq<SlotView> {
    if s.len() >= n {
        s
    } else {
        s + Seq::new((n - s.len()) as nat, |i: int| SlotView::Reserved)
    }
}

/// Spawning onto identifier `id`: a reserved, unflushed identifier collides; an
/// invalid one becomes a live entity without components; a live one stays; past
/// the end, the allocator grows with invalid identifiers up to `id`.
pub open spec fn spawned(s: Seq<SlotView>, id: u32) -> Result<Seq<SlotView>, RenderError> {
    if id < s.len() {
        match s[id as int] {
            SlotView::Reserved => Err(RenderError::IdentifierCollision(id)),
            SlotView::Invalid => Ok(s.update(id as int, SlotView::Live(Map::empty()))),
            SlotView::Live(_) => Ok(s),
        }
    } else {
        Ok(s + Seq::new((id - s.len()) as nat, |i: int| SlotView::Invalid) + seq![
            SlotView::Live(Map::empty()),
        ])
    }
}

/// Whether identifier `id` holds a live entity.
pub open spec fn is_live(s: Seq<SlotView>, id: int) -> bool {
    0 <= id < s.len() && s[id] is Live
}

/// The slots after setting component `c` of the live entity `id` to `v`.
pub open spec fn with_component(s: Seq<SlotView>, id: u32, c: u32, v: u64) -> Seq<SlotView> {
    if id < s.len() {
        match s[id as int] {
            SlotView::Live(m) => s.update(id as int, SlotView::Live(m.insert(c, v))),
            _ => s,
        }
    } else {
        s
    }
}

/// Component `c` of the live entity `id`, if both exist.
pub open spec fn component_of(s: Seq<SlotView>, id: u32, c: u32) -> Option<u64> {
    if id < s.len() {
        match s[id as int] {
            SlotView::Live(m) => if m.contains_key(c) {
                Some(m[c])
            } else {
                None
            },
            _ => None,
        }
    } else {
        None
    }
}

/// A write that a system makes to a world, directly or through a deferred buffer.
#[derive(Debug, Clone, Copy, PartialEq, Eq, Structural)]
pub enum Command {
    /// Spawn onto an identifier, or keep the entity that lives there.
    Spawn(u32),
    /// Spawn onto an identifier as `Spawn` does, then set one of its components.
    Insert { entity: u32, component: u32, value: u64 },
    /// Overwrite an ordinary resource.
    InsertResource { tag: u32, value: u64 },
}

/// The contents after one command, or the error that stops it.
pub open spec fn step(c: Contents, cmd: Command) -> Result<Contents, RenderError> {
    match cmd {
        Command::Spawn(id) => match spawned(c.slots, id) {
            Ok(s) => Ok(Contents { slots: s, resources: c.resources }),
            Err(e) => Err(e),
        },
        Command::Insert { entity, component, value } => match spawned(c.slots, entity) {
            Ok(s) => Ok(
                Contents { slots: with_component(s, entity, component, value), resources: c.resources },
            ),
            Err(e) => Err(e),
        },
        Command::InsertResource { tag, value } => Ok(
            Contents { slots: c.slots, resources: c.resources.insert(tag, value) },
        ),
    }
}

/// The contents after the commands in order; the first error stops the run.
pub open spec fn run(c: Contents, cmds: Seq<Command>) -> Result<Contents, RenderError>
    decreases cmds.len(),
{
    if cmds.len() == 0 {
        Ok(c)
    } else {
        match run(c, cmds.drop_last()) {
            Ok(c2) => step(c2, cmds.last()),
            Err(e) => Err(e),
        }
    }
}

/// Once a prefix of the commands fails, the whole run fails with the same error.
proof fn lemma_run_stops(c: Contents, cmds: Seq<Command>, k: int)
    requires
        0 <= k <= cmds.len(),
        run(c, cmds.take(k)) is Err,
    ensures
        run(c, cmds) == run(c, cmds.take(k)),
    decreases cmds.len() - k,
{
    if k < cmds.len() {
        assert(cmds.take(k + 1).drop_last() =~= cmds.take(k));
        lemma_run_stops(c, cmds, k + 1);
    } else {
        assert(cmds.take(k) =~= cmds);
    }
}

/// An identifier that has been reserved and not flushed cannot be spawned onto:
/// the attempt fails with a collision and leaves the allocator as it was.
pub proof fn lemma_reserved_collides(s: Seq<SlotView>, n: nat, id: u32)
    requires
        s.len() <= id < n,
    ensures
        reserved_through(s, n).len() == n,
        spawned(reserved_through(s, n), id) == Err::<Seq<SlotView>, RenderError>(
            RenderError::IdentifierCollision(id),
        ),
{
}

/// After reserving and flushing, every identifier below `n` is free to be
/// claimed by spawning onto it, and none of them holds an entity yet.
pub proof fn lemma_flushed_reservation_claimable(s: Seq<SlotView>, n: nat, id: u32)
    requires
        forall|i: int| 0 <= i < s.len() ==> !(s[i] is Live),
        id < n,
    ensures
        !is_live(flushed(reserved_through(s, n)), id as int),
        spawned(flushed(reserved_through(s, n)), id) is Ok,
        is_live(spawned(flushed(reserved_through(s, n)), id)->Ok_0, id as int),
{
}

/// A container of entities and singleton resources.
pub struct World {
    entities: Vec<EntitySlot>,
    resources: HashMap<u32, u64>,
    loaned_render: Option<Box<RenderWorld>>,
    loaned_app: Option<Box<AppWorld>>,
}

/// The render world while it is held as a resource of the simulation world.
pub struct RenderWorld(World);

/// The simulation world while it is held as a resource of the render world.
pub struct AppWorld(World);

impl RenderWorld {
    pub fn new(world: World) -> (r: RenderWorld)
        ensures
            r.inner() == world,
    {
        RenderWorld(world)
    }

    pub closed spec fn inner(&self) -> World {
        self.0
    }

    pub fn deref(&self) -> (r: &World)
        ensures
            *r == self.inner(),
    {
        &self.0
    }

    pub fn deref_mut(&mut self) -> (r: &mut World)
        ensures
            *r == old(self).inner(),
            final(self).inner() == *final(r),
    {
        &mut self.0
    }

    pub fn into_inner(self) -> (r: World)
        ensures
            r == self.inner(),
    {
        self.0
    }
}

impl AppWorld {
    pub fn new(world: World) -> (r: AppWorld)
        ensures
            r.inner() == world,
    {
        AppWorld(world)
    }

    pub closed spec fn inner(&self) -> World {
        self.0
    }

    pub fn deref(&self) -> (r: &World)
        ensures
            *r == self.inner(),
    {
        &self.0
    }

    pub fn deref_mut(&mut self) -> (r: &mut World)
        ensures
            *r == old(self).inner(),
            final(self).inner() == *final(r),
    {
        &mut self.0
    }

    pub fn into_inner(self) -> (r: World)
        ensures
            r == self.inner(),
    {
        self.0
    }
}

impl World {
    /// The allocator's identifier slots, by identifier.
    pub closed spec fn slots(&self) -> Seq<SlotView> {
        self.entities@.map_values(|e: EntitySlot| e@)
    }

    /// The ordinary resources.
    pub closed spec fn resources(&self) -> Map<u32, u64> {
        self.resources@
    }

    /// The render world on loan to this world, if any.
    pub closed spec fn loaned_render(&self) -> Option<World> {
        match self.loaned_render {
            Some(b) => Some(b.inner()),
            None => None,
        }
    }

    /// The simulation world on loan to this world, if any.
    pub closed spec fn loaned_app(&self) -> Option<World> {
        match self.loaned_app {
            Some(b) => Some(b.inner()),
            None => None,
        }
    }

    pub open spec fn contents(&self) -> Contents {
        Contents { slots: self.slots(), resources: self.resources() }
    }

    /// Whether the world holds no identifiers, no resources and no loan.
    pub open spec fn is_empty(&self) -> bool {
        &&& self.slots().len() == 0
        &&& self.resources() == Map::<u32, u64>::empty()
        &&& self.loaned_render() is None
        &&& self.loaned_app() is None
    }

    pub fn new() -> (w: World)
        ensures
            w.is_empty(),
    {
        let w = World {
            entities: Vec::new(),
            resources: HashMap::new(),
            loaned_render: None,
            loaned_app: None,
        };
        assert(w.slots() =~= Seq::<SlotView>::empty());
        w
    }

    /// The number of identifiers this world's allocator has issued or reserved.
    pub fn entity_count(&self) -> (r: usize)
        ensures
            r == self.slots().len(),
    {
        self.entities.len()
    }
    /// Overwrites the resource slot `tag`.
    pub fn insert_resource(&mut self, tag: u32, value: u64)
        ensures
            final(self).resources() == old(self).resources().insert(tag, value),
            final(self).slots() == old(self).slots(),
            final(self).loaned_render() == old(self).loaned_render(),
            final(self).loaned_app() == old(self).loaned_app(),
    {
        self.resources.insert(tag, value);
    }

    /// Removes the resource slot `tag` and returns its value.
    pub fn remove_resource(&mut self, tag: u32) -> (r: Result<u64, RenderError>)
        ensures
            old(self).resources().contains_key(tag) ==> r == Ok::<u64, RenderError>(
                old(self).resources()[tag],
            ),
            !old(self).resources().contains_key(tag) ==> r == Err::<u64, RenderError>(
                RenderError::MissingResource(ResourceTag::Value(tag)),
            ),
            final(self).resources() == old(self).resources().remove(tag),
            final(self).slots() == old(self).slots(),
            final(self).loaned_render() == old(self).loaned_render(),
            final(self).loaned_app() == old(self).loaned_app(),
    {
        match self.resources.remove(&tag) {
            Some(v) => Ok(v),
            None => Err(RenderError::MissingResource(ResourceTag::Value(tag))),
        }
    }

    /// The value in the resource slot `tag`, if any.
    pub fn get_resource(&self, tag: u32) -> (r: Option<u64>)
        ensures
            r == (if self.resources().contains_key(tag) {
                Some(self.resources()[tag])
            } else {
                None
            }),
    {
        match self.resources.get(&tag) {
            Some(v) => Some(*v),
            None => None,
        }
    }

    /// Reserves identifiers so that at least `n` are issued; the new ones stay
    /// reserved until flushed.
    pub fn reserve_entities(&mut self, n: usize)
        ensures
            final(self).slots() == reserved_through(old(self).slots(), n as nat),
            final(self).resources() == old(self).resources(),
            final(self).loaned_render() == old(self).loaned_render(),
            final(self).loaned_app() == old(self).loaned_app(),
    {
        let ghost s0 = old(self).slots();
        while self.entities.len() < n
            invariant
                s0.len() <= self.slots().len(),
                s0.len() < n ==> self.slots().len() <= n,
                s0.len() >= n ==> self.slots() == s0,
                self.slots() =~= s0 + Seq::new(
                    (self.slots().len() - s0.len()) as nat,
                    |i: int| SlotView::Reserved,
                ),
                self.resources() == old(self).resources(),
                self.loaned_render() == old(self).loaned_render(),
                self.loaned_app() == old(self).loaned_app(),
            decreases n - self.entities.len(),
        {
            let ghost prev = self.slots();
            self.entities.push(EntitySlot::Reserved);
            assert(self.slots() =~= prev.push(SlotView::Reserved));
            assert(self.slots() =~= s0 + Seq::new(
                (self.slots().len() - s0.len()) as nat,
                |i: int| SlotView::Reserved,
            ));
        }
        assert(s0.len() >= n ==> self.slots() =~= s0);
    }

    /// Marks every reserved identifier invalid: it can then only be claimed by
    /// spawning directly onto it.
    pub fn flush_as_invalid(&mut self)
        ensures
            final(self).slots() == flushed(old(self).slots()),
            final(self).resources() == old(self).resources(),
            final(self).loaned_render() == old(self).loaned_render(),
            final(self).loaned_app() == old(self).loaned_app(),
    {
        let ghost s0 = old(self).slots();
        let n = self.entities.len();
        let mut i: usize = 0;
        while i < n
            invariant
                i <= n,
                n == s0.len(),
                self.slots().len() == n,
                forall|j: int| 0 <= j < i ==> self.slots()[j] == flushed(s0)[j],
                forall|j: int| i <= j < n ==> self.slots()[j] == s0[j],
                self.resources() == old(self).resources(),
                self.loaned_render() == old(self).loaned_render(),
                self.loaned_app() == old(self).loaned_app(),
            decreases n - i,
        {
            let reserved = match &self.entities[i] {
                EntitySlot::Reserved => true,
                _ => false,
            };
            if reserved {
                self.entities.set(i, EntitySlot::Invalid);
            }
            i = i + 1;
        }
        assert(self.slots() =~= flushed(s0));
    }

    /// Drops every entity and every identifier; resources stay.
    pub fn clear_entities(&mut self)
        ensures
            final(self).slots() == Seq::<SlotView>::empty(),
            final(self).resources() == old(self).resources(),
            final(self).loaned_render() == old(self).loaned_render(),
            final(self).loaned_app() == old(self).loaned_app(),
    {
        self.entities.clear();
        assert(self.slots() =~= Seq::<SlotView>::empty());
    }

    /// Spawns onto identifier `id`, or returns the entity that already lives there.
    pub fn get_or_spawn(&mut self, id: u32) -> (r: Result<(), RenderError>)
        ensures
            match spawned(old(self).slots(), id) {
                Ok(s) => r is Ok && final(self).slots() == s,
                Err(e) => r == Err::<(), RenderError>(e) && final(self).slots() == old(self).slots(),
            },
            final(self).resources() == old(self).resources(),
            final(self).loaned_render() == old(self).loaned_render(),
            final(self).loaned_app() == old(self).loaned_app(),
    {
        let ghost s0 = old(self).slots();
        let idx = id as usize;
        if idx < self.entities.len() {
            let state: u8 = match &self.entities[idx] {
                EntitySlot::Reserved => 0,
                EntitySlot::Invalid => 1,
                EntitySlot::Live(_) => 2,
            };
            if state == 0 {
                return Err(RenderError::IdentifierCollision(id));
            }
            if state == 1 {
                self.entities.set(idx, EntitySlot::Live(HashMap::new()));
                assert(self.slots() =~= s0.update(id as int, SlotView::Live(Map::empty())));
            }
            Ok(())
        } else {
            while self.entities.len() < idx
                invariant
                    s0.len() <= self.slots().len() <= idx,
                    self.slots() =~= s0 + Seq::new(
                        (self.slots().len() - s0.len()) as nat,
                        |i: int| SlotView::Invalid,
                    ),
                    self.resources() == old(self).resources(),
                    self.loaned_render() == old(self).loaned_render(),
                    self.loaned_app() == old(self).loaned_app(),
                decreases idx - self.entities.len(),
            {
                let ghost prev = self.slots();
                self.entities.push(EntitySlot::Invalid);
                assert(self.slots() =~= prev.push(SlotView::Invalid));
                assert(self.slots() =~= s0 + Seq::new(
                    (self.slots().len() - s0.len()) as nat,
                    |i: int| SlotView::Invalid,
                ));
            }
            let ghost prev = self.slots();
            self.entities.push(EntitySlot::Live(HashMap::new()));
            assert(self.slots() =~= prev.push(SlotView::Live(Map::empty())));
            assert(self.slots() =~= s0 + Seq::new((id - s0.len()) as nat, |i: int| SlotView::Invalid)
                + seq![SlotView::Live(Map::empty())]);
            Ok(())
        }
    }
    /// Sets component `component` of entity `id`, spawning onto `id` first.
    pub fn insert_component(&mut self, id: u32, component: u32, value: u64) -> (r: Result<
        (),
        RenderError,
    >)
        ensures
            match step(old(self).contents(), (Command::Insert { entity: id, component, value })) {
                Ok(c) => r is Ok && final(self).contents() == c,
                Err(e) => r == Err::<(), RenderError>(e) && final(self).contents()
                    == old(self).contents(),
            },
            final(self).loaned_render() == old(self).loaned_render(),
            final(self).loaned_app() == old(self).loaned_app(),
    {
        match self.get_or_spawn(id) {
            Ok(()) => {},
            Err(e) => {
                return Err(e);
            },
        }
        let ghost s1 = self.slots();
        let idx = id as usize;
        let mut slot = EntitySlot::Invalid;
        std::mem::swap(&mut self.entities[idx], &mut slot);
        match slot {
            EntitySlot::Live(mut m) => {
                m.insert(component, value);
                self.entities.set(idx, EntitySlot::Live(m));
            },
            other => {
                self.entities.set(idx, other);
            },
        }
        assert(self.slots() =~= with_component(s1, id, component, value));
        Ok(())
    }

    /// Component `component` of entity `id`, if the entity lives and has it.
    pub fn get_component(&self, id: u32, component: u32) -> (r: Option<u64>)
        ensures
            r == component_of(self.slots(), id, component),
    {
        let idx = id as usize;
        if idx < self.entities.len() {
            match &self.entities[idx] {
                EntitySlot::Live(m) => match m.get(&component) {
                    Some(v) => Some(*v),
                    None => None,
                },
                _ => None,
            }
        } else {
            None
        }
    }

    /// Whether identifier `id` holds a live entity.
    pub fn contains_entity(&self, id: u32) -> (r: bool)
        ensures
            r == is_live(self.slots(), id as int),
    {
        let idx = id as usize;
        if idx < self.entities.len() {
            match &self.entities[idx] {
                EntitySlot::Live(_) => true,
                _ => false,
            }
        } else {
            false
        }
    }

    /// Applies one command to this world's entities and resources.
    pub fn apply(&mut self, cmd: &Command) -> (r: Result<(), RenderError>)
        ensures
            match step(old(self).contents(), *cmd) {
                Ok(c) => r is Ok && final(self).contents() == c,
                Err(e) => r == Err::<(), RenderError>(e) && final(self).contents()
                    == old(self).contents(),
            },
            final(self).loaned_render() == old(self).loaned_render(),
            final(self).loaned_app() == old(self).loaned_app(),
    {
        match cmd {
            Command::Spawn(id) => self.get_or_spawn(*id),
            Command::Insert { entity, component, value } => self.insert_component(
                *entity,
                *component,
                *value,
            ),
            Command::InsertResource { tag, value } => {
                self.insert_resource(*tag, *value);
                Ok(())
            },
        }
    }

    /// Applies the commands in order, stopping at the first error.
    pub fn apply_all(&mut self, cmds: &Vec<Command>) -> (r: Result<(), RenderError>)
        ensures
            match run(old(self).contents(), cmds@) {
                Ok(c) => r is Ok && final(self).contents() == c,
                Err(e) => r == Err::<(), RenderError>(e),
            },
            final(self).loaned_render() == old(self).loaned_render(),
            final(self).loaned_app() == old(self).loaned_app(),
    {
        let ghost c0 = self.contents();
        let mut i: usize = 0;
        while i < cmds.len()
            invariant
                i <= cmds@.len(),
                c0 == old(self).contents(),
                run(c0, cmds@.take(i as int)) == Ok::<Contents, RenderError>(self.contents()),
                self.loaned_render() == old(self).loaned_render(),
                self.loaned_app() == old(self).loaned_app(),
            decreases cmds@.len() - i,
        {
            assert(cmds@.take(i as int + 1).drop_last() =~= cmds@.take(i as int));
            assert(cmds@.take(i as int + 1).last() == cmds@[i as int]);
            let ghost before = self.contents();
            let res = self.apply(&cmds[i]);
            assert(run(c0, cmds@.take(i as int + 1)) == step(before, cmds@[i as int]));
            if res.is_err() {
                proof {
                    lemma_run_stops(c0, cmds@, i as int + 1);
                }
                return res;
            }
            i = i + 1;
        }
        assert(cmds@.take(i as int) =~= cmds@);
        Ok(())
    }
    /// Puts the render world into this world's loan slot, replacing any earlier loan.
    pub fn insert_render_world(&mut self, world: World)
        ensures
            final(self).loaned_render() == Some(world),
            final(self).contents() == old(self).contents(),
            final(self).loaned_app() == old(self).loaned_app(),
    {
        self.loaned_render = Some(Box::new(RenderWorld::new(world)));
    }

    /// Takes the render world out of this world's loan slot.
    pub fn remove_render_world(&mut self) -> (r: Result<World, RenderError>)
        ensures
            match old(self).loaned_render() {
                Some(w) => r == Ok::<World, RenderError>(w),
                None => r == Err::<World, RenderError>(RenderError::MissingResource(ResourceTag::LoanedRenderWorld)),
            },
            final(self).loaned_render() is None,
            final(self).contents() == old(self).contents(),
            final(self).loaned_app() == old(self).loaned_app(),
    {
        let taken = self.loaned_render.take();
        match taken {
            Some(b) => {
                let inner: RenderWorld = *b;
                Ok(inner.into_inner())
            },
            None => Err(RenderError::MissingResource(ResourceTag::LoanedRenderWorld)),
        }
    }

    /// Applies the commands in order to the render world on loan here, stopping at the
    /// first error; without a loan nothing is applied.
    pub fn apply_to_loaned_render(&mut self, cmds: &Vec<Command>) -> (r: Result<(), RenderError>)
        ensures
            final(self).contents() == old(self).contents(),
            final(self).loaned_app() == old(self).loaned_app(),
            final(self).loaned_render() is Some <==> old(self).loaned_render() is Some,
            match old(self).loaned_render() {
                None => r == Err::<(), RenderError>(RenderError::MissingResource(ResourceTag::LoanedRenderWorld)),
                Some(w) => {
                    &&& final(self).loaned_render()->0.loaned_render() == w.loaned_render()
                    &&& final(self).loaned_render()->0.loaned_app() == w.loaned_app()
                    &&& match run(w.contents(), cmds@) {
                        Ok(c) => r is Ok && final(self).loaned_render()->0.contents() == c,
                        Err(e) => r == Err::<(), RenderError>(e),
                    }
                },
            },
    {
        match self.remove_render_world() {
            Ok(mut w) => {
                let r = w.apply_all(cmds);
                self.insert_render_world(w);
                r
            },
            Err(e) => Err(e),
        }
    }

    /// Puts the simulation world into this world's loan slot, replacing any earlier loan.
    pub fn insert_app_world(&mut self, world: World)
        ensures
            final(self).loaned_app() == Some(world),
            final(self).contents() == old(self).contents(),
            final(self).loaned_render() == old(self).loaned_render(),
    {
        self.loaned_app = Some(Box::new(AppWorld::new(world)));
    }

    /// Takes the simulation world out of this world's loan slot.
    pub fn remove_app_world(&mut self) -> (r: Result<World, RenderError>)
        ensures
            match old(self).loaned_app() {
                Some(w) => r == Ok::<World, RenderError>(w),
                None => r == Err::<World, RenderError>(RenderError::MissingResource(ResourceTag::LoanedAppWorld)),
            },
            final(self).loaned_app() is None,
            final(self).contents() == old(self).contents(),
            final(self).loaned_render() == old(self).loaned_render(),
    {
        let taken = self.loaned_app.take();
        match taken {
            Some(b) => {
                let inner: AppWorld = *b;
                Ok(inner.into_inner())
            },
            None => Err(RenderError::MissingResource(ResourceTag::LoanedAppWorld)),
        }
    }

    /// Applies the commands in order to the simulation world on loan here, stopping at the
    /// first error; without a loan nothing is applied.
    pub fn apply_to_loaned_app(&mut self, cmds: &Vec<Command>) -> (r: Result<(), RenderError>)
        ensures
            final(self).contents() == old(self).contents(),
            final(self).loaned_render() == old(self).loaned_render(),
            final(self).loaned_app() is Some <==> old(self).loaned_app() is Some,
            match old(self).loaned_app() {
                None => r == Err::<(), RenderError>(RenderError::MissingResource(ResourceTag::LoanedAppWorld)),
                Some(w) => {
                    &&& final(self).loaned_app()->0.loaned_render() == w.loaned_render()
                    &&& final(self).loaned_app()->0.loaned_app() == w.loaned_app()
                    &&& match run(w.contents(), cmds@) {
                        Ok(c) => r is Ok && final(self).loaned_app()->0.contents() == c,
                        Err(e) => r == Err::<(), RenderError>(e),
                    }
                },
            },
    {
        match self.remove_app_world() {
            Ok(mut w) => {
                let r = w.apply_all(cmds);
                self.insert_app_world(w);
                r
            },
            Err(e) => Err(e),
        }
    }
    /// Whether the render world is on loan to this world.
    pub fn has_loaned_render(&self) -> (r: bool)
        ensures
            r == self.loaned_render() is Some,
    {
        self.loaned_render.is_some()
    }

    /// Whether the simulation world is on loan to this world.
    pub fn has_loaned_app(&self) -> (r: bool)
        ensures
            r == self.loaned_app() is Some,
    {
        self.loaned_app.is_some()
    }
}

} // verus!
