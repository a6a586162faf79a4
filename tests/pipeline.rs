use bevy_render2::pipeline::{RenderApp, RenderPlugin, RenderStage, StageWrites};
use bevy_render2::schedule::{batch_systems, SystemAccess};
use bevy_render2::scratch::{Role, ScratchCache};
use bevy_render2::world::{AppWorld, Command, RenderError, RenderWorld, ResourceTag, World};

const STAGES: [RenderStage; 6] = [
    RenderStage::Extract,
    RenderStage::Prepare,
    RenderStage::Queue,
    RenderStage::PhaseSort,
    RenderStage::Render,
    RenderStage::Cleanup,
];

fn no_writes() -> StageWrites {
    StageWrites { own: Vec::new(), loaned: Vec::new(), deferred: Vec::new() }
}

fn app_with_entities(n: u32) -> World {
    let mut w = World::new();
    for id in 0..n {
        w.get_or_spawn(id).unwrap();
    }
    w
}

fn run_frame(app: &mut RenderApp, extract: StageWrites) {
    app.begin_frame();
    app.run_stage(RenderStage::Extract, &extract).unwrap();
    for stage in &STAGES[1..] {
        app.run_stage(*stage, &no_writes()).unwrap();
    }
}

#[test]
fn stages_run_in_fixed_order() {
    assert_eq!(RenderStage::Extract.next(), Some(RenderStage::Prepare));
    assert_eq!(RenderStage::Prepare.next(), Some(RenderStage::Queue));
    assert_eq!(RenderStage::Queue.next(), Some(RenderStage::PhaseSort));
    assert_eq!(RenderStage::PhaseSort.next(), Some(RenderStage::Render));
    assert_eq!(RenderStage::Render.next(), Some(RenderStage::Cleanup));
    assert_eq!(RenderStage::Cleanup.next(), None);
    assert!(!RenderStage::Extract.applies_buffers());
    assert!(RenderStage::Queue.applies_buffers());
}

#[test]
fn extract_claims_only_spawned_identifier() {
    let mut app = RenderPlugin.build(app_with_entities(3));
    app.begin_frame();
    assert_eq!(app.render().entity_count(), 3);
    for id in 0..3 {
        assert!(!app.render().contains_entity(id));
        assert_eq!(app.render().get_component(id, 0), None);
    }
    let writes = StageWrites { own: Vec::new(), loaned: vec![Command::Spawn(1)], deferred: Vec::new() };
    app.run_stage(RenderStage::Extract, &writes).unwrap();
    assert!(app.render().contains_entity(1));
    assert!(!app.render().contains_entity(0));
    assert!(!app.render().contains_entity(2));
    assert_eq!(app.render().entity_count(), 3);
    for stage in &STAGES[1..] {
        app.run_stage(*stage, &no_writes()).unwrap();
    }
    assert_eq!(app.render().entity_count(), 0);
    assert_eq!(app.next_stage_to_run(), None);
    app.begin_frame();
    assert_eq!(app.render().entity_count(), 3);
    assert!(!app.render().contains_entity(1));
}

#[test]
fn queue_writes_back_into_simulation_world() {
    let mut sim = app_with_entities(3);
    sim.insert_component(1, 7, 10).unwrap();
    let mut app = RenderPlugin.build(sim);
    app.begin_frame();
    app.run_stage(RenderStage::Extract, &no_writes()).unwrap();
    app.run_stage(RenderStage::Prepare, &no_writes()).unwrap();
    let writes = StageWrites {
        own: vec![Command::Spawn(0)],
        loaned: vec![Command::Insert { entity: 1, component: 7, value: 42 }],
        deferred: vec![Command::Insert { entity: 2, component: 8, value: 5 }],
    };
    app.run_stage(RenderStage::Queue, &writes).unwrap();
    assert_eq!(app.app().get_component(1, 7), Some(42));
    assert_eq!(app.app().get_component(2, 8), Some(5));
    assert_eq!(app.render().get_component(2, 8), None);
    assert!(app.render().contains_entity(0));
    assert!(!app.render().has_loaned_app());
    assert!(!app.app().has_loaned_render());
    assert_eq!(app.next_stage_to_run(), Some(RenderStage::PhaseSort));
}

#[test]
fn extract_returns_the_loan() {
    let mut app = RenderPlugin.build(app_with_entities(2));
    app.begin_frame();
    let writes = StageWrites {
        own: vec![Command::InsertResource { tag: 3, value: 9 }],
        loaned: vec![Command::Insert { entity: 0, component: 1, value: 11 }],
        deferred: vec![Command::InsertResource { tag: 4, value: 12 }],
    };
    app.run_stage(RenderStage::Extract, &writes).unwrap();
    assert!(!app.app().has_loaned_render());
    assert!(!app.app().has_loaned_app());
    assert!(!app.render().has_loaned_app());
    assert_eq!(app.app().get_resource(3), Some(9));
    assert_eq!(app.render().get_resource(3), None);
    assert_eq!(app.render().get_component(0, 1), Some(11));
    assert_eq!(app.app().get_component(0, 1), None);
    assert_eq!(app.render().get_resource(4), Some(12));
    assert_eq!(app.app().get_resource(4), None);
}

#[test]
fn cleanup_empties_render_world_and_keeps_resources() {
    let mut app = RenderPlugin.build(app_with_entities(4));
    let extract = StageWrites {
        own: Vec::new(),
        loaned: vec![Command::Spawn(0), Command::Spawn(3), Command::Spawn(9)],
        deferred: vec![Command::InsertResource { tag: 1, value: 100 }],
    };
    run_frame(&mut app, extract);
    assert_eq!(app.render().entity_count(), 0);
    assert!(!app.render().contains_entity(3));
    assert_eq!(app.render().get_resource(1), Some(100));
    assert_eq!(app.app().entity_count(), 4);
}

#[test]
fn reserved_identifier_collides_until_flushed() {
    let mut w = World::new();
    w.reserve_entities(3);
    assert_eq!(w.entity_count(), 3);
    assert_eq!(w.get_or_spawn(1), Err(RenderError::IdentifierCollision(1)));
    assert!(!w.contains_entity(1));
    w.flush_as_invalid();
    assert_eq!(w.get_or_spawn(1), Ok(()));
    assert!(w.contains_entity(1));
    assert!(!w.contains_entity(0));
    w.reserve_entities(2);
    assert_eq!(w.entity_count(), 3);
}

#[test]
fn render_reservation_covers_every_simulation_identifier() {
    let mut app = RenderPlugin.build(app_with_entities(5));
    app.begin_frame();
    assert!(app.render().entity_count() >= 5);
    let writes = StageWrites { own: Vec::new(), loaned: vec![Command::Spawn(4)], deferred: Vec::new() };
    app.run_stage(RenderStage::Extract, &writes).unwrap();
    assert!(app.render().contains_entity(4));
    assert_eq!(app.render().entity_count(), 5);
}

#[test]
fn spawning_past_the_end_grows_with_invalid_identifiers() {
    let mut w = World::new();
    assert_eq!(w.get_or_spawn(5), Ok(()));
    assert_eq!(w.entity_count(), 6);
    assert!(w.contains_entity(5));
    assert!(!w.contains_entity(3));
    assert_eq!(w.get_or_spawn(3), Ok(()));
    assert!(w.contains_entity(3));
    assert_eq!(w.entity_count(), 6);
}

#[test]
fn scratch_worlds_are_built_once() {
    let mut app = RenderPlugin.build(app_with_entities(2));
    assert_eq!(app.scratch_created(), 0);
    run_frame(&mut app, no_writes());
    assert_eq!(app.scratch_created(), 2);
    for _ in 0..5 {
        run_frame(&mut app, no_writes());
    }
    assert_eq!(app.scratch_created(), 2);
}

#[test]
fn scratch_cache_reuses_what_is_put_back() {
    let mut cache = ScratchCache::new();
    for _ in 0..4 {
        let mut w = cache.take(Role::Render);
        w.insert_resource(1, 2);
        w.clear_entities();
        cache.put(Role::Render, w);
    }
    assert_eq!(cache.created_count(), 1);
    let w = cache.take(Role::Render);
    assert_eq!(w.get_resource(1), Some(2));
    let a = cache.take(Role::App);
    assert_eq!(a.entity_count(), 0);
    assert_eq!(cache.created_count(), 2);
}

#[test]
fn resources_overwrite_and_go_missing() {
    let mut w = World::new();
    w.insert_resource(5, 1);
    w.insert_resource(5, 2);
    assert_eq!(w.get_resource(5), Some(2));
    assert_eq!(w.remove_resource(5), Ok(2));
    assert_eq!(w.remove_resource(5), Err(RenderError::MissingResource(ResourceTag::Value(5))));
    assert_eq!(w.get_resource(5), None);
}

#[test]
fn loan_slots_hand_back_the_world() {
    let mut sim = World::new();
    let mut render = World::new();
    render.insert_resource(2, 3);
    sim.insert_render_world(render);
    assert!(sim.has_loaned_render());
    sim.apply_to_loaned_render(&vec![Command::Spawn(0)]).unwrap();
    let back = sim.remove_render_world().unwrap();
    assert_eq!(back.get_resource(2), Some(3));
    assert!(back.contains_entity(0));
    assert!(!sim.has_loaned_render());
    assert_eq!(
        sim.remove_render_world().err(),
        Some(RenderError::MissingResource(ResourceTag::LoanedRenderWorld))
    );
    assert_eq!(
        sim.remove_app_world().err(),
        Some(RenderError::MissingResource(ResourceTag::LoanedAppWorld))
    );
    assert_eq!(
        sim.apply_to_loaned_app(&Vec::new()),
        Err(RenderError::MissingResource(ResourceTag::LoanedAppWorld))
    );
}

#[test]
fn loaned_write_outside_extract_and_queue_ends_the_frame() {
    let mut app = RenderPlugin.build(app_with_entities(1));
    app.begin_frame();
    app.run_stage(RenderStage::Extract, &no_writes()).unwrap();
    let writes = StageWrites { own: Vec::new(), loaned: vec![Command::Spawn(0)], deferred: Vec::new() };
    assert_eq!(
        app.run_stage(RenderStage::Prepare, &writes),
        Err(RenderError::MissingResource(ResourceTag::LoanedAppWorld))
    );
    assert_eq!(app.next_stage_to_run(), None);
    assert_eq!(app.render().entity_count(), 0);
}

#[test]
fn command_onto_reserved_identifier_collides() {
    let mut w = World::new();
    w.reserve_entities(2);
    assert_eq!(
        w.apply(&Command::Insert { entity: 0, component: 1, value: 2 }),
        Err(RenderError::IdentifierCollision(0))
    );
    assert_eq!(w.get_component(0, 1), None);
    assert_eq!(w.entity_count(), 2);
    assert_eq!(
        w.apply_all(&vec![Command::Spawn(5), Command::Spawn(1), Command::Spawn(6)]),
        Err(RenderError::IdentifierCollision(1))
    );
    assert!(w.contains_entity(5));
    assert!(!w.contains_entity(6));
}

fn access(reads: Vec<u32>, writes: Vec<u32>, exclusive: bool) -> SystemAccess {
    SystemAccess { reads, writes, exclusive }
}

#[test]
fn render_stage_holds_one_exclusive_system() {
    let app = RenderPlugin.build(World::new());
    assert_eq!(app.batches(RenderStage::Render), vec![0]);
    assert_eq!(app.batches(RenderStage::Extract), Vec::<usize>::new());
    assert_eq!(app.batches(RenderStage::Cleanup), Vec::<usize>::new());
}

#[test]
fn readers_share_a_batch_and_writers_do_not() {
    let mut app = RenderPlugin.build(World::new());
    app.add_system(RenderStage::Prepare, access(vec![1], vec![], false));
    app.add_system(RenderStage::Prepare, access(vec![1], vec![], false));
    app.add_system(RenderStage::Prepare, access(vec![], vec![1], false));
    app.add_system(RenderStage::Prepare, access(vec![2], vec![], false));
    app.add_system(RenderStage::Prepare, access(vec![], vec![], true));
    assert_eq!(app.batches(RenderStage::Prepare), vec![0, 0, 1, 0, 2]);
    assert_eq!(app.batches(RenderStage::Queue), Vec::<usize>::new());
}

#[test]
fn conflicts_follow_declared_access() {
    let r1 = access(vec![1], vec![], false);
    let r1b = access(vec![1, 3], vec![4], false);
    let w1 = access(vec![], vec![1], false);
    let w2 = access(vec![7], vec![2], false);
    let ex = access(vec![], vec![], true);
    assert!(!r1.conflicts_with(&r1b));
    assert!(r1.conflicts_with(&w1));
    assert!(w1.conflicts_with(&r1));
    assert!(w1.conflicts_with(&w1));
    assert!(!w1.conflicts_with(&w2));
    assert!(ex.conflicts_with(&r1));
    assert!(r1.conflicts_with(&ex));
    assert_eq!(batch_systems(&vec![w1, w2, r1b, ex]), vec![0, 0, 1, 2]);
}

#[test]
fn reservation_follows_simulation_growth_between_frames() {
    let mut app = RenderPlugin.build(app_with_entities(2));
    run_frame(&mut app, no_writes());
    app.update_app(&vec![Command::Spawn(2), Command::Spawn(3), Command::Insert { entity: 3, component: 1, value: 8 }])
        .unwrap();
    assert_eq!(app.app().entity_count(), 4);
    assert_eq!(app.app().get_component(3, 1), Some(8));
    app.begin_frame();
    assert_eq!(app.render().entity_count(), 4);
    let writes = StageWrites { own: Vec::new(), loaned: vec![Command::Spawn(3)], deferred: Vec::new() };
    app.run_stage(RenderStage::Extract, &writes).unwrap();
    assert!(app.render().contains_entity(3));
    assert!(!app.render().contains_entity(2));
}

#[test]
fn loaned_world_wrappers_expose_the_world() {
    let mut w = World::new();
    w.insert_resource(1, 5);
    let mut rw = RenderWorld::new(w);
    assert_eq!(rw.deref().get_resource(1), Some(5));
    rw.deref_mut().insert_resource(2, 6);
    let back = rw.into_inner();
    assert_eq!(back.get_resource(2), Some(6));
    let mut aw = AppWorld::new(back);
    aw.deref_mut().get_or_spawn(0).unwrap();
    assert!(aw.deref().contains_entity(0));
    assert_eq!(aw.into_inner().entity_count(), 1);
}

#[test]
fn plain_stage_applies_its_buffer_to_the_render_world() {
    let mut app = RenderPlugin.build(app_with_entities(1));
    app.begin_frame();
    app.run_stage(RenderStage::Extract, &no_writes()).unwrap();
    let writes = StageWrites {
        own: vec![Command::Spawn(0)],
        loaned: Vec::new(),
        deferred: vec![Command::Insert { entity: 0, component: 2, value: 3 }],
    };
    app.run_stage(RenderStage::Prepare, &writes).unwrap();
    assert_eq!(app.render().get_component(0, 2), Some(3));
    assert_eq!(app.app().get_component(0, 2), None);
    assert_eq!(app.next_stage_to_run(), Some(RenderStage::Queue));
}
