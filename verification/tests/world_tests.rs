use voxel_world::action::{is_named, retain_unnamed, split_actions};
use voxel_world::entity::{
    DeltaTime, Entity, EntityAction, EntityConfiguration, Object, Renderable, TEntity,
    UpdateFrequency, Updateable,
};
use voxel_world::mesh::Geometry;
use voxel_world::render::RenderBatch;
use voxel_world::world::AppWorld;

type Spawned = Entity<Probe, Probe, Probe>;
type Action = EntityAction<Spawned>;
type World = AppWorld<Probe, Probe, Probe>;

/// An entity whose configuration, geometry and answers are set by the test.
struct Probe {
    tag: String,
    frequency: UpdateFrequency,
    wants_render: bool,
    geometry: Option<Geometry>,
    script: fn(&Probe) -> Vec<Action>,
    updates: u32,
    last_delta: u64,
}

fn nothing(_: &Probe) -> Vec<Action> {
    Vec::new()
}

fn probe(tag: &str, frequency: UpdateFrequency) -> Probe {
    Probe {
        tag: tag.to_string(),
        frequency,
        wants_render: false,
        geometry: None,
        script: nothing,
        updates: 0,
        last_delta: 0,
    }
}

fn scripted(tag: &str, frequency: UpdateFrequency, script: fn(&Probe) -> Vec<Action>) -> Probe {
    Probe { script, ..probe(tag, frequency) }
}

fn drawn(tag: &str, wants_render: bool, vertices: Vec<u8>, indices: Vec<u32>) -> Probe {
    Probe {
        wants_render,
        geometry: Some(Geometry { vertices, indices }),
        ..probe(tag, UpdateFrequency::Never)
    }
}

impl TEntity for Probe {
    fn tag_spec(&self) -> &str {
        &self.tag
    }

    fn frequency_spec(&self) -> UpdateFrequency {
        self.frequency
    }

    fn wants_render_spec(&self) -> bool {
        self.wants_render
    }

    fn entity_configuration(&self) -> EntityConfiguration {
        EntityConfiguration::new(&self.tag, self.frequency, self.wants_render)
    }
}

impl Updateable<Spawned> for Probe {
    fn emits(&self, _delta_time: DeltaTime, _actions: &Vec<Action>) -> bool {
        true
    }

    fn update(&mut self, delta_time: DeltaTime) -> Vec<Action> {
        self.updates += 1;
        self.last_delta = delta_time.nanos;
        (self.script)(self)
    }
}

impl Renderable for Probe {
    fn geometry_spec(&self) -> Option<&Geometry> {
        self.geometry.as_ref()
    }

    fn do_render(&self) -> bool {
        self.geometry.is_some()
    }

    fn vertices(&self) -> Vec<u8> {
        self.geometry.as_ref().map(|g| g.vertices.clone()).unwrap_or_default()
    }

    fn indices(&self) -> Vec<u32> {
        self.geometry.as_ref().map(|g| g.indices.clone()).unwrap_or_default()
    }
}

impl Object<Spawned> for Probe {}

fn tags(entities: &Vec<Probe>) -> Vec<String> {
    entities.iter().map(|e| e.tag.clone()).collect()
}

fn updates(entities: &Vec<Probe>) -> Vec<u32> {
    entities.iter().map(|e| e.updates).collect()
}

fn names(list: &[&str]) -> Vec<String> {
    list.iter().map(|n| n.to_string()).collect()
}

const TICK: DeltaTime = DeltaTime { nanos: 16_000_000 };

#[test]
fn configuration_keeps_what_it_was_given() {
    let c = EntityConfiguration::new("Lamp", UpdateFrequency::OnCycle, true);
    assert_eq!(c.tag(), "Lamp");
    assert_eq!(c.update_frequency(), UpdateFrequency::OnCycle);
    assert!(c.wants_render());
    let d = EntityConfiguration::new("", UpdateFrequency::Never, false);
    assert_eq!(d.tag(), "");
    assert_eq!(d.update_frequency(), UpdateFrequency::Never);
    assert!(!d.wants_render());
}

#[test]
fn new_world_is_empty() {
    let world = World::new();
    assert_eq!(world.count_object(), 0);
    assert_eq!(world.count_updateable(), 0);
    assert_eq!(world.count_renderable(), 0);
}

#[test]
fn spawning_appends_to_the_chosen_partition() {
    let mut world = World::new();
    world.spawn_object(probe("o1", UpdateFrequency::Fast));
    world.spawn_updateable(probe("u1", UpdateFrequency::Fast));
    world.spawn_updateable(probe("u2", UpdateFrequency::Fast));
    world.spawn_renderable(probe("r1", UpdateFrequency::Never));
    world.spawn_renderable(probe("r2", UpdateFrequency::Never));
    world.spawn_renderable(probe("r3", UpdateFrequency::Never));
    assert_eq!(world.count_object(), 1);
    assert_eq!(world.count_updateable(), 2);
    assert_eq!(world.count_renderable(), 3);
    assert_eq!(tags(world.objects()), names(&["o1"]));
    assert_eq!(tags(world.updateables()), names(&["u1", "u2"]));
    assert_eq!(tags(world.renderables()), names(&["r1", "r2", "r3"]));
}

#[test]
fn batch_is_split_in_its_order() {
    let batch: Vec<Action> = vec![
        EntityAction::Remove(names(&["a", "b"])),
        EntityAction::Spawn(vec![
            Entity::Object(probe("x", UpdateFrequency::Fast)),
            Entity::Renderable(probe("y", UpdateFrequency::Never)),
        ]),
        EntityAction::Remove(names(&["c"])),
        EntityAction::Spawn(vec![]),
        EntityAction::Spawn(vec![Entity::Updateable(probe("z", UpdateFrequency::Fast))]),
    ];
    let (removed, fresh) = split_actions(batch);
    assert_eq!(removed, names(&["a", "b", "c"]));
    let order: Vec<(u8, String)> = fresh
        .iter()
        .map(|e| match e {
            Entity::Object(p) => (0, p.tag.clone()),
            Entity::Updateable(p) => (1, p.tag.clone()),
            Entity::Renderable(p) => (2, p.tag.clone()),
        })
        .collect();
    assert_eq!(
        order,
        vec![(0, "x".to_string()), (2, "y".to_string()), (1, "z".to_string())]
    );
}

#[test]
fn empty_batch_splits_into_nothing() {
    let (removed, fresh) = split_actions(Vec::<Action>::new());
    assert!(removed.is_empty());
    assert!(fresh.is_empty());
}

#[test]
fn names_are_matched_whole() {
    let list = names(&["Cube", "Main"]);
    assert!(is_named(&list, &"Cube".to_string()));
    assert!(is_named(&list, &"Main".to_string()));
    assert!(!is_named(&list, &"cube".to_string()));
    assert!(!is_named(&list, &"Cub".to_string()));
    assert!(!is_named(&list, &"".to_string()));
    assert!(!is_named(&Vec::new(), &"Cube".to_string()));
}

#[test]
fn retain_drops_every_named_entity_and_keeps_the_order() {
    let entities = vec![
        probe("a", UpdateFrequency::Fast),
        probe("b", UpdateFrequency::Fast),
        probe("a", UpdateFrequency::Fast),
        probe("c", UpdateFrequency::Fast),
    ];
    let kept = retain_unnamed(entities, &names(&["a", "z"]));
    assert_eq!(tags(&kept), names(&["b", "c"]));
}

#[test]
fn removing_an_absent_tag_changes_nothing() {
    let mut world = World::new();
    world.spawn_object(probe("o1", UpdateFrequency::Fast));
    world.spawn_object(probe("o2", UpdateFrequency::Fast));
    world.spawn_updateable(probe("u1", UpdateFrequency::Fast));
    world.spawn_renderable(probe("r1", UpdateFrequency::Never));
    world.spawn_renderable(probe("r2", UpdateFrequency::Never));
    world.apply_actions(vec![EntityAction::Remove(names(&["ghost", "O1"]))]);
    assert_eq!(world.count_object(), 2);
    assert_eq!(world.count_updateable(), 1);
    assert_eq!(world.count_renderable(), 2);
    assert_eq!(tags(world.objects()), names(&["o1", "o2"]));
    assert_eq!(tags(world.updateables()), names(&["u1"]));
    assert_eq!(tags(world.renderables()), names(&["r1", "r2"]));
}

#[test]
fn removal_reaches_every_partition() {
    let mut world = World::new();
    world.spawn_object(probe("x", UpdateFrequency::Fast));
    world.spawn_object(probe("keep", UpdateFrequency::Fast));
    world.spawn_updateable(probe("x", UpdateFrequency::Fast));
    world.spawn_renderable(probe("x", UpdateFrequency::Never));
    world.spawn_renderable(probe("stay", UpdateFrequency::Never));
    world.apply_actions(vec![EntityAction::Remove(names(&["x"]))]);
    assert_eq!(tags(world.objects()), names(&["keep"]));
    assert!(world.updateables().is_empty());
    assert_eq!(tags(world.renderables()), names(&["stay"]));
}

#[test]
fn replacing_leaves_exactly_the_new_entity() {
    let mut world = World::new();
    world.spawn_updateable(probe("A", UpdateFrequency::Fast));
    world.spawn_updateable(probe("other", UpdateFrequency::Fast));
    let mut b = probe("A", UpdateFrequency::OnSecond);
    b.updates = 99;
    world.apply_actions(vec![
        EntityAction::Remove(names(&["A"])),
        EntityAction::Spawn(vec![Entity::Updateable(b)]),
    ]);
    assert_eq!(tags(world.updateables()), names(&["other", "A"]));
    assert_eq!(world.updateables()[1].updates, 99);
    assert_eq!(world.count_object(), 0);
    assert_eq!(world.count_renderable(), 0);
}

#[test]
fn removals_come_before_spawns_whatever_the_order() {
    let mut world = World::new();
    world.spawn_object(probe("A", UpdateFrequency::Fast));
    let mut b = probe("A", UpdateFrequency::Fast);
    b.updates = 5;
    world.apply_actions(vec![
        EntityAction::Spawn(vec![Entity::Object(b)]),
        EntityAction::Remove(names(&["A"])),
    ]);
    assert_eq!(tags(world.objects()), names(&["A"]));
    assert_eq!(world.objects()[0].updates, 5);
}

#[test]
fn spawns_go_to_the_partition_of_their_capability() {
    let mut world = World::new();
    world.spawn_renderable(probe("r0", UpdateFrequency::Never));
    world.apply_actions(vec![EntityAction::Spawn(vec![
        Entity::Renderable(probe("r1", UpdateFrequency::Never)),
        Entity::Object(probe("o1", UpdateFrequency::Fast)),
        Entity::Updateable(probe("u1", UpdateFrequency::Fast)),
        Entity::Renderable(probe("r2", UpdateFrequency::Never)),
    ])]);
    assert_eq!(tags(world.objects()), names(&["o1"]));
    assert_eq!(tags(world.updateables()), names(&["u1"]));
    assert_eq!(tags(world.renderables()), names(&["r0", "r1", "r2"]));
}

#[test]
fn each_pass_updates_only_its_cadence() {
    let mut world = World::new();
    world.spawn_updateable(probe("fast", UpdateFrequency::Fast));
    world.spawn_updateable(probe("second", UpdateFrequency::OnSecond));
    world.spawn_updateable(probe("cycle", UpdateFrequency::OnCycle));
    world.spawn_updateable(probe("never", UpdateFrequency::Never));
    world.spawn_object(probe("fast", UpdateFrequency::Fast));
    world.spawn_object(probe("second", UpdateFrequency::OnSecond));
    world.spawn_object(probe("cycle", UpdateFrequency::OnCycle));
    world.spawn_object(probe("never", UpdateFrequency::Never));
    world.spawn_renderable(probe("fast", UpdateFrequency::Fast));

    world.call_updateables_fast(TICK);
    assert_eq!(updates(world.updateables()), vec![1, 0, 0, 0]);
    assert_eq!(updates(world.objects()), vec![1, 0, 0, 0]);
    world.call_updateables_on_second(TICK);
    assert_eq!(updates(world.updateables()), vec![1, 1, 0, 0]);
    assert_eq!(updates(world.objects()), vec![1, 1, 0, 0]);
    world.call_updateables_on_cycle(TICK);
    world.call_updateables_on_cycle(TICK);
    assert_eq!(updates(world.updateables()), vec![1, 1, 2, 0]);
    assert_eq!(updates(world.objects()), vec![1, 1, 2, 0]);
    assert_eq!(updates(world.renderables()), vec![0]);
    assert_eq!(world.updateables()[0].last_delta, 16_000_000);
    assert_eq!(world.objects()[2].last_delta, 16_000_000);
}

#[test]
fn frame_runs_the_slow_passes_only_on_their_boundaries() {
    let mut world = World::new();
    world.spawn_updateable(probe("fast", UpdateFrequency::Fast));
    world.spawn_updateable(probe("second", UpdateFrequency::OnSecond));
    world.spawn_object(probe("cycle", UpdateFrequency::OnCycle));
    world.update(TICK, false, false);
    assert_eq!(updates(world.updateables()), vec![1, 0]);
    assert_eq!(updates(world.objects()), vec![0]);
    world.update(TICK, true, false);
    assert_eq!(updates(world.updateables()), vec![2, 1]);
    assert_eq!(updates(world.objects()), vec![0]);
    world.update(TICK, false, true);
    assert_eq!(updates(world.updateables()), vec![3, 1]);
    assert_eq!(updates(world.objects()), vec![1]);
    world.update(TICK, true, true);
    assert_eq!(updates(world.updateables()), vec![4, 2]);
    assert_eq!(updates(world.objects()), vec![2]);
}

fn replace_a(_: &Probe) -> Vec<Action> {
    let mut b = probe("A", UpdateFrequency::Fast);
    b.last_delta = 1234;
    vec![
        EntityAction::Remove(vec!["A".to_string()]),
        EntityAction::Spawn(vec![Entity::Updateable(b)]),
    ]
}

#[test]
fn update_that_replaces_itself_leaves_one_entity_with_its_tag() {
    let mut world = World::new();
    world.spawn_updateable(scripted("A", UpdateFrequency::Fast, replace_a));
    world.spawn_updateable(probe("bystander", UpdateFrequency::Fast));
    world.call_updateables_fast(TICK);
    assert_eq!(tags(world.updateables()), names(&["bystander", "A"]));
    let replaced = &world.updateables()[1];
    assert_eq!(replaced.last_delta, 1234);
    assert_eq!(replaced.updates, 0);
    assert_eq!(world.updateables()[0].updates, 1);
}

fn spawn_fast_child(me: &Probe) -> Vec<Action> {
    if me.updates == 1 {
        vec![EntityAction::Spawn(vec![Entity::Updateable(probe("child", UpdateFrequency::Fast))])]
    } else {
        Vec::new()
    }
}

#[test]
fn spawned_entity_waits_for_the_next_pass() {
    let mut world = World::new();
    world.spawn_updateable(scripted("parent", UpdateFrequency::Fast, spawn_fast_child));
    world.call_updateables_fast(TICK);
    assert_eq!(tags(world.updateables()), names(&["parent", "child"]));
    assert_eq!(updates(world.updateables()), vec![1, 0]);
    world.call_updateables_fast(TICK);
    assert_eq!(tags(world.updateables()), names(&["parent", "child"]));
    assert_eq!(updates(world.updateables()), vec![2, 1]);
}

fn remove_victim(_: &Probe) -> Vec<Action> {
    vec![EntityAction::Remove(vec!["victim".to_string()])]
}

#[test]
fn removed_entity_is_still_updated_in_the_running_pass() {
    let mut world = World::new();
    world.spawn_updateable(scripted("killer", UpdateFrequency::Fast, remove_victim));
    world.spawn_updateable(probe("victim", UpdateFrequency::Fast));
    world.spawn_object(probe("victim", UpdateFrequency::OnSecond));
    world.call_updateables_fast(TICK);
    assert_eq!(tags(world.updateables()), names(&["killer"]));
    assert_eq!(world.count_object(), 0);
}

fn spawn_object_child(_: &Probe) -> Vec<Action> {
    vec![EntityAction::Spawn(vec![Entity::Object(probe("from object", UpdateFrequency::Never))])]
}

fn spawn_updateable_child(_: &Probe) -> Vec<Action> {
    vec![EntityAction::Spawn(vec![Entity::Object(probe(
        "from updateable",
        UpdateFrequency::Never,
    ))])]
}

#[test]
fn updateables_are_asked_before_objects() {
    let mut world = World::new();
    world.spawn_object(scripted("o", UpdateFrequency::OnCycle, spawn_object_child));
    world.spawn_updateable(scripted("u", UpdateFrequency::OnCycle, spawn_updateable_child));
    world.call_updateables_on_cycle(TICK);
    assert_eq!(tags(world.objects()), names(&["o", "from updateable", "from object"]));
}

fn views(batches: &[RenderBatch]) -> Vec<(Vec<u8>, Vec<u32>)> {
    batches.iter().map(|b| (b.vertices.clone(), b.indices.clone())).collect()
}

#[test]
fn batches_come_from_renderables_first_then_objects() {
    let mut world = World::new();
    world.spawn_object(drawn("o1", true, vec![1], vec![0, 1, 2]));
    world.spawn_object(drawn("o2", false, vec![2], vec![0]));
    world.spawn_object(probe("o3", UpdateFrequency::Fast));
    world.spawn_renderable(drawn("r1", false, vec![3, 3], vec![5]));
    world.spawn_renderable(probe("r2", UpdateFrequency::Never));
    world.spawn_renderable(drawn("r3", true, vec![], vec![]));
    world.spawn_updateable(drawn("u1", true, vec![9], vec![9]));
    let batches = world.render_batches();
    assert_eq!(
        views(&batches),
        vec![(vec![3, 3], vec![5]), (vec![], vec![]), (vec![1], vec![0, 1, 2])]
    );
    assert_eq!(batches[2].index_count(), 3);
    assert_eq!(batches[1].index_count(), 0);
}

#[test]
fn only_the_last_batch_is_handed_out() {
    let mut world = World::new();
    world.spawn_renderable(drawn("r1", true, vec![1], vec![1]));
    world.spawn_renderable(drawn("r2", true, vec![2], vec![2, 2]));
    let batch = world.call_renderables(false).unwrap();
    assert_eq!((batch.vertices.clone(), batch.indices.clone()), (vec![2], vec![2, 2]));
    assert_eq!(batch.index_count(), 2);
    world.spawn_object(drawn("o1", true, vec![7], vec![7, 7, 7]));
    let batch = world.call_renderables(false).unwrap();
    assert_eq!((batch.vertices, batch.indices), (vec![7], vec![7, 7, 7]));
}

#[test]
fn nothing_is_built_once_a_vertex_buffer_exists() {
    let mut world = World::new();
    world.spawn_renderable(drawn("r1", true, vec![1], vec![1]));
    assert!(world.call_renderables(true).is_none());
    assert!(world.call_renderables(false).is_some());
}

#[test]
fn nothing_is_built_where_nothing_is_drawn() {
    let mut world = World::new();
    assert!(world.call_renderables(false).is_none());
    world.spawn_renderable(probe("r", UpdateFrequency::Never));
    world.spawn_object(drawn("o", false, vec![1], vec![1]));
    world.spawn_updateable(drawn("u", true, vec![1], vec![1]));
    assert!(world.call_renderables(false).is_none());
    assert!(world.render_batches().is_empty());
}
