use vstd::prelude::*;
use rand::rngs::ThreadRng;
use crate::action::{
    as_object,
    as_renderable,
    as_updateable,
    lemma_batch_push,
    lemma_empty_batch,
    lemma_survivors_push,
    removed_names,
    spawned,
    survivors,
};
use crate::cube::Cube;
use crate::entity::{
    DeltaTime,
    Entity,
    EntityAction,
    EntityConfiguration,
    TEntity,
    UpdateFrequency,
    Updateable,
};
use crate::generator::{gives, is_generated_or_rejected, terrain, WorldGenerator};
use crate::pass::{gathered, passed, stepped, updated};
use crate::registry_laws::lemma_unnamed_all_survive;
use crate::voxel_map::is_surface_of;
use crate::world::{applied, WorldView};

verus! {

/// The side of the plane that the scene's terrain is sampled on.
pub const SCENE_SIZE: u32 = 128;

/// A source of terrain samples that can be asked for a plane of
/// `SCENE_SIZE` by `SCENE_SIZE` columns with any seed.
struct Sampler<F: Fn(u32, u32) -> Vec<i32>> {
    sample: F,
}

impl<F: Fn(u32, u32) -> Vec<i32>> Sampler<F> {
    #[verifier::type_invariant]
    spec fn takes_any_seed(self) -> bool {
        forall|seed: u32| call_requires(self.sample, (seed, SCENE_SIZE))
    }

    fn new(sample: F) -> (sampler: Self)
        requires
            forall|seed: u32| call_requires(sample, (seed, SCENE_SIZE)),
        ensures
            sampler.sample == sample,
    {
        Sampler { sample }
    }

    fn get(&self) -> (sample: &F)
        ensures
            *sample == self.sample,
            forall|seed: u32| call_requires(*sample, (seed, SCENE_SIZE)),
    {
        proof {
            use_type_invariant(self);
        }
        &self.sample
    }
}

/// The scene that stands in the world until its first update: it then draws
/// a seed, builds the terrain for it and has itself replaced by the cube that
/// draws the terrain's surface.
pub struct MainScene<F: Fn(u32, u32) -> Vec<i32>> {
    rng: ThreadRng,
    sampler: Sampler<F>,
}

/// Whether `actions` replaces the scene by the terrain over the given plane:
/// the removal of the scene itself, then the spawning of one unprepared cube
/// whose instances are the surface of the terrain.
pub open spec fn replaces_scene_by_terrain<O, F: Fn(u32, u32) -> Vec<i32>>(
    size: int,
    depths: Seq<i32>,
    actions: Seq<EntityAction<Entity<O, MainScene<F>, Cube>>>,
) -> bool {
    &&& actions.len() == 2
    &&& actions[0] is Remove
    &&& actions[0]->Remove_0@.len() == 1
    &&& actions[0]->Remove_0@[0]@ == "MainScene"@
    &&& actions[1] is Spawn
    &&& actions[1]->Spawn_0@.len() == 1
    &&& actions[1]->Spawn_0@[0] is Renderable
    &&& actions[1]->Spawn_0@[0]->Renderable_0.mesh_spec() is None
    &&& is_surface_of(
        actions[1]->Spawn_0@[0]->Renderable_0.instances_spec(),
        terrain(size, depths),
    )
}

/// Whether `actions` is what an update of the scene hands back when its
/// source gave the samples `depths`: the replacement of the scene by the
/// terrain over them or, where they are not one for each column, nothing.
pub open spec fn answers_samples<O, F: Fn(u32, u32) -> Vec<i32>>(
    depths: Seq<i32>,
    actions: Seq<EntityAction<Entity<O, MainScene<F>, Cube>>>,
) -> bool {
    if depths.len() == SCENE_SIZE * SCENE_SIZE {
        replaces_scene_by_terrain(SCENE_SIZE as int, depths, actions)
    } else {
        actions.len() == 0
    }
}

/// What the scene's batch removes and spawns: the scene's own tag, and the
/// one cube.
pub proof fn lemma_scene_batch<O, F: Fn(u32, u32) -> Vec<i32>>(
    size: int,
    depths: Seq<i32>,
    actions: Seq<EntityAction<Entity<O, MainScene<F>, Cube>>>,
)
    requires
        replaces_scene_by_terrain(size, depths, actions),
    ensures
        removed_names(actions) == seq!["MainScene"@],
        spawned(actions) == seq![actions[1]->Spawn_0@[0]],
{
    let none = Seq::<EntityAction<Entity<O, MainScene<F>, Cube>>>::empty();
    lemma_empty_batch::<Entity<O, MainScene<F>, Cube>>();
    lemma_batch_push(none, actions[0]);
    lemma_batch_push(none.push(actions[0]), actions[1]);
    assert(none.push(actions[0]).push(actions[1]) =~= actions);
    assert(removed_names(actions) =~= seq!["MainScene"@]);
    assert(spawned(actions) =~= seq![actions[1]->Spawn_0@[0]]);
}

/// Whether a world that held the scene and nothing else holds, after its
/// first fast pass, what answers the samples `depths`: one unprepared cube,
/// registered as drawn only, whose instances are the surface of the terrain
/// over the samples or, where they are not one for each column, the scene
/// still and nothing else.
pub open spec fn holds_answer<F: Fn(u32, u32) -> Vec<i32>>(
    depths: Seq<i32>,
    after: WorldView<Cube, MainScene<F>, Cube>,
) -> bool {
    &&& after.objects.len() == 0
    &&& if depths.len() == SCENE_SIZE * SCENE_SIZE {
        &&& after.updateables.len() == 0
        &&& after.renderables.len() == 1
        &&& after.renderables[0].mesh_spec() is None
        &&& is_surface_of(
            after.renderables[0].instances_spec(),
            terrain(SCENE_SIZE as int, depths),
        )
    } else {
        &&& after.updateables.len() == 1
        &&& after.renderables.len() == 0
    }
}

/// In a world that holds the scene and nothing else, the first fast pass
/// replaces the scene by the terrain over a plane of samples that the scene's
/// source may give for some seed.
pub proof fn lemma_first_pass_replaces_scene<F: Fn(u32, u32) -> Vec<i32>>(
    scene: MainScene<F>,
    delta_time: DeltaTime,
    after: WorldView<Cube, MainScene<F>, Cube>,
)
    requires
        stepped(
            WorldView {
                objects: Seq::<Cube>::empty(),
                updateables: seq![scene],
                renderables: Seq::<Cube>::empty(),
            },
            UpdateFrequency::Fast,
            delta_time,
            after,
        ),
    ensures
        exists|seed: u32, depths: Vec<i32>| #[trigger]
            gives(scene.sample_spec(), seed, SCENE_SIZE, depths) && holds_answer(depths@, after),
{
    let before = WorldView {
        objects: Seq::<Cube>::empty(),
        updateables: seq![scene],
        renderables: Seq::<Cube>::empty(),
    };
    let (between, actions) = choose|
        between: WorldView<Cube, MainScene<F>, Cube>,
        actions: Seq<EntityAction<Entity<Cube, MainScene<F>, Cube>>>,
    |
        #![trigger passed(before, UpdateFrequency::Fast, delta_time, between, actions)]
        passed(before, UpdateFrequency::Fast, delta_time, between, actions) && after == applied(
            between,
            actions,
        );
    let (by_updateables, by_objects) = choose|
        by_updateables: Seq<Vec<EntityAction<Entity<Cube, MainScene<F>, Cube>>>>,
        by_objects: Seq<Vec<EntityAction<Entity<Cube, MainScene<F>, Cube>>>>,
    |
        #![trigger gathered(by_updateables), gathered(by_objects)]
        {
            &&& updated(
                before.updateables,
                between.updateables,
                UpdateFrequency::Fast,
                delta_time,
                by_updateables,
            )
            &&& updated(before.objects, between.objects, UpdateFrequency::Fast, delta_time, by_objects)
            &&& between.renderables == before.renderables
            &&& actions == gathered(by_updateables) + gathered(by_objects)
        };
    let batch = by_updateables[0];
    assert(before.updateables[0] == scene);
    assert(scene.emits(delta_time, &batch));
    let (seed, depths) = choose|seed: u32, depths: Vec<i32>| #[trigger]
        gives(scene.sample_spec(), seed, SCENE_SIZE, depths) && answers_samples(depths@, batch@);
    assert(actions == batch@) by {
        assert(by_objects =~= Seq::empty());
        assert(by_objects.map_values(|v: Vec<EntityAction<Entity<Cube, MainScene<F>, Cube>>>| v@)
            =~= Seq::empty());
        assert(by_updateables.map_values(
            |v: Vec<EntityAction<Entity<Cube, MainScene<F>, Cube>>>| v@,
        ) =~= seq![batch@]);
        seq![batch@].lemma_flatten_singleton();
        assert(gathered(by_updateables) + gathered(by_objects) =~= batch@);
    }
    let left = between.updateables[0];
    assert(between.updateables =~= Seq::<MainScene<F>>::empty().push(left));
    assert(between.objects =~= Seq::<Cube>::empty());
    assert(between.renderables =~= Seq::<Cube>::empty());
    assert(before.updateables[0].tag_spec()@ == left.tag_spec()@);
    if depths@.len() == SCENE_SIZE * SCENE_SIZE {
        lemma_scene_batch(SCENE_SIZE as int, depths@, actions);
        let names = removed_names(actions);
        let fresh = spawned(actions);
        let cube = actions[1]->Spawn_0@[0]->Renderable_0;
        assert(fresh =~= seq![Entity::<Cube, MainScene<F>, Cube>::Renderable(cube)]);
        Seq::lemma_filter_map_singleton(
            Entity::<Cube, MainScene<F>, Cube>::Renderable(cube),
            as_object::<Cube, MainScene<F>, Cube>(),
        );
        Seq::lemma_filter_map_singleton(
            Entity::<Cube, MainScene<F>, Cube>::Renderable(cube),
            as_updateable::<Cube, MainScene<F>, Cube>(),
        );
        Seq::lemma_filter_map_singleton(
            Entity::<Cube, MainScene<F>, Cube>::Renderable(cube),
            as_renderable::<Cube, MainScene<F>, Cube>(),
        );
        assert(names[0] == "MainScene"@);
        lemma_survivors_push(Seq::<MainScene<F>>::empty(), left, names);
        lemma_survivors_push(Seq::<Cube>::empty(), cube, names);
        assert(after.updateables =~= Seq::<MainScene<F>>::empty());
        assert(after.objects =~= Seq::<Cube>::empty());
        assert(after.renderables =~= seq![cube]);
    } else {
        lemma_empty_batch::<Entity<Cube, MainScene<F>, Cube>>();
        assert(actions =~= Seq::empty());
        let names = removed_names(actions);
        let fresh = spawned(actions);
        lemma_unnamed_all_survive(between.updateables, names);
        lemma_unnamed_all_survive(between.objects, names);
        lemma_unnamed_all_survive(between.renderables, names);
        assert(fresh.filter_map(as_object::<Cube, MainScene<F>, Cube>()) =~= Seq::<Cube>::empty());
        assert(fresh.filter_map(as_updateable::<Cube, MainScene<F>, Cube>()) =~= Seq::<
            MainScene<F>,
        >::empty());
        assert(fresh.filter_map(as_renderable::<Cube, MainScene<F>, Cube>()) =~= Seq::<
            Cube,
        >::empty());
        assert(after.updateables =~= between.updateables);
        assert(after.objects =~= Seq::<Cube>::empty());
        assert(after.renderables =~= Seq::<Cube>::empty());
    }
    assert(gives(scene.sample_spec(), seed, SCENE_SIZE, depths) && holds_answer(depths@, after));
}

impl<F: Fn(u32, u32) -> Vec<i32>> MainScene<F> {
    /// The tag that the scene carries.
    pub const TAG: &'static str = "MainScene";

    /// The source that the scene asks for its samples.
    pub closed spec fn sample_spec(&self) -> F {
        self.sampler.sample
    }

    /// A scene that draws its seed from `rng` and asks `sample` for the
    /// samples, with the seed and `SCENE_SIZE`.
    pub fn new(rng: ThreadRng, sample: F) -> (scene: Self)
        requires
            forall|seed: u32| call_requires(sample, (seed, SCENE_SIZE)),
        ensures
            scene.sample_spec() == sample,
    {
        MainScene { rng, sampler: Sampler::new(sample) }
    }
}

impl<F: Fn(u32, u32) -> Vec<i32>> TEntity for MainScene<F> {
    open spec fn tag_spec(&self) -> &str {
        "MainScene"
    }

    open spec fn frequency_spec(&self) -> UpdateFrequency {
        UpdateFrequency::Fast
    }

    open spec fn wants_render_spec(&self) -> bool {
        false
    }

    fn entity_configuration(&self) -> (c: EntityConfiguration)
        ensures
            c.tag_spec() == "MainScene"@,
            c.update_frequency_spec() == UpdateFrequency::Fast,
            !c.wants_render_spec(),
    {
        EntityConfiguration::new(Self::TAG, UpdateFrequency::Fast, false)
    }
}

impl<O, F: Fn(u32, u32) -> Vec<i32>> Updateable<Entity<O, MainScene<F>, Cube>> for MainScene<F> {
    /// The scene hands back what answers some plane of samples that its
    /// source may give for some seed.
    open spec fn emits(
        &self,
        delta_time: DeltaTime,
        actions: &Vec<EntityAction<Entity<O, MainScene<F>, Cube>>>,
    ) -> bool {
        exists|seed: u32, depths: Vec<i32>| #[trigger]
            gives(self.sample_spec(), seed, SCENE_SIZE, depths) && answers_samples(
                depths@,
                actions@,
            )
    }

    fn update(&mut self, delta_time: DeltaTime) -> (actions: Vec<
        EntityAction<Entity<O, MainScene<F>, Cube>>,
    >) {
        let mut actions: Vec<EntityAction<Entity<O, MainScene<F>, Cube>>> = Vec::new();
        let generated = WorldGenerator::from_random_seed(
            &mut self.rng,
            SCENE_SIZE,
            self.sampler.get(),
        );
        proof {
            let (seed, depths) = choose|seed: u32, depths: Vec<i32>| #[trigger]
                gives(old(self).sample_spec(), seed, SCENE_SIZE, depths)
                    && is_generated_or_rejected(generated, seed, SCENE_SIZE, depths@);
            assert(gives(old(self).sample_spec(), seed, SCENE_SIZE, depths));
        }
        match generated {
            Ok(world_generator) => {
                let instances = world_generator.to_instances();
                let cube = Cube::new(instances);
                let mut names: Vec<String> = Vec::new();
                names.push(Self::TAG.to_owned());
                let mut spawned: Vec<Entity<O, MainScene<F>, Cube>> = Vec::new();
                spawned.push(Entity::Renderable(cube));
                actions.push(EntityAction::Remove(names));
                actions.push(EntityAction::Spawn(spawned));
            },
            Err(_) => {},
        }
        actions
    }
}

} // verus!
