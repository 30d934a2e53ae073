use vstd::prelude::*;
use crate::action::{
    as_object,
    as_renderable,
    as_updateable,
    removed_names,
    retain_unnamed,
    spawned,
    split_actions,
    survivors,
};
use crate::entity::{DeltaTime, Entity, EntityAction, Object, Renderable, UpdateFrequency, Updateable};
use crate::pass::{advanced, gathered, passed, stepped, stepped_if, update_matching, updated};
use crate::render::{drawn, gather_batches, views_of, RenderBatch};

verus! {

/// What a world holds: its entities by capability, each partition in the
/// order of registration.
pub struct WorldView<O, U, R> {
    pub objects: Seq<O>,
    pub updateables: Seq<U>,
    pub renderables: Seq<R>,
}

/// The world once a batch of actions has been applied to it: first every
/// entity whose tag the batch names is gone, from whichever partition, then
/// the entities that the batch spawns stand behind those that stay, each in
/// the partition of its capability and in the order of the batch.
pub open spec fn applied<O: Object<Entity<O, U, R>>, U: Updateable<Entity<O, U, R>>, R: Renderable>(
    world: WorldView<O, U, R>,
    actions: Seq<EntityAction<Entity<O, U, R>>>,
) -> WorldView<O, U, R> {
    let names = removed_names(actions);
    let fresh = spawned(actions);
    WorldView {
        objects: survivors(world.objects, names) + fresh.filter_map(as_object()),
        updateables: survivors(world.updateables, names) + fresh.filter_map(as_updateable()),
        renderables: survivors(world.renderables, names) + fresh.filter_map(as_renderable()),
    }
}

/// The registry of all entities. Those that are updated and drawn, those
/// that are only updated and those that are only drawn are kept apart.
pub struct AppWorld<O, U, R> where
    O: Object<Entity<O, U, R>>,
    U: Updateable<Entity<O, U, R>>,
    R: Renderable,
 {
    objects: Vec<O>,
    only_updateable: Vec<U>,
    only_renderable: Vec<R>,
}

impl<O, U, R> View for AppWorld<O, U, R> where
    O: Object<Entity<O, U, R>>,
    U: Updateable<Entity<O, U, R>>,
    R: Renderable,
 {
    type V = WorldView<O, U, R>;

    closed spec fn view(&self) -> WorldView<O, U, R> {
        WorldView {
            objects: self.objects@,
            updateables: self.only_updateable@,
            renderables: self.only_renderable@,
        }
    }
}

impl<O, U, R> AppWorld<O, U, R> where
    O: Object<Entity<O, U, R>>,
    U: Updateable<Entity<O, U, R>>,
    R: Renderable,
 {
    /// A world without entities.
    pub fn new() -> (world: Self)
        ensures
            world@.objects == Seq::<O>::empty(),
            world@.updateables == Seq::<U>::empty(),
            world@.renderables == Seq::<R>::empty(),
    {
        AppWorld { objects: Vec::new(), only_updateable: Vec::new(), only_renderable: Vec::new() }
    }

    /// Registers an entity that is updated and drawn, behind those already
    /// there.
    pub fn spawn_object(&mut self, object: O)
        ensures
            final(self)@ == (WorldView { objects: old(self)@.objects.push(object), ..old(self)@ }),
    {
        self.objects.push(object);
    }

    /// Registers an entity that is only updated, behind those already there.
    pub fn spawn_updateable(&mut self, updateable: U)
        ensures
            final(self)@ == (WorldView {
                updateables: old(self)@.updateables.push(updateable),
                ..old(self)@
            }),
    {
        self.only_updateable.push(updateable);
    }

    /// Registers an entity that is only drawn, behind those already there.
    pub fn spawn_renderable(&mut self, renderable: R)
        ensures
            final(self)@ == (WorldView {
                renderables: old(self)@.renderables.push(renderable),
                ..old(self)@
            }),
    {
        self.only_renderable.push(renderable);
    }

    /// The entities that are updated and drawn, in order of registration.
    pub fn objects(&self) -> (entities: &Vec<O>)
        ensures
            entities@ == self@.objects,
    {
        &self.objects
    }

    /// The entities that are only updated, in order of registration.
    pub fn updateables(&self) -> (entities: &Vec<U>)
        ensures
            entities@ == self@.updateables,
    {
        &self.only_updateable
    }

    /// The entities that are only drawn, in order of registration.
    pub fn renderables(&self) -> (entities: &Vec<R>)
        ensures
            entities@ == self@.renderables,
    {
        &self.only_renderable
    }

    /// The object at `index`, to be changed in place. Nothing else in the
    /// world changes.
    pub fn object_mut(&mut self, index: usize) -> (entity: &mut O)
        requires
            index < old(self)@.objects.len(),
        ensures
            *entity == old(self)@.objects[index as int],
            final(self)@ == (WorldView {
                objects: old(self)@.objects.update(index as int, *final(entity)),
                ..old(self)@
            }),
    {
        &mut self.objects[index]
    }

    /// The entity at `index` of those that are only drawn, to be changed in
    /// place. Nothing else in the world changes.
    pub fn renderable_mut(&mut self, index: usize) -> (entity: &mut R)
        requires
            index < old(self)@.renderables.len(),
        ensures
            *entity == old(self)@.renderables[index as int],
            final(self)@ == (WorldView {
                renderables: old(self)@.renderables.update(index as int, *final(entity)),
                ..old(self)@
            }),
    {
        &mut self.only_renderable[index]
    }

    pub fn count_object(&self) -> (n: usize)
        ensures
            n == self@.objects.len(),
    {
        self.objects.len()
    }

    pub fn count_updateable(&self) -> (n: usize)
        ensures
            n == self@.updateables.len(),
    {
        self.only_updateable.len()
    }

    pub fn count_renderable(&self) -> (n: usize)
        ensures
            n == self@.renderables.len(),
    {
        self.only_renderable.len()
    }

    /// Applies a batch of actions: all removals first, then all spawns.
    pub fn apply_actions(&mut self, actions: Vec<EntityAction<Entity<O, U, R>>>)
        ensures
            final(self)@ == applied(old(self)@, actions@),
    {
        let (names, fresh) = split_actions(actions);
        let mut objects: Vec<O> = Vec::new();
        let mut only_updateable: Vec<U> = Vec::new();
        let mut only_renderable: Vec<R> = Vec::new();
        std::mem::swap(&mut self.objects, &mut objects);
        std::mem::swap(&mut self.only_updateable, &mut only_updateable);
        std::mem::swap(&mut self.only_renderable, &mut only_renderable);
        self.objects = retain_unnamed(objects, &names);
        self.only_updateable = retain_unnamed(only_updateable, &names);
        self.only_renderable = retain_unnamed(only_renderable, &names);
        let ghost all = fresh@;
        let ghost kept = self@;
        proof {
            assert(all.take(0).filter_map(as_object::<O, U, R>()) =~= Seq::<O>::empty());
            assert(all.take(0).filter_map(as_updateable::<O, U, R>()) =~= Seq::<U>::empty());
            assert(all.take(0).filter_map(as_renderable::<O, U, R>()) =~= Seq::<R>::empty());
            assert(self@.objects =~= kept.objects + all.take(0).filter_map(as_object()));
            assert(self@.updateables =~= kept.updateables + all.take(0).filter_map(
                as_updateable(),
            ));
            assert(self@.renderables =~= kept.renderables + all.take(0).filter_map(
                as_renderable(),
            ));
        }
        for entity in it: fresh
            invariant
                it.seq() == all,
                self@.objects == kept.objects + all.take(it.index()).filter_map(as_object()),
                self@.updateables == kept.updateables + all.take(it.index()).filter_map(
                    as_updateable(),
                ),
                self@.renderables == kept.renderables + all.take(it.index()).filter_map(
                    as_renderable(),
                ),
        {
            let ghost at = it.index();
            proof {
                all.lemma_filter_map_take_succ(as_object::<O, U, R>(), at);
                all.lemma_filter_map_take_succ(as_updateable::<O, U, R>(), at);
                all.lemma_filter_map_take_succ(as_renderable::<O, U, R>(), at);
            }
            match entity {
                Entity::Object(object) => {
                    self.objects.push(object);
                },
                Entity::Updateable(updateable) => {
                    self.only_updateable.push(updateable);
                },
                Entity::Renderable(renderable) => {
                    self.only_renderable.push(renderable);
                },
            }
            proof {
                assert(self@.objects =~= kept.objects + all.take(at + 1).filter_map(as_object()));
                assert(self@.updateables =~= kept.updateables + all.take(at + 1).filter_map(
                    as_updateable(),
                ));
                assert(self@.renderables =~= kept.renderables + all.take(at + 1).filter_map(
                    as_renderable(),
                ));
            }
        }
        assert(all.take(all.len() as int) =~= all);
    }

    /// One update pass: every entity whose cadence is `frequency` is updated
    /// once, those that are only updated first, then the objects. Hands back
    /// what the entities asked for, with nothing of it applied yet.
    fn run_pass(&mut self, frequency: UpdateFrequency, delta_time: DeltaTime) -> (actions: Vec<
        EntityAction<Entity<O, U, R>>,
    >)
        ensures
            passed(old(self)@, frequency, delta_time, final(self)@, actions@),
    {
        let mut actions: Vec<EntityAction<Entity<O, U, R>>> = Vec::new();
        update_matching(&mut self.only_updateable, frequency, delta_time, &mut actions);
        let ghost by_updateables = choose|emitted: Seq<Vec<EntityAction<Entity<O, U, R>>>>|
            #![trigger gathered(emitted)]
            updated(
                old(self)@.updateables,
                self@.updateables,
                frequency,
                delta_time,
                emitted,
            ) && actions@ == Seq::<EntityAction<Entity<O, U, R>>>::empty() + gathered(emitted);
        let ghost first = actions@;
        update_matching(&mut self.objects, frequency, delta_time, &mut actions);
        let ghost by_objects = choose|emitted: Seq<Vec<EntityAction<Entity<O, U, R>>>>|
            #![trigger gathered(emitted)]
            updated(old(self)@.objects, self@.objects, frequency, delta_time, emitted)
                && actions@ == first + gathered(emitted);
        proof {
            assert(first =~= gathered(by_updateables));
            assert(actions@ == gathered(by_updateables) + gathered(by_objects));
        }
        actions
    }

    /// A pass at `frequency`, and then the batch it gathered applied.
    fn step(&mut self, frequency: UpdateFrequency, delta_time: DeltaTime)
        ensures
            stepped(old(self)@, frequency, delta_time, final(self)@),
    {
        let actions = self.run_pass(frequency, delta_time);
        let ghost between = self@;
        let ghost batch = actions@;
        self.apply_actions(actions);
        assert(passed(old(self)@, frequency, delta_time, between, batch) && self@ == applied(
            between,
            batch,
        ));
    }

    /// The pass that runs every frame: updates every entity whose cadence is
    /// `Fast`, then applies what they asked for.
    pub fn call_updateables_fast(&mut self, delta_time: DeltaTime)
        ensures
            stepped(old(self)@, UpdateFrequency::Fast, delta_time, final(self)@),
    {
        self.step(UpdateFrequency::Fast, delta_time);
    }

    /// The pass that runs once a second: updates every entity whose cadence
    /// is `OnSecond`, then applies what they asked for.
    pub fn call_updateables_on_second(&mut self, delta_time: DeltaTime)
        ensures
            stepped(old(self)@, UpdateFrequency::OnSecond, delta_time, final(self)@),
    {
        self.step(UpdateFrequency::OnSecond, delta_time);
    }

    /// The pass that runs once a cycle: updates every entity whose cadence is
    /// `OnCycle`, then applies what they asked for.
    pub fn call_updateables_on_cycle(&mut self, delta_time: DeltaTime)
        ensures
            stepped(old(self)@, UpdateFrequency::OnCycle, delta_time, final(self)@),
    {
        self.step(UpdateFrequency::OnCycle, delta_time);
    }

    /// One frame of updates: the fast pass, then the once-a-second pass if
    /// `on_second` says that a second boundary was crossed, then the
    /// once-a-cycle pass if `on_cycle` says so of a cycle boundary. The caller
    /// keeps the clock.
    pub fn update(&mut self, delta_time: DeltaTime, on_second: bool, on_cycle: bool)
        ensures
            advanced(old(self)@, delta_time, on_second, on_cycle, final(self)@),
    {
        self.call_updateables_fast(delta_time);
        let ghost fast = self@;
        if on_second {
            self.call_updateables_on_second(delta_time);
        }
        let ghost second = self@;
        if on_cycle {
            self.call_updateables_on_cycle(delta_time);
        }
        assert(stepped_if(on_second, fast, UpdateFrequency::OnSecond, delta_time, second));
    }

    /// The geometry of every entity that is to be drawn this frame, one batch
    /// each: the entities that are only drawn first, then the objects.
    pub fn render_batches(&self) -> (batches: Vec<RenderBatch>)
        ensures
            views_of(batches@) == drawn(self@),
    {
        let mut batches: Vec<RenderBatch> = Vec::new();
        gather_batches(&self.only_renderable, false, &mut batches);
        gather_batches(&self.objects, true, &mut batches);
        assert(views_of(batches@) =~= drawn(self@));
        batches
    }

    /// The geometry to upload this frame, if any. Nothing is built once a
    /// vertex buffer exists, and nothing where no entity is to be drawn. Of
    /// several entities that are to be drawn, only the last one's geometry is
    /// handed out: the frame binds a single pair of buffers.
    pub fn call_renderables(&self, has_vertex_buffer: bool) -> (batch: Option<RenderBatch>)
        ensures
            batch is None <==> has_vertex_buffer || drawn(self@).len() == 0,
            batch is Some ==> batch->0@ == drawn(self@).last(),
    {
        if has_vertex_buffer {
            return None;
        }
        let mut batches = self.render_batches();
        let ghost all = batches@;
        let batch = batches.pop();
        assert(batch is Some ==> batch->0@ == views_of(all).last());
        batch
    }
}

} // verus!
