use vstd::prelude::*;
use crate::entity::{
    same_configuration,
    DeltaTime,
    Entity,
    EntityAction,
    Object,
    Renderable,
    UpdateFrequency,
    Updateable,
};
use crate::world::{applied, WorldView};

verus! {

/// The actions that a pass gathers: what each entity handed back, in the
/// order of the entities.
pub open spec fn gathered<S>(emitted: Seq<Vec<EntityAction<S>>>) -> Seq<EntityAction<S>> {
    emitted.map_values(|v: Vec<EntityAction<S>>| v@).flatten()
}

/// Whether a pass at `frequency` over one partition can lead from `before` to
/// `after` while the entities hand back `emitted`, one batch each. Every
/// entity of that cadence is updated once and hands back what its update
/// allows; every other entity is left as it is and hands back nothing. No
/// entity comes or goes, and none changes its configuration.
pub open spec fn updated<T: Updateable<S>, S>(
    before: Seq<T>,
    after: Seq<T>,
    frequency: UpdateFrequency,
    delta_time: DeltaTime,
    emitted: Seq<Vec<EntityAction<S>>>,
) -> bool {
    &&& after.len() == before.len()
    &&& emitted.len() == before.len()
    &&& forall|i: int|
        #![trigger before[i]]
        0 <= i < before.len() ==> {
            &&& same_configuration(before[i], after[i])
            &&& if before[i].frequency_spec() == frequency {
                before[i].emits(delta_time, &emitted[i])
            } else {
                after[i] == before[i] && emitted[i]@.len() == 0
            }
        }
}

/// Whether a pass at `frequency` can lead from `before` to `after` and gather
/// `actions`: the entities that are only updated come first, then the
/// objects; those that are only drawn are not touched.
pub open spec fn passed<O: Object<Entity<O, U, R>>, U: Updateable<Entity<O, U, R>>, R: Renderable>(
    before: WorldView<O, U, R>,
    frequency: UpdateFrequency,
    delta_time: DeltaTime,
    after: WorldView<O, U, R>,
    actions: Seq<EntityAction<Entity<O, U, R>>>,
) -> bool {
    exists|
        by_updateables: Seq<Vec<EntityAction<Entity<O, U, R>>>>,
        by_objects: Seq<Vec<EntityAction<Entity<O, U, R>>>>,
    |
        #![trigger gathered(by_updateables), gathered(by_objects)]
        {
            &&& updated(before.updateables, after.updateables, frequency, delta_time, by_updateables)
            &&& updated(before.objects, after.objects, frequency, delta_time, by_objects)
            &&& after.renderables == before.renderables
            &&& actions == gathered(by_updateables) + gathered(by_objects)
        }
}

/// Whether a pass at `frequency`, followed by applying what it gathered, can
/// lead from `before` to `after`. The actions are applied only when the whole
/// pass is over, so an entity spawned by the pass is not updated in it.
pub open spec fn stepped<O: Object<Entity<O, U, R>>, U: Updateable<Entity<O, U, R>>, R: Renderable>(
    before: WorldView<O, U, R>,
    frequency: UpdateFrequency,
    delta_time: DeltaTime,
    after: WorldView<O, U, R>,
) -> bool {
    exists|between: WorldView<O, U, R>, actions: Seq<EntityAction<Entity<O, U, R>>>|
        #![trigger passed(before, frequency, delta_time, between, actions)]
        passed(before, frequency, delta_time, between, actions) && after == applied(
            between,
            actions,
        )
}

/// Updates the entities of `entities` whose cadence is `frequency`, in order,
/// and puts what they hand back behind `actions`.
pub(crate) fn update_matching<T: Updateable<S>, S>(
    entities: &mut Vec<T>,
    frequency: UpdateFrequency,
    delta_time: DeltaTime,
    actions: &mut Vec<EntityAction<S>>,
)
    ensures
        exists|emitted: Seq<Vec<EntityAction<S>>>|
            #![trigger gathered(emitted)]
            updated(old(entities)@, final(entities)@, frequency, delta_time, emitted)
                && final(actions)@ == old(actions)@ + gathered(emitted),
{
    let ghost mut emitted: Seq<Vec<EntityAction<S>>> = Seq::empty();
    let count = entities.len();
    let mut i: usize = 0;
    assert(actions@ =~= old(actions)@ + gathered(emitted));
    while i < count
        invariant
            i <= count,
            count == old(entities)@.len(),
            entities@.len() == count,
            emitted.len() == i,
            actions@ == old(actions)@ + gathered(emitted),
            forall|j: int| i <= j < count ==> entities@[j] == old(entities)@[j],
            forall|j: int|
                #![trigger old(entities)@[j]]
                0 <= j < i ==> {
                    &&& same_configuration(old(entities)@[j], entities@[j])
                    &&& if old(entities)@[j].frequency_spec() == frequency {
                        old(entities)@[j].emits(delta_time, &emitted[j])
                    } else {
                        entities@[j] == old(entities)@[j] && emitted[j]@.len() == 0
                    }
                },
        decreases count - i,
    {
        let ghost before = entities@;
        let ghost gathered_before = emitted;
        let configuration = entities[i].entity_configuration();
        let mut batch: Vec<EntityAction<S>> = Vec::new();
        if configuration.update_frequency() == frequency {
            batch = entities[i].update(delta_time);
        }
        proof {
            emitted = emitted.push(batch);
            assert(emitted.map_values(|v: Vec<EntityAction<S>>| v@) =~= gathered_before.map_values(
                |v: Vec<EntityAction<S>>| v@,
            ).push(batch@));
            gathered_before.map_values(|v: Vec<EntityAction<S>>| v@).lemma_flatten_push(batch@);
        }
        actions.append(&mut batch);
        assert(actions@ =~= old(actions)@ + gathered(emitted));
        i += 1;
    }
    assert(updated(old(entities)@, entities@, frequency, delta_time, emitted));
}

/// Whether a pass that runs only if `due` can lead from `before` to `after`.
pub open spec fn stepped_if<
    O: Object<Entity<O, U, R>>,
    U: Updateable<Entity<O, U, R>>,
    R: Renderable,
>(
    due: bool,
    before: WorldView<O, U, R>,
    frequency: UpdateFrequency,
    delta_time: DeltaTime,
    after: WorldView<O, U, R>,
) -> bool {
    if due {
        stepped(before, frequency, delta_time, after)
    } else {
        after == before
    }
}

/// Whether one frame can lead from `before` to `after`: the fast pass, then
/// the once-a-second pass where a second boundary was crossed, then the
/// once-a-cycle pass where a cycle boundary was crossed, each followed by
/// applying what it gathered.
pub open spec fn advanced<O: Object<Entity<O, U, R>>, U: Updateable<Entity<O, U, R>>, R: Renderable>(
    before: WorldView<O, U, R>,
    delta_time: DeltaTime,
    on_second: bool,
    on_cycle: bool,
    after: WorldView<O, U, R>,
) -> bool {
    exists|fast: WorldView<O, U, R>, second: WorldView<O, U, R>|
        #![trigger stepped_if(on_second, fast, UpdateFrequency::OnSecond, delta_time, second)]
        {
            &&& stepped(before, UpdateFrequency::Fast, delta_time, fast)
            &&& stepped_if(on_second, fast, UpdateFrequency::OnSecond, delta_time, second)
            &&& stepped_if(on_cycle, second, UpdateFrequency::OnCycle, delta_time, after)
        }
}

} // verus!
