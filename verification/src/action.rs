use vstd::prelude::*;
use crate::entity::{Entity, EntityAction, TEntity};

verus! {

/// The names that `names` holds, as plain text.
pub open spec fn names_of(names: Seq<String>) -> Seq<Seq<char>> {
    names.map_values(|n: String| n@)
}

/// The names that one action asks to remove.
pub open spec fn removal_of<S>(action: EntityAction<S>) -> Seq<Seq<char>> {
    match action {
        EntityAction::Remove(names) => names_of(names@),
        EntityAction::Spawn(_) => Seq::empty(),
    }
}

/// The entities that one action asks to spawn.
pub open spec fn spawn_of<S>(action: EntityAction<S>) -> Seq<S> {
    match action {
        EntityAction::Spawn(entities) => entities@,
        EntityAction::Remove(_) => Seq::empty(),
    }
}

/// All the names that a batch of actions asks to remove.
pub open spec fn removed_names<S>(actions: Seq<EntityAction<S>>) -> Seq<Seq<char>> {
    actions.map_values(|a: EntityAction<S>| removal_of(a)).flatten()
}

/// All the entities that a batch of actions asks to spawn, in the order of
/// the batch.
pub open spec fn spawned<S>(actions: Seq<EntityAction<S>>) -> Seq<S> {
    actions.map_values(|a: EntityAction<S>| spawn_of(a)).flatten()
}

/// The test that an entity passes when its tag is none of `names`.
pub open spec fn keeps<T: TEntity>(names: Seq<Seq<char>>) -> spec_fn(T) -> bool {
    |e: T| !names.contains(e.tag_spec()@)
}

/// The entities of `entities`, in order, whose tag is none of `names`.
pub open spec fn survivors<T: TEntity>(entities: Seq<T>, names: Seq<Seq<char>>) -> Seq<T> {
    entities.filter(keeps(names))
}

/// Picks the entities registered as objects.
pub open spec fn as_object<O, U, R>() -> spec_fn(Entity<O, U, R>) -> Option<O> {
    |e: Entity<O, U, R>|
        match e {
            Entity::Object(o) => Some(o),
            _ => None,
        }
}

/// Picks the entities registered as updated only.
pub open spec fn as_updateable<O, U, R>() -> spec_fn(Entity<O, U, R>) -> Option<U> {
    |e: Entity<O, U, R>|
        match e {
            Entity::Updateable(u) => Some(u),
            _ => None,
        }
}

/// Picks the entities registered as drawn only.
pub open spec fn as_renderable<O, U, R>() -> spec_fn(Entity<O, U, R>) -> Option<R> {
    |e: Entity<O, U, R>|
        match e {
            Entity::Renderable(r) => Some(r),
            _ => None,
        }
}

/// An empty batch removes and spawns nothing.
pub proof fn lemma_empty_batch<S>()
    ensures
        removed_names(Seq::<EntityAction<S>>::empty()) == Seq::<Seq<char>>::empty(),
        spawned(Seq::<EntityAction<S>>::empty()) == Seq::<S>::empty(),
{
    assert(Seq::<EntityAction<S>>::empty().map_values(|a: EntityAction<S>| removal_of(a))
        =~= Seq::<Seq<Seq<char>>>::empty());
    assert(Seq::<EntityAction<S>>::empty().map_values(|a: EntityAction<S>| spawn_of(a))
        =~= Seq::<Seq<S>>::empty());
}

/// A batch with one more action removes and spawns what the batch did, and
/// then what the action asks for.
pub proof fn lemma_batch_push<S>(actions: Seq<EntityAction<S>>, action: EntityAction<S>)
    ensures
        removed_names(actions.push(action)) == removed_names(actions) + removal_of(action),
        spawned(actions.push(action)) == spawned(actions) + spawn_of(action),
{
    let removal = |a: EntityAction<S>| removal_of(a);
    let spawn = |a: EntityAction<S>| spawn_of(a);
    assert(actions.push(action).map_values(removal) =~= actions.map_values(removal).push(
        removal_of(action),
    ));
    assert(actions.push(action).map_values(spawn) =~= actions.map_values(spawn).push(
        spawn_of(action),
    ));
    actions.map_values(removal).lemma_flatten_push(removal_of(action));
    actions.map_values(spawn).lemma_flatten_push(spawn_of(action));
}

/// Of no entities none survives; of entities with one more, those survive
/// that did, and then the one more unless it is named.
pub proof fn lemma_survivors_push<T: TEntity>(entities: Seq<T>, entity: T, names: Seq<Seq<char>>)
    ensures
        survivors(Seq::<T>::empty(), names) == Seq::<T>::empty(),
        survivors(entities.push(entity), names) == if names.contains(entity.tag_spec()@) {
            survivors(entities, names)
        } else {
            survivors(entities, names).push(entity)
        },
{
    assert(Seq::<T>::empty().filter(keeps::<T>(names)) =~= Seq::<T>::empty()) by {
        reveal(Seq::filter);
    }
    entities.lemma_filter_push(entity, keeps::<T>(names));
}

/// Sorts a batch of actions into the names to remove and the entities to
/// spawn, each in the order of the batch.
pub fn split_actions<S>(actions: Vec<EntityAction<S>>) -> (r: (Vec<String>, Vec<S>))
    ensures
        names_of(r.0@) == removed_names(actions@),
        r.1@ == spawned(actions@),
{
    let mut names: Vec<String> = Vec::new();
    let mut fresh: Vec<S> = Vec::new();
    let ghost all = actions@;
    let ghost removal = |a: EntityAction<S>| removal_of(a);
    let ghost spawn = |a: EntityAction<S>| spawn_of(a);
    assert(names_of(names@) =~= all.take(0).map_values(removal).flatten());
    assert(fresh@ =~= all.take(0).map_values(spawn).flatten());
    for action in it: actions
        invariant
            it.seq() == all,
            removal == |a: EntityAction<S>| removal_of(a),
            spawn == |a: EntityAction<S>| spawn_of(a),
            names_of(names@) == all.take(it.index()).map_values(removal).flatten(),
            fresh@ == all.take(it.index()).map_values(spawn).flatten(),
    {
        let ghost at = it.index();
        let ghost before_names = names@;
        let ghost before_fresh = fresh@;
        proof {
            assert(all.take(at + 1) =~= all.take(at).push(all[at]));
            assert(all.take(at + 1).map_values(removal) =~= all.take(at).map_values(removal).push(
                removal_of(all[at]),
            ));
            assert(all.take(at + 1).map_values(spawn) =~= all.take(at).map_values(spawn).push(
                spawn_of(all[at]),
            ));
            all.take(at).map_values(removal).lemma_flatten_push(removal_of(all[at]));
            all.take(at).map_values(spawn).lemma_flatten_push(spawn_of(all[at]));
        }
        match action {
            EntityAction::Spawn(entities) => {
                let mut entities = entities;
                fresh.append(&mut entities);
                assert(fresh@ =~= before_fresh + spawn_of(all[at]));
                assert(names_of(names@) =~= names_of(before_names) + removal_of(all[at]));
            },
            EntityAction::Remove(tags) => {
                let mut tags = tags;
                names.append(&mut tags);
                assert(names_of(names@) =~= names_of(before_names) + removal_of(all[at]));
                assert(fresh@ =~= before_fresh + spawn_of(all[at]));
            },
        }
    }
    assert(all.take(all.len() as int) =~= all);
    (names, fresh)
}

/// Whether `tag` is one of `names`.
pub fn is_named(names: &Vec<String>, tag: &String) -> (b: bool)
    ensures
        b == names_of(names@).contains(tag@),
{
    let mut i: usize = 0;
    while i < names.len()
        invariant
            i <= names@.len(),
            forall|j: int| 0 <= j < i ==> names_of(names@)[j] != tag@,
        decreases names@.len() - i,
    {
        if names[i] == *tag {
            assert(names_of(names@)[i as int] == tag@);
            return true;
        }
        i += 1;
    }
    false
}

/// Drops from `entities` every entity whose tag is one of `names`; the others
/// stay in their order.
pub fn retain_unnamed<T: TEntity>(entities: Vec<T>, names: &Vec<String>) -> (kept: Vec<T>)
    ensures
        kept@ == survivors(entities@, names_of(names@)),
{
    let mut kept: Vec<T> = Vec::new();
    let ghost all = entities@;
    let ghost text = names_of(names@);
    proof {
        reveal(Seq::filter);
        assert(kept@ =~= all.take(0).filter(keeps::<T>(text)));
    }
    for entity in it: entities
        invariant
            it.seq() == all,
            text == names_of(names@),
            kept@ == all.take(it.index()).filter(keeps::<T>(text)),
    {
        let ghost at = it.index();
        proof {
            assert(all.take(at + 1) =~= all.take(at).push(all[at]));
            all.take(at).lemma_filter_push(all[at], keeps::<T>(text));
        }
        let configuration = entity.entity_configuration();
        if !is_named(names, configuration.tag()) {
            kept.push(entity);
        }
    }
    assert(all.take(all.len() as int) =~= all);
    kept
}

} // verus!
