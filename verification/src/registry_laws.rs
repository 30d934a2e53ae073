use vstd::prelude::*;
use crate::action::{
    as_object,
    as_renderable,
    as_updateable,
    removed_names,
    spawned,
    survivors,
};
use crate::entity::{Entity, EntityAction, Object, Renderable, TEntity, Updateable};
use crate::world::{applied, WorldView};

verus! {

/// The tag of an entity, whatever capability it is registered under.
pub open spec fn entity_tag<O: Object<Entity<O, U, R>>, U: Updateable<Entity<O, U, R>>, R: Renderable>(
    entity: Entity<O, U, R>,
) -> Seq<char> {
    match entity {
        Entity::Object(o) => o.tag_spec()@,
        Entity::Updateable(u) => u.tag_spec()@,
        Entity::Renderable(r) => r.tag_spec()@,
    }
}

/// The test that an entity passes when its tag is `tag`.
pub open spec fn has_tag<T: TEntity>(tag: Seq<char>) -> spec_fn(T) -> bool {
    |e: T| e.tag_spec()@ == tag
}

/// How many entities of the world carry `tag`, over all partitions.
pub open spec fn tagged_count<
    O: Object<Entity<O, U, R>>,
    U: Updateable<Entity<O, U, R>>,
    R: Renderable,
>(world: WorldView<O, U, R>, tag: Seq<char>) -> nat {
    world.objects.filter(has_tag::<O>(tag)).len() + world.updateables.filter(
        has_tag::<U>(tag),
    ).len() + world.renderables.filter(has_tag::<R>(tag)).len()
}

/// Removing names that no entity carries keeps every entity, in its place.
pub proof fn lemma_unnamed_all_survive<T: TEntity>(entities: Seq<T>, names: Seq<Seq<char>>)
    requires
        forall|i: int| 0 <= i < entities.len() ==> !names.contains(#[trigger] entities[i].tag_spec()@),
    ensures
        survivors(entities, names) == entities,
    decreases entities.len(),
{
    reveal(Seq::filter);
    if entities.len() > 0 {
        lemma_unnamed_all_survive(entities.drop_last(), names);
        assert(entities.drop_last().push(entities.last()) =~= entities);
    }
}

/// No entity that survives a removal carries a removed name.
pub proof fn lemma_survivors_are_unnamed<T: TEntity>(
    entities: Seq<T>,
    names: Seq<Seq<char>>,
    tag: Seq<char>,
)
    requires
        names.contains(tag),
    ensures
        survivors(entities, names).filter(has_tag::<T>(tag)).len() == 0,
    decreases entities.len(),
{
    reveal(Seq::filter);
    if entities.len() > 0 {
        lemma_survivors_are_unnamed(entities.drop_last(), names, tag);
        let rest = survivors(entities.drop_last(), names);
        if !names.contains(entities.last().tag_spec()@) {
            rest.lemma_filter_push(entities.last(), has_tag::<T>(tag));
        }
    }
}

/// A batch that only removes, and names no tag that a registered entity
/// carries, leaves the world as it is: the same entities in the same order.
pub proof fn lemma_removing_absent_tags_changes_nothing<
    O: Object<Entity<O, U, R>>,
    U: Updateable<Entity<O, U, R>>,
    R: Renderable,
>(world: WorldView<O, U, R>, actions: Seq<EntityAction<Entity<O, U, R>>>)
    requires
        spawned(actions).len() == 0,
        forall|i: int|
            0 <= i < world.objects.len() ==> !removed_names(actions).contains(
                #[trigger] world.objects[i].tag_spec()@,
            ),
        forall|i: int|
            0 <= i < world.updateables.len() ==> !removed_names(actions).contains(
                #[trigger] world.updateables[i].tag_spec()@,
            ),
        forall|i: int|
            0 <= i < world.renderables.len() ==> !removed_names(actions).contains(
                #[trigger] world.renderables[i].tag_spec()@,
            ),
    ensures
        applied(world, actions) == world,
{
    let names = removed_names(actions);
    let fresh = spawned(actions);
    lemma_unnamed_all_survive(world.objects, names);
    lemma_unnamed_all_survive(world.updateables, names);
    lemma_unnamed_all_survive(world.renderables, names);
    assert(fresh.filter_map(as_object::<O, U, R>()) =~= Seq::<O>::empty());
    assert(fresh.filter_map(as_updateable::<O, U, R>()) =~= Seq::<U>::empty());
    assert(fresh.filter_map(as_renderable::<O, U, R>()) =~= Seq::<R>::empty());
    assert(applied(world, actions).objects =~= world.objects);
    assert(applied(world, actions).updateables =~= world.updateables);
    assert(applied(world, actions).renderables =~= world.renderables);
}

/// Replacing: where a batch removes `tag` and spawns exactly one entity, which
/// carries `tag`, the world then holds exactly one entity with that tag,
/// however many it held before; and that entity is the spawned one, the last
/// of its partition.
pub proof fn lemma_replace_leaves_one<
    O: Object<Entity<O, U, R>>,
    U: Updateable<Entity<O, U, R>>,
    R: Renderable,
>(
    world: WorldView<O, U, R>,
    actions: Seq<EntityAction<Entity<O, U, R>>>,
    tag: Seq<char>,
    entity: Entity<O, U, R>,
)
    requires
        removed_names(actions).contains(tag),
        spawned(actions) == seq![entity],
        entity_tag(entity) == tag,
    ensures
        tagged_count(applied(world, actions), tag) == 1,
        match entity {
            Entity::Object(o) => applied(world, actions).objects.last() == o,
            Entity::Updateable(u) => applied(world, actions).updateables.last() == u,
            Entity::Renderable(r) => applied(world, actions).renderables.last() == r,
        },
{
    reveal(Seq::filter);
    let names = removed_names(actions);
    let fresh = spawned(actions);
    let after = applied(world, actions);
    lemma_survivors_are_unnamed(world.objects, names, tag);
    lemma_survivors_are_unnamed(world.updateables, names, tag);
    lemma_survivors_are_unnamed(world.renderables, names, tag);
    assert(fresh.drop_last() =~= Seq::<Entity<O, U, R>>::empty());
    let new_objects = fresh.filter_map(as_object::<O, U, R>());
    let new_updateables = fresh.filter_map(as_updateable::<O, U, R>());
    let new_renderables = fresh.filter_map(as_renderable::<O, U, R>());
    assert(fresh.drop_last().filter_map(as_object::<O, U, R>()) =~= Seq::<O>::empty());
    assert(fresh.drop_last().filter_map(as_updateable::<O, U, R>()) =~= Seq::<U>::empty());
    assert(fresh.drop_last().filter_map(as_renderable::<O, U, R>()) =~= Seq::<R>::empty());
    Seq::filter_distributes_over_add(survivors(world.objects, names), new_objects, has_tag::<O>(tag));
    Seq::filter_distributes_over_add(
        survivors(world.updateables, names),
        new_updateables,
        has_tag::<U>(tag),
    );
    Seq::filter_distributes_over_add(
        survivors(world.renderables, names),
        new_renderables,
        has_tag::<R>(tag),
    );
    match entity {
        Entity::Object(o) => {
            assert(new_objects =~= seq![o]);
            assert(new_updateables =~= Seq::<U>::empty());
            assert(new_renderables =~= Seq::<R>::empty());
            assert(seq![o].drop_last() =~= Seq::<O>::empty());
            assert(new_objects.filter(has_tag::<O>(tag)) =~= seq![o]);
        },
        Entity::Updateable(u) => {
            assert(new_objects =~= Seq::<O>::empty());
            assert(new_updateables =~= seq![u]);
            assert(new_renderables =~= Seq::<R>::empty());
            assert(seq![u].drop_last() =~= Seq::<U>::empty());
            assert(new_updateables.filter(has_tag::<U>(tag)) =~= seq![u]);
        },
        Entity::Renderable(r) => {
            assert(new_objects =~= Seq::<O>::empty());
            assert(new_updateables =~= Seq::<U>::empty());
            assert(new_renderables =~= seq![r]);
            assert(seq![r].drop_last() =~= Seq::<R>::empty());
            assert(new_renderables.filter(has_tag::<R>(tag)) =~= seq![r]);
        },
    }
}

} // verus!
