use vstd::prelude::*;
use crate::entity::{indices_of, vertices_of, Entity, Object, Renderable, Updateable};
use crate::mesh::{draw_count, to_draw_count};
use crate::world::WorldView;

verus! {

/// The geometry of one entity, ready to be uploaded as one vertex buffer and
/// one index buffer.
#[derive(Debug)]
pub struct RenderBatch {
    pub vertices: Vec<u8>,
    pub indices: Vec<u32>,
}

impl View for RenderBatch {
    type V = (Seq<u8>, Seq<u32>);

    open spec fn view(&self) -> (Seq<u8>, Seq<u32>) {
        (self.vertices@, self.indices@)
    }
}

impl RenderBatch {
    /// The number of indices, as the 32-bit count that a draw call takes.
    pub fn index_count(&self) -> (n: u32)
        ensures
            n == draw_count(self.indices@.len()),
    {
        to_draw_count(self.indices.len())
    }
}

/// The geometry of `batches`, in order.
pub open spec fn views_of(batches: Seq<RenderBatch>) -> Seq<(Seq<u8>, Seq<u32>)> {
    batches.map_values(|b: RenderBatch| b@)
}

/// What an entity contributes to a frame: its geometry where it has any to
/// draw and, if `flagged` says that the entity's own flag counts, where it
/// wants to be drawn at all.
pub open spec fn draws<T: Renderable>(flagged: bool) -> spec_fn(T) -> Option<
    (Seq<u8>, Seq<u32>),
> {
    |e: T|
        if (!flagged || e.wants_render_spec()) && e.geometry_spec() is Some {
            Some((vertices_of(e.geometry_spec()), indices_of(e.geometry_spec())))
        } else {
            None
        }
}

/// The geometry that a frame draws: that of the entities that are only
/// drawn, then that of the objects that want to be drawn, each as far as it
/// has any this frame.
pub open spec fn drawn<O: Object<Entity<O, U, R>>, U: Updateable<Entity<O, U, R>>, R: Renderable>(
    world: WorldView<O, U, R>,
) -> Seq<(Seq<u8>, Seq<u32>)> {
    world.renderables.filter_map(draws::<R>(false)) + world.objects.filter_map(draws::<O>(true))
}

/// Puts behind `batches` the geometry of each entity of `entities` that is
/// to be drawn.
pub(crate) fn gather_batches<T: Renderable>(entities: &Vec<T>, flagged: bool, batches: &mut Vec<RenderBatch>)
    ensures
        views_of(final(batches)@) == views_of(old(batches)@) + entities@.filter_map(
            draws::<T>(flagged),
        ),
{
    let mut i: usize = 0;
    assert(entities@.take(0).filter_map(draws::<T>(flagged)) =~= Seq::empty());
    assert(views_of(batches@) =~= views_of(old(batches)@) + entities@.take(0).filter_map(
        draws::<T>(flagged),
    ));
    while i < entities.len()
        invariant
            i <= entities@.len(),
            views_of(batches@) == views_of(old(batches)@) + entities@.take(i as int).filter_map(
                draws::<T>(flagged),
            ),
        decreases entities@.len() - i,
    {
        let ghost before = batches@;
        proof {
            entities@.lemma_filter_map_take_succ(draws::<T>(flagged), i as int);
        }
        let entity = &entities[i];
        let wanted = if flagged {
            entity.entity_configuration().wants_render()
        } else {
            true
        };
        if wanted && entity.do_render() {
            batches.push(RenderBatch { vertices: entity.vertices(), indices: entity.indices() });
            assert(views_of(batches@) =~= views_of(before).push(
                (vertices_of(entity.geometry_spec()), indices_of(entity.geometry_spec())),
            ));
        }
        i += 1;
        assert(views_of(batches@) =~= views_of(old(batches)@) + entities@.take(i as int).filter_map(
            draws::<T>(flagged),
        ));
    }
    assert(entities@.take(entities@.len() as int) =~= entities@);
}

} // verus!
