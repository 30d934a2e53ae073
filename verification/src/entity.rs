use vstd::prelude::*;
use crate::mesh::Geometry;

verus! {

/// The cadence at which an entity asks to be updated.
#[derive(Clone, Copy, Debug, PartialEq, Eq, Structural)]
pub enum UpdateFrequency {
    /// In no pass.
    Never,
    /// Every frame.
    Fast,
    /// Once a second.
    OnSecond,
    /// Once a cycle.
    OnCycle,
}

/// The time that has passed since the previous frame, in nanoseconds.
#[derive(Clone, Copy, Debug, PartialEq, Eq, Structural)]
pub struct DeltaTime {
    pub nanos: u64,
}

/// What an entity tells the world about itself: the tag it is found by, how
/// often it is updated, and whether it wants to be drawn.
#[derive(Debug)]
pub struct EntityConfiguration {
    tag: String,
    update_frequency: UpdateFrequency,
    wants_render: bool,
}

impl EntityConfiguration {
    pub closed spec fn tag_spec(&self) -> Seq<char> {
        self.tag@
    }

    pub closed spec fn update_frequency_spec(&self) -> UpdateFrequency {
        self.update_frequency
    }

    pub closed spec fn wants_render_spec(&self) -> bool {
        self.wants_render
    }

    pub fn new(tag: &str, update_frequency: UpdateFrequency, wants_render: bool) -> (c:
        EntityConfiguration)
        ensures
            c.tag_spec() == tag@,
            c.update_frequency_spec() == update_frequency,
            c.wants_render_spec() == wants_render,
    {
        EntityConfiguration { tag: tag.to_owned(), update_frequency, wants_render }
    }

    pub fn tag(&self) -> (t: &String)
        ensures
            t@ == self.tag_spec(),
    {
        &self.tag
    }

    pub fn update_frequency(&self) -> (f: UpdateFrequency)
        ensures
            f == self.update_frequency_spec(),
    {
        self.update_frequency
    }

    pub fn wants_render(&self) -> (b: bool)
        ensures
            b == self.wants_render_spec(),
    {
        self.wants_render
    }
}

/// What an update asks the world to do once the pass it ran in is over.
pub enum EntityAction<S> {
    /// Register these entities, in this order.
    Spawn(Vec<S>),
    /// Delete every registered entity whose tag is one of these.
    Remove(Vec<String>),
}

/// An entity together with the capability under which the world registers it.
pub enum Entity<O, U, R> {
    /// Updated and drawn.
    Object(O),
    /// Updated only.
    Updateable(U),
    /// Drawn only.
    Renderable(R),
}

/// What every entity offers, whatever its capabilities.
pub trait TEntity {
    /// The tag the entity is found by.
    spec fn tag_spec(&self) -> &str;

    /// The cadence at which the entity asks to be updated.
    spec fn frequency_spec(&self) -> UpdateFrequency;

    /// Whether the entity wants to be drawn.
    spec fn wants_render_spec(&self) -> bool;

    fn entity_configuration(&self) -> (c: EntityConfiguration)
        ensures
            c.tag_spec() == self.tag_spec()@,
            c.update_frequency_spec() == self.frequency_spec(),
            c.wants_render_spec() == self.wants_render_spec(),
    ;
}

/// Whether two states of an entity have the same configuration.
pub open spec fn same_configuration<T: TEntity>(a: T, b: T) -> bool {
    &&& a.tag_spec()@ == b.tag_spec()@
    &&& a.frequency_spec() == b.frequency_spec()
    &&& a.wants_render_spec() == b.wants_render_spec()
}

/// An entity that takes part in update passes; `S` is what its actions spawn.
pub trait Updateable<S>: TEntity + Sized {
    /// Whether an update of the entity in this state, after `delta_time`, may
    /// hand back `actions`.
    spec fn emits(&self, delta_time: DeltaTime, actions: &Vec<EntityAction<S>>) -> bool;

    /// Advances the entity by `delta_time`. The configuration is fixed when
    /// the entity is made, so an update leaves it as it is.
    fn update(&mut self, delta_time: DeltaTime) -> (actions: Vec<EntityAction<S>>)
        ensures
            same_configuration(*old(self), *final(self)),
            old(self).emits(delta_time, &actions),
    ;
}

/// An entity that can be drawn.
pub trait Renderable: TEntity {
    /// What the entity wants drawn this frame, if anything.
    spec fn geometry_spec(&self) -> Option<&Geometry>;

    /// Whether the entity is to be drawn this frame.
    fn do_render(&self) -> (b: bool)
        ensures
            b == self.geometry_spec() is Some,
    ;

    /// The vertices to draw, as packed bytes; none where nothing is drawn.
    fn vertices(&self) -> (v: Vec<u8>)
        ensures
            v@ == vertices_of(self.geometry_spec()),
    ;

    /// The indices to draw; none where nothing is drawn.
    fn indices(&self) -> (i: Vec<u32>)
        ensures
            i@ == indices_of(self.geometry_spec()),
    ;
}

/// The vertices of `geometry`; none where there is no geometry.
pub open spec fn vertices_of(geometry: Option<&Geometry>) -> Seq<u8> {
    match geometry {
        Some(g) => g.vertices@,
        None => Seq::empty(),
    }
}

/// The indices of `geometry`; none where there is no geometry.
pub open spec fn indices_of(geometry: Option<&Geometry>) -> Seq<u32> {
    match geometry {
        Some(g) => g.indices@,
        None => Seq::empty(),
    }
}

/// An entity that is both updated and drawn.
pub trait Object<S>: Updateable<S> + Renderable {

}

} // verus!
