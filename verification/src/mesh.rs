use vstd::prelude::*;
use crate::voxel::Instance;

verus! {

/// Why an entity could not be made ready for drawing.
#[derive(Clone, Copy, Debug, PartialEq, Eq, Structural)]
pub enum EngineError {
    /// An asset that the entity needs is not there.
    MissingAsset,
    /// An asset that the entity needs cannot be read.
    MalformedAsset,
}

/// The geometry of a mesh as it is uploaded: the vertices as packed bytes,
/// and the indices that string them into triangles.
#[derive(Debug)]
pub struct Geometry {
    pub vertices: Vec<u8>,
    pub indices: Vec<u32>,
}

/// A copy of `source`.
pub fn copy_instances(source: &Vec<Instance>) -> (copy: Vec<Instance>)
    ensures
        copy@ == source@,
{
    let mut copy: Vec<Instance> = Vec::new();
    let mut i: usize = 0;
    while i < source.len()
        invariant
            i <= source@.len(),
            copy@ == source@.take(i as int),
        decreases source@.len() - i,
    {
        copy.push(source[i]);
        i += 1;
        assert(copy@ =~= source@.take(i as int));
    }
    assert(source@.take(source@.len() as int) =~= source@);
    copy
}

/// A copy of `source`.
pub fn copy_bytes(source: &Vec<u8>) -> (copy: Vec<u8>)
    ensures
        copy@ == source@,
{
    let mut copy: Vec<u8> = Vec::new();
    let mut i: usize = 0;
    while i < source.len()
        invariant
            i <= source@.len(),
            copy@ == source@.take(i as int),
        decreases source@.len() - i,
    {
        copy.push(source[i]);
        i += 1;
        assert(copy@ =~= source@.take(i as int));
    }
    assert(source@.take(source@.len() as int) =~= source@);
    copy
}

/// A copy of `source`.
pub fn copy_indices(source: &Vec<u32>) -> (copy: Vec<u32>)
    ensures
        copy@ == source@,
{
    let mut copy: Vec<u32> = Vec::new();
    let mut i: usize = 0;
    while i < source.len()
        invariant
            i <= source@.len(),
            copy@ == source@.take(i as int),
        decreases source@.len() - i,
    {
        copy.push(source[i]);
        i += 1;
        assert(copy@ =~= source@.take(i as int));
    }
    assert(source@.take(source@.len() as int) =~= source@);
    copy
}

/// A length as the 32-bit count that a draw call takes: the low 32 bits.
pub open spec fn draw_count(len: nat) -> u32 {
    (len as u64 % 0x1_0000_0000) as u32
}

/// The low 32 bits of `len`.
pub fn to_draw_count(len: usize) -> (n: u32)
    ensures
        n == draw_count(len as nat),
{
    (len as u64 % 0x1_0000_0000) as u32
}

/// What a mesh offers the pass that draws it, as far as plain data goes.
pub trait TMesh {
    /// The indices of the mesh's geometry.
    spec fn indices_spec(&self) -> &Vec<u32>;

    /// The instances baked into the mesh.
    spec fn instances_spec(&self) -> &Vec<Instance>;

    /// The name the mesh was loaded under, if any.
    spec fn name_spec(&self) -> Option<&String>;

    fn index_count(&self) -> (n: u32)
        ensures
            n == draw_count(self.indices_spec()@.len()),
    ;

    /// Makes `instance` the mesh's only instance.
    fn set_instance(&mut self, instance: Instance)
        ensures
            final(self).instances_spec()@ == seq![instance],
            final(self).indices_spec() == old(self).indices_spec(),
            final(self).name_spec() == old(self).name_spec(),
    {
        let mut instances: Vec<Instance> = Vec::new();
        instances.push(instance);
        self.set_instances(instances);
    }

    /// Replaces the mesh's instances.
    fn set_instances(&mut self, instances: Vec<Instance>)
        ensures
            final(self).instances_spec()@ == instances@,
            final(self).indices_spec() == old(self).indices_spec(),
            final(self).name_spec() == old(self).name_spec(),
    ;

    fn instance_count(&self) -> (n: u32)
        ensures
            n == draw_count(self.instances_spec()@.len()),
    ;

    fn name(&self) -> (n: Option<String>)
        ensures
            n is Some <==> self.name_spec() is Some,
            n is Some ==> n->0@ == self.name_spec()->0@,
    ;
}

/// A mesh held as plain data: its geometry, the instances baked into it, and
/// the name it was loaded under, if any.
#[derive(Debug)]
pub struct StandardMesh {
    geometry: Geometry,
    instances: Vec<Instance>,
    name: Option<String>,
}

impl StandardMesh {
    pub closed spec fn geometry_spec(&self) -> &Geometry {
        &self.geometry
    }

    pub fn new(geometry: Geometry, instances: Vec<Instance>, name: Option<String>) -> (mesh:
        StandardMesh)
        ensures
            *mesh.geometry_spec() == geometry,
            *mesh.indices_spec() == geometry.indices,
            *mesh.instances_spec() == instances,
            name is Some <==> mesh.name_spec() is Some,
            name is Some ==> *mesh.name_spec()->0 == name->0,
    {
        StandardMesh { geometry, instances, name }
    }

    pub fn geometry(&self) -> (g: &Geometry)
        ensures
            g == self.geometry_spec(),
            g.indices == *self.indices_spec(),
    {
        &self.geometry
    }

    pub fn instances(&self) -> (i: &Vec<Instance>)
        ensures
            i == self.instances_spec(),
    {
        &self.instances
    }
}

impl TMesh for StandardMesh {
    closed spec fn indices_spec(&self) -> &Vec<u32> {
        &self.geometry.indices
    }

    closed spec fn instances_spec(&self) -> &Vec<Instance> {
        &self.instances
    }

    closed spec fn name_spec(&self) -> Option<&String> {
        match &self.name {
            Some(n) => Some(n),
            None => None,
        }
    }

    fn index_count(&self) -> (n: u32) {
        to_draw_count(self.geometry.indices.len())
    }

    fn set_instances(&mut self, instances: Vec<Instance>) {
        self.instances = instances;
    }

    fn instance_count(&self) -> (n: u32) {
        to_draw_count(self.instances.len())
    }

    fn name(&self) -> (n: Option<String>) {
        match &self.name {
            Some(s) => Some(s.clone()),
            None => None,
        }
    }
}

} // verus!
