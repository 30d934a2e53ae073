use vstd::prelude::*;
use crate::entity::{
    DeltaTime,
    EntityAction,
    EntityConfiguration,
    Object,
    Renderable,
    TEntity,
    UpdateFrequency,
    Updateable,
};
use crate::mesh::{copy_bytes, copy_indices, copy_instances, EngineError, Geometry, StandardMesh, TMesh};
use crate::voxel::Instance;

verus! {

/// A cube mesh drawn once for each of its instances. It has no geometry
/// until it has been prepared.
#[derive(Debug)]
pub struct Cube {
    mesh: Option<StandardMesh>,
    instances: Vec<Instance>,
}

impl Cube {
    /// The tag that every cube carries.
    pub const TAG: &'static str = "Cube";

    /// The transforms at which the cube is drawn.
    pub closed spec fn instances_spec(&self) -> Seq<Instance> {
        self.instances@
    }

    /// The mesh, once the cube has been prepared.
    pub closed spec fn mesh_spec(&self) -> Option<StandardMesh> {
        self.mesh
    }

    /// A cube that is drawn at `instances` and is still to be prepared.
    pub fn new(instances: Vec<Instance>) -> (cube: Cube)
        ensures
            cube.instances_spec() == instances@,
            cube.mesh_spec() is None,
    {
        Cube { mesh: None, instances }
    }

    pub fn instances(&self) -> (i: &Vec<Instance>)
        ensures
            i@ == self.instances_spec(),
    {
        &self.instances
    }

    pub fn is_prepared(&self) -> (b: bool)
        ensures
            b == self.mesh_spec() is Some,
    {
        self.mesh.is_some()
    }

    /// Takes what loading the cube's assets gave. Loaded geometry becomes the
    /// cube's mesh, with a copy of the cube's instances baked in; a failure
    /// is handed on and leaves the cube as it was.
    pub fn prepare_render(&mut self, loaded: Result<Geometry, EngineError>) -> (r: Result<
        (),
        EngineError,
    >)
        ensures
            final(self).instances_spec() == old(self).instances_spec(),
            loaded matches Ok(geometry) ==> r is Ok && final(self).mesh_spec() is Some && ({
                let mesh = final(self).mesh_spec()->0;
                &&& *mesh.geometry_spec() == geometry
                &&& mesh.instances_spec()@ == old(self).instances_spec()
                &&& mesh.name_spec() is None
            }),
            loaded matches Err(e) ==> r == Err::<(), EngineError>(e) && final(self).mesh_spec()
                == old(self).mesh_spec(),
    {
        match loaded {
            Ok(geometry) => {
                let mesh = StandardMesh::new(geometry, copy_instances(&self.instances), None);
                self.mesh = Some(mesh);
                Ok(())
            },
            Err(e) => Err(e),
        }
    }

    /// The cube's meshes: the one it was prepared with.
    pub fn meshes(&self) -> (meshes: Vec<&StandardMesh>)
        requires
            self.mesh_spec() is Some,
        ensures
            meshes@.len() == 1,
            *meshes@[0] == self.mesh_spec()->0,
    {
        let mut meshes: Vec<&StandardMesh> = Vec::new();
        match &self.mesh {
            Some(mesh) => {
                meshes.push(mesh);
            },
            None => {},
        }
        meshes
    }
}

impl Default for Cube {
    /// A cube without instances that is still to be prepared.
    fn default() -> (cube: Cube)
        ensures
            cube.instances_spec() == Seq::<Instance>::empty(),
            cube.mesh_spec() is None,
    {
        Cube { mesh: None, instances: Vec::new() }
    }
}

impl TEntity for Cube {
    open spec fn tag_spec(&self) -> &str {
        "Cube"
    }

    open spec fn frequency_spec(&self) -> UpdateFrequency {
        UpdateFrequency::Never
    }

    open spec fn wants_render_spec(&self) -> bool {
        true
    }

    fn entity_configuration(&self) -> (c: EntityConfiguration)
        ensures
            c.tag_spec() == "Cube"@,
            c.update_frequency_spec() == UpdateFrequency::Never,
            c.wants_render_spec(),
    {
        EntityConfiguration::new(Self::TAG, UpdateFrequency::Never, true)
    }
}

impl<S> Updateable<S> for Cube {
    /// A cube asks for nothing.
    open spec fn emits(&self, delta_time: DeltaTime, actions: &Vec<EntityAction<S>>) -> bool {
        actions@.len() == 0
    }

    fn update(&mut self, delta_time: DeltaTime) -> (actions: Vec<EntityAction<S>>) {
        Vec::new()
    }
}

impl<S> Object<S> for Cube {

}

impl Renderable for Cube {
    /// A cube is drawn from the moment it has a mesh.
    open spec fn geometry_spec(&self) -> Option<&Geometry> {
        match self.mesh_spec() {
            Some(mesh) => Some(mesh.geometry_spec()),
            None => None,
        }
    }

    fn do_render(&self) -> (b: bool)
        ensures
            b == self.mesh_spec() is Some,
    {
        self.mesh.is_some()
    }

    fn vertices(&self) -> (v: Vec<u8>) {
        match &self.mesh {
            Some(mesh) => copy_bytes(&mesh.geometry().vertices),
            None => Vec::new(),
        }
    }

    fn indices(&self) -> (i: Vec<u32>) {
        match &self.mesh {
            Some(mesh) => copy_indices(&mesh.geometry().indices),
            None => Vec::new(),
        }
    }
}

} // verus!
