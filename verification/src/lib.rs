//! The core of a real-time voxel world: a registry of entities that are
//! updated at several cadences and may spawn and remove one another, solids
//! composed on a bounded lattice, terrain built from a plane of samples, and
//! the pass that keeps only the voxels that show a face.

pub mod action;
pub mod cube;
pub mod entity;
pub mod generator;
pub mod main_scene;
pub mod mesh;
pub mod pass;
pub mod position;
pub mod random;
pub mod registry_laws;
pub mod render;
pub mod shapable;
pub mod shape;
pub mod voxel;
pub mod voxel_map;
pub mod world;
