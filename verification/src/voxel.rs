//! The data held for each voxel of a chunk.

use vstd::prelude::*;

verus! {

/// The edge length of a cubic chunk, in voxels.
pub const CHUNK_SIZE: u16 = 32;

/// The data of one voxel of a chunk: its material, and how its shape
/// differs from a full upright cube, if it does.
pub struct ChunkVoxelData {
    voxel_type: VoxelType,
    _voxel_modification: Option<VoxelModification>,
}

/// The material of a voxel.
#[derive(PartialEq, Eq, Structural)]
pub enum VoxelType {
    Air,
    Dirt,
    Stone,
}

impl Default for VoxelType {
    /// Air.
    fn default() -> (t: Self)
        ensures
            t == VoxelType::Air,
    {
        VoxelType::Air
    }
}

/// How the shape of a voxel differs from a full upright cube.
pub struct VoxelModification {
    voxel_variant: VoxelVariant,
    voxel_rotation: VoxelRotation,
}

/// The shape of a voxel.
pub enum VoxelVariant {
    Full,
    Slope,
    Half,
}

impl Default for VoxelVariant {
    /// A full voxel.
    fn default() -> (v: Self)
        ensures
            v == VoxelVariant::Full,
    {
        VoxelVariant::Full
    }
}

/// The rotation of a voxel.
pub struct VoxelRotation;

impl Default for VoxelRotation {
    /// No rotation.
    fn default() -> (r: Self)
        ensures
            r == VoxelRotation,
    {
        VoxelRotation
    }
}

} // verus!
