use net::voxel::{VoxelRotation, VoxelType, VoxelVariant, CHUNK_SIZE};

#[test]
fn voxel_defaults() {
    assert!(VoxelType::default() == VoxelType::Air);
    assert!(VoxelType::Dirt != VoxelType::Stone);
    assert!(matches!(VoxelVariant::default(), VoxelVariant::Full));
    let _ = VoxelRotation::default();
    assert_eq!(CHUNK_SIZE, 32);
}
