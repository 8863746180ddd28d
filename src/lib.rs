//! The simulation core of a chunked block-voxel world.
pub mod coordinates;
pub mod block;
pub mod chunk_data;
pub mod collider;
pub mod ray;
pub mod block_types;
pub mod chunk_mesh;
pub mod noise;
pub mod world_generation;
pub mod chunk_manager;
pub mod rigid_body;
pub mod interaction;
pub mod settings;
pub mod entity;
