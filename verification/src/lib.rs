//! Verified core of the PKO asset tools: binary table parsers, forge and
//! stone-combination rules, coordinate remapping, scene-model export planning and building layout,
//! glTF buffer tables, DDS decoding, character mesh encoding rules and map
//! placement queries.

pub mod bytes;
pub mod refine;
pub mod text;
pub mod coord_transform;
pub mod scene_model;
pub mod building;
pub mod gltf_builder;
pub mod texture;
pub mod character;
pub mod mesh;
pub mod forge;
pub mod item;
pub mod map;
pub mod shadeinfo;
