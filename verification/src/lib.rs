pub mod ids;
pub mod engine_types;
pub mod entity;
pub mod font;
pub mod component;
pub mod texture;
pub mod image_data;
pub mod binding;
pub mod material;
pub mod compute;
pub mod mesh;
pub mod pipeline;
pub mod scene;
pub mod builtin_actions;
pub mod descriptors;
pub mod laws;
pub mod engine;
pub mod camera;
pub mod plan_laws;
