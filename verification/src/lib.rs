pub mod bounding_volume;
pub mod box_order;
pub mod boxes;
pub mod bvh_node;
pub mod color;
pub mod config;
pub mod equivalence;
pub mod hittable;
pub mod hittable_list;
pub mod image_texture;
pub mod instances;
pub mod integrator;
pub mod key;
pub mod material;
pub mod medium;
pub mod perlin;
pub mod point;
pub mod rectangle;
pub mod render;
pub mod sphere;
pub mod utils;
