//! A grid raycasting renderer in fixed-point arithmetic: ray marching through a
//! tile grid, perspective-correct wall columns, billboard sprites, a radial
//! flashlight lighting model and a minimap, all over plain integer values.
pub mod fixed;
pub mod color;
pub mod lighting;
pub mod grid;
pub mod camera;
pub mod textures;
pub mod framebuffer;
pub mod caster;
pub mod projector;
pub mod render;
pub mod sprite;
pub mod enemy;
pub mod overhead;
pub mod minimap;
pub mod game;
pub mod floor;
