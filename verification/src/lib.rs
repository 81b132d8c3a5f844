//! Deterministic core of a small 2D action game: fixed-point arithmetic for
//! reproducible simulation, a binary-tree rectangle bin-packer, a texture
//! atlas builder with exact (rational) UV rectangles, frame-set addressing
//! for sprite-sheet animations, and the plain gameplay components built on
//! top of them (health, inventory, item registry).

pub mod atlas;
pub mod drop_tables;
pub mod equipment;
pub mod fpa;
pub mod fpavec;
pub mod health;
pub mod input;
pub mod inventory;
pub mod item;
pub mod kvmap;
pub mod renderer;
pub mod tex_key;
pub mod ui;
pub mod visual;

pub use fpa::Fx16;
pub use fpa::Fx32;
