//! A grid-based first-person renderer in the style of classic raycasting
//! engines: a fixed-point ray caster over a tile map, a framebuffer compositor
//! (sky and floor, textured walls darkened with distance, a run-length sprite
//! scaled in fixed point, a minimap and a frame-rate counter), and the decisions
//! of the player's movement and collision resolver.

pub mod constants;
pub mod map;
pub mod overlay;
pub mod palette;
pub mod player;
pub mod raycast;
pub mod render;
pub mod sprite;
pub mod video;
