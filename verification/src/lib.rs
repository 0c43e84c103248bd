//! Game logic of a tile-based rogue-like: rectangles and their collisions,
//! the hits the player takes, collectible powers, what the background shows
//! of the tile map, where enemies spawn and who drops gold, how the keys move
//! the player, what each frame does, and where the weapon, the camera and
//! on-screen things are drawn.

pub mod background;
pub mod collision;
pub mod draw;
pub mod enemies;
pub mod frame;
pub mod gamedata;
pub mod indices;
pub mod input;
pub mod power;
pub mod projectile;
pub mod rect;
