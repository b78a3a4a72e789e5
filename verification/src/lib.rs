//! Destructible pixel terrain: a level is an RGBA raster, an actor is tested
//! against the pixel under it, and holes are carved into the raster over time.
//!
//! Everything here works on integers. World-space quantities are whole numbers
//! of a world unit that the caller chooses; colour channels are bytes.

pub mod color;
pub mod raster;
pub mod image_helper;
pub mod level;
pub mod transform;
pub mod player;
