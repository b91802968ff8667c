//! The logic of a Wayland screenshot tool: selecting a region on an overlay,
//! drawing that overlay, reading captured pixels, and naming and encoding the
//! result. Everything here is plain computation; talking to the compositor,
//! the file system and the clipboard is left to the program around it.

pub mod capture;
pub mod color;
pub mod config;
pub mod font;
pub mod hud;
pub mod overlay;
pub mod pixels;
pub mod raster;
pub mod selection;
pub mod snapshot;
pub mod text;
pub mod wayland;
