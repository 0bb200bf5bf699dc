//! A renderer of looping animations of grey spheres.
//!
//! A scene is an ordered group of spheres, each with a flat grey level. For
//! every frame of an animation a scene is built for that frame's moment,
//! brought before the camera, and cast onto a grid of pixels: every pixel
//! sends one ray along the projection axis, and the nearest sphere that the
//! ray meets gives the pixel its grey. The frames are packed, in order of
//! time, into one animated PNG, which is handed out as a data URL.
//!
//! The library holds everything about this that can be said exactly: how
//! scenes are composed ([`scene`]), which hit wins a pixel ([`raster`]), how a
//! frame is filled ([`frame`]), where in its loop a moment lies ([`time`]), what
//! an easing curve is worth there ([`easing`], [`curves`]), which grey a sphere
//! gets ([`palette`]), in what order frames are made ([`driver`]) and how they
//! are packed ([`export`]). Geometry is done in real numbers, and so it is left
//! to the caller, who hands in three functions: one that builds the scene of a
//! moment, one that moves a sphere before the camera, and a probe that says
//! whether the ray of a pixel meets a sphere, and how deep. The library
//! carries the shapes of the spheres through without looking at them.

pub mod curves;
pub mod driver;
pub mod easing;
pub mod export;
pub mod frame;
pub mod palette;
pub mod raster;
pub mod scene;
pub mod time;
