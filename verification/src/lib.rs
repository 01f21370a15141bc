//! Verified core of a real-time rendering engine.
//!
//! Geometry is modelled in fixed-point arithmetic: every scalar is an `i64`
//! counting units of `1 / fp::SCALE` of a world unit, so the culling,
//! shadow-cascade and particle mathematics can be stated and proved exactly.
//! The GPU itself (buffers, pipelines, presentation) sits outside this crate;
//! the library decides *what* to draw and in *which order*, and hands those
//! decisions out as plain data.

pub mod aabb;
pub mod camera;
pub mod errors;
pub mod fp;
pub mod frustum;
pub mod light_directional;
pub mod light_spot;
pub mod mat4;
pub mod particles;
pub mod renderer;
pub mod text;
pub mod timing;
pub mod transform;
pub mod vec3;
pub mod view;
pub mod visibility;

use vstd::prelude::*;

verus! {

/// Construction-time configuration of the renderer: presentation size and an
/// optional internal render resolution decoupled from it.
#[derive(Clone, Copy, Debug, PartialEq, Eq, Structural)]
pub struct GraphicsDesc {
    pub viewport_width: u32,
    pub viewport_height: u32,
    pub render_width: Option<u32>,
    pub render_height: Option<u32>,
}

impl GraphicsDesc {
    /// Width at which passes render: the internal resolution when one is set,
    /// otherwise the presentation width.
    pub fn effective_render_width(&self) -> (r: u32)
        ensures
            r == match self.render_width {
                Some(w) => w,
                None => self.viewport_width,
            },
    {
        match self.render_width {
            Some(w) => w,
            None => self.viewport_width,
        }
    }

    /// Height at which passes render, falling back to the presentation height.
    pub fn effective_render_height(&self) -> (r: u32)
        ensures
            r == match self.render_height {
                Some(h) => h,
                None => self.viewport_height,
            },
    {
        match self.render_height {
            Some(h) => h,
            None => self.viewport_height,
        }
    }
}

} // verus!
