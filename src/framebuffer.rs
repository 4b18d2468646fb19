use vstd::prelude::*;

verus! {

/// Display-engine framebuffer handle: the id under which a buffer was
/// registered for scan-out.
#[derive(Clone, Copy, Debug, PartialEq, Eq, Structural)]
pub struct FramebufferHandle(pub u32);

/// A registered framebuffer together with the pixel size it was registered at.
#[derive(Clone, Copy, Debug, PartialEq, Eq, Structural)]
pub struct Framebuffer {
    pub drm_fb: FramebufferHandle,
    pub width: u32,
    pub height: u32,
}

impl Framebuffer {
    pub fn handle(&self) -> (r: FramebufferHandle)
        ensures
            r == self.drm_fb,
    {
        self.drm_fb
    }
}

} // verus!

verus! {

/// A pixel format, as its fourcc code.
#[derive(Clone, Copy, Debug, PartialEq, Eq, Structural)]
pub struct Format(pub u32);

} // verus!
