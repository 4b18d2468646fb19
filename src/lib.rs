//! The display-output path of a modesetting client: a catalog of the
//! device's connectors, encoders and CRTCs, the outputs resolved from it,
//! mode-set requests, and the presentation state machine that binds a render
//! target's buffer chain to a CRTC and advances only on confirmed page flips.

pub mod framebuffer;
pub mod resources;
pub mod device;
pub mod display;
pub mod presentation;
pub mod context;
