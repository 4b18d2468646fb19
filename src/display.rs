use vstd::prelude::*;

use crate::device::Gpu;
use crate::framebuffer::{Format, Framebuffer, FramebufferHandle};
use crate::resources::{find_crtc, ConnectorHandle, CrtcHandle, CrtcInfo, EncoderInfo, Mode};

verus! {

/// One connected output: its connector, the modes it supports (preferred
/// first) and the encoder it was bound to when the catalog was read.
#[derive(Debug)]
pub struct Display {
    pub identifier: String,
    pub modes: Vec<Mode>,
    pub connector: ConnectorHandle,
    pub encoder: Option<EncoderInfo>,
}

/// The CRTC an output is driven by: output -> encoder -> CRTC.
pub open spec fn active_crtc(encoder: Option<EncoderInfo>, crtcs: Seq<CrtcInfo>) -> Option<CrtcInfo> {
    match encoder {
        Some(e) => match e.current_crtc {
            Some(h) => find_crtc(crtcs, h),
            None => None,
        },
        None => None,
    }
}

impl Display {
    /// The CRTC currently driving this output; `None` when the encoder is
    /// unbound or its CRTC is not in the catalog.
    pub fn current_crtc(&self, gpu: &Gpu) -> (r: Option<CrtcInfo>)
        ensures
            r == active_crtc(self.encoder, gpu.crtcs@),
    {
        match self.encoder {
            Some(e) => match e.current_crtc {
                Some(h) => gpu.get_crtc(h),
                None => None,
            },
            None => None,
        }
    }
}

/// Identity of a buffer of the GPU allocator's chain. Distinct from the
/// framebuffer handle the display engine gives the same memory.
#[derive(Clone, Copy, Debug, PartialEq, Eq, Structural)]
pub struct BufferId(pub u64);

/// A hardware event read from the display device.
#[derive(Clone, Copy, Debug, PartialEq, Eq, Structural)]
pub enum DeviceEvent {
    Vblank { frame: u32, crtc: CrtcHandle },
    PageFlip { frame: u32, crtc: CrtcHandle },
    Other,
}

/// Why the surface refused a step.
#[derive(Clone, Copy, Debug, PartialEq, Eq, Structural)]
pub enum PresentError {
    /// A page flip was submitted and its completion has not been seen yet.
    FlipOutstanding,
    /// The buffer offered is one the surface already holds, front or pending.
    BufferHeld,
    /// No buffer has been acquired yet, so there is nothing to show.
    NoFramebuffer,
}

/// A page-flip request to hand to the device.
#[derive(Clone, Copy, Debug, PartialEq, Eq, Structural)]
pub struct PageFlip {
    pub crtc: CrtcHandle,
    pub fb: FramebufferHandle,
}

/// What a batch of device events did to a surface.
#[derive(Clone, Copy, Debug, PartialEq, Eq, Structural)]
pub enum FlipWait {
    /// No flip was outstanding.
    Idle,
    /// The batch held no flip completion: wait for the next batch.
    Pending,
    /// The flip completed; `released` goes back to the allocator.
    Completed { released: Option<BufferId> },
}

struct CacheEntry {
    buffer: BufferId,
    fb: FramebufferHandle,
}

/// The abstract state of a presentation surface.
pub struct SurfaceView {
    pub mode: Mode,
    pub format: Format,
    pub crtc: CrtcHandle,
    /// The binding of the most recently acquired buffer.
    pub framebuffer: Option<Framebuffer>,
    /// The buffer on screen (or, before the first flip completes, about to be).
    pub front: Option<BufferId>,
    /// The buffer acquired after `front`, to be shown by the next flip.
    pub pending: Option<BufferId>,
    /// A flip was submitted and its completion was not seen yet.
    pub flipping: bool,
    /// Framebuffer registered for each buffer seen so far.
    pub bindings: Map<BufferId, FramebufferHandle>,
}

/// `events` holds a flip completion.
pub open spec fn has_flip_completion(events: Seq<DeviceEvent>) -> bool {
    exists|i: int| 0 <= i < events.len() && (#[trigger] events[i]) is PageFlip
}

impl SurfaceView {
    /// The buffers the surface holds.
    pub open spec fn live(self) -> Set<BufferId> {
        let f = match self.front {
            Some(b) => set![b],
            None => Set::empty(),
        };
        match self.pending {
            Some(b) => f.insert(b),
            None => f,
        }
    }

    pub open spec fn inv(self) -> bool {
        &&& self.pending is Some ==> self.front is Some && self.pending != self.front
        &&& self.front is Some <==> self.framebuffer is Some
        &&& self.flipping ==> self.front is Some
        &&& self.bindings.dom().finite()
        &&& forall|b: BufferId| #[trigger] self.live().contains(b) ==> self.bindings.contains_key(b)
    }

    /// Whether `swap_buffers` accepts buffer `bo`.
    pub open spec fn swap_outcome(self, bo: BufferId) -> Result<(), PresentError> {
        if self.flipping {
            Err(PresentError::FlipOutstanding)
        } else if self.live().contains(bo) {
            Err(PresentError::BufferHeld)
        } else {
            Ok(())
        }
    }

    /// The framebuffer for `bo`: the cached one if `bo` was seen before,
    /// else `fresh`, the one just registered for it.
    pub open spec fn binding_for(self, bo: BufferId, fresh: FramebufferHandle) -> FramebufferHandle {
        if self.bindings.contains_key(bo) {
            self.bindings[bo]
        } else {
            fresh
        }
    }

    /// The state after `bo` was acquired: it becomes front if there is none,
    /// else pending, in place of any buffer pending before.
    pub open spec fn after_swap(self, bo: BufferId, fresh: FramebufferHandle) -> SurfaceView {
        let fb = self.binding_for(bo, fresh);
        SurfaceView {
            mode: self.mode,
            format: self.format,
            crtc: self.crtc,
            framebuffer: Some(
                Framebuffer {
                    drm_fb: fb,
                    width: self.mode.hdisplay as u32,
                    height: self.mode.vdisplay as u32,
                },
            ),
            front: if self.front is None { Some(bo) } else { self.front },
            pending: if self.front is None { self.pending } else { Some(bo) },
            flipping: self.flipping,
            bindings: self.bindings.insert(bo, fb),
        }
    }

    /// The buffer an accepted `swap_buffers` gives back: the one that was
    /// pending and is replaced.
    pub open spec fn displaced(self) -> Option<BufferId> {
        self.pending
    }

    /// The flip `begin_flip` requests, or why it refuses.
    pub open spec fn flip_outcome(self) -> Result<PageFlip, PresentError> {
        if self.flipping {
            Err(PresentError::FlipOutstanding)
        } else {
            match self.framebuffer {
                Some(f) => Ok(PageFlip { crtc: self.crtc, fb: f.drm_fb }),
                None => Err(PresentError::NoFramebuffer),
            }
        }
    }

    pub open spec fn after_flip(self) -> SurfaceView {
        SurfaceView { flipping: true, ..self }
    }

    /// The buffer a flip completion gives back: the old front, when a
    /// pending buffer replaces it.
    pub open spec fn released(self) -> Option<BufferId> {
        if self.pending is Some {
            self.front
        } else {
            None
        }
    }

    /// The state after the outstanding flip completed: pending becomes front.
    pub open spec fn after_completion(self) -> SurfaceView {
        SurfaceView {
            front: if self.pending is Some { self.pending } else { self.front },
            pending: None,
            flipping: false,
            ..self
        }
    }
}

spec fn in_cache(cache: Seq<CacheEntry>, b: BufferId) -> bool {
    exists|i: int| 0 <= i < cache.len() && (#[trigger] cache[i]).buffer == b
}

/// The presentation state of one render target bound to one CRTC.
pub struct Surface {
    mode: Mode,
    format: Format,
    framebuffer: Option<Framebuffer>,
    crtc: CrtcHandle,
    current_bo: Option<BufferId>,
    next_bo: Option<BufferId>,
    flip_pending: bool,
    cache: Vec<CacheEntry>,
    bindings: Ghost<Map<BufferId, FramebufferHandle>>,
}

impl View for Surface {
    type V = SurfaceView;

    closed spec fn view(&self) -> SurfaceView {
        SurfaceView {
            mode: self.mode,
            format: self.format,
            crtc: self.crtc,
            framebuffer: self.framebuffer,
            front: self.current_bo,
            pending: self.next_bo,
            flipping: self.flip_pending,
            bindings: self.bindings@,
        }
    }
}

impl Surface {
    pub closed spec fn wf(&self) -> bool {
        &&& self@.inv()
        &&& forall|i: int|
            0 <= i < self.cache@.len() ==> {
                let e = #[trigger] self.cache@[i];
                self.bindings@.contains_key(e.buffer) && self.bindings@[e.buffer] == e.fb
            }
        &&& forall|b: BufferId| #[trigger] self.bindings@.contains_key(b) ==> in_cache(self.cache@, b)
        &&& self.bindings@.dom().len() == self.cache@.len()
    }

    /// A well-formed surface's state meets the model's invariant.
    pub proof fn lemma_wf_inv(&self)
        requires
            self.wf(),
        ensures
            self@.inv(),
    {
    }

    /// A surface for `crtc` at `mode`, before any buffer was acquired.
    pub fn new(crtc: CrtcHandle, mode: Mode, format: Format) -> (r: Surface)
        ensures
            r.wf(),
            r@ == (SurfaceView {
                mode,
                format,
                crtc,
                framebuffer: None,
                front: None,
                pending: None,
                flipping: false,
                bindings: Map::empty(),
            }),
    {
        let r = Surface {
            mode,
            format,
            framebuffer: None,
            crtc,
            current_bo: None,
            next_bo: None,
            flip_pending: false,
            cache: Vec::new(),
            bindings: Ghost(Map::empty()),
        };
        proof {
            assert(r@.live() =~= Set::<BufferId>::empty());
        }
        r
    }

    /// The framebuffer already registered for buffer `bo`, if it was seen before.
    pub fn cached_framebuffer(&self, bo: BufferId) -> (r: Option<FramebufferHandle>)
        requires
            self.wf(),
        ensures
            r == (if self@.bindings.contains_key(bo) {
                Some(self@.bindings[bo])
            } else {
                None
            }),
    {
        let mut i: usize = 0;
        while i < self.cache.len()
            invariant
                self.wf(),
                i <= self.cache.len(),
                forall|j: int| 0 <= j < i ==> (#[trigger] self.cache@[j]).buffer != bo,
            decreases self.cache.len() - i,
        {
            if self.cache[i].buffer == bo {
                proof {
                    let e = self.cache@[i as int];
                    assert(self.bindings@.contains_key(e.buffer));
                }
                return Some(self.cache[i].fb);
            }
            i = i + 1;
        }
        None
    }

    /// Takes the buffer the allocator handed out after a render pass.
    /// `fresh` is the framebuffer registered for it, used only when the
    /// buffer was not seen before; a buffer seen before keeps its binding.
    /// The buffer becomes front if there is none, else pending; a buffer
    /// pending before is replaced and handed back, to return to the allocator.
    pub fn swap_buffers(&mut self, bo: BufferId, fresh: FramebufferHandle) -> (r: Result<Option<BufferId>, PresentError>)
        requires
            old(self).wf(),
        ensures
            final(self).wf(),
            r is Ok <==> old(self)@.swap_outcome(bo) is Ok,
            r is Err ==> r == Err::<Option<BufferId>, PresentError>(old(self)@.swap_outcome(bo)->Err_0),
            r is Ok ==> r->Ok_0 == old(self)@.displaced() && final(self)@ == old(self)@.after_swap(bo, fresh),
            r is Err ==> final(self)@ == old(self)@,
    {
        if self.flip_pending {
            return Err(PresentError::FlipOutstanding);
        }
        if self.current_bo == Some(bo) || self.next_bo == Some(bo) {
            return Err(PresentError::BufferHeld);
        }
        let ghost prev = self@;
        let fb = match self.cached_framebuffer(bo) {
            Some(fb) => fb,
            None => {
                proof {
                    assert(!self.bindings@.dom().contains(bo));
                }
                self.cache.push(CacheEntry { buffer: bo, fb: fresh });
                self.bindings = Ghost(self.bindings@.insert(bo, fresh));
                proof {
                    let n = self.cache@.len() - 1;
                    assert forall|b: BufferId| #[trigger] self.bindings@.contains_key(b) implies in_cache(self.cache@, b) by {
                        if b == bo {
                            assert(self.cache@[n].buffer == b);
                        } else {
                            assert(prev.bindings.contains_key(b));
                            assert(in_cache(old(self).cache@, b));
                            let i = choose|i: int| 0 <= i < old(self).cache@.len() && (#[trigger] old(self).cache@[i]).buffer == b;
                            assert(self.cache@[i] == old(self).cache@[i]);
                        }
                    }
                }
                fresh
            }
        };
        proof {
            assert(self.bindings@ =~= prev.bindings.insert(bo, fb));
        }
        let (width, height) = self.mode.size();
        let displaced = self.next_bo;
        if self.current_bo.is_none() {
            self.current_bo = Some(bo);
        } else {
            self.next_bo = Some(bo);
        }
        self.framebuffer = Some(Framebuffer { drm_fb: fb, width: width as u32, height: height as u32 });
        proof {
            assert(self@ == prev.after_swap(bo, fresh));
            assert forall|b: BufferId| #[trigger] self@.live().contains(b) implies self.bindings@.contains_key(b) by {
                if b != bo {
                    assert(prev.live().contains(b));
                }
            }
        }
        Ok(displaced)
    }

    /// Requests a flip to the most recently acquired buffer. Refused while a
    /// flip is outstanding: the hardware takes one at a time per CRTC.
    pub fn begin_flip(&mut self) -> (r: Result<PageFlip, PresentError>)
        requires
            old(self).wf(),
        ensures
            final(self).wf(),
            r == old(self)@.flip_outcome(),
            r is Ok ==> final(self)@ == old(self)@.after_flip(),
            r is Err ==> final(self)@ == old(self)@,
    {
        if self.flip_pending {
            return Err(PresentError::FlipOutstanding);
        }
        match self.framebuffer {
            Some(f) => {
                self.flip_pending = true;
                proof {
                    assert(self@.live() == old(self)@.live());
                }
                Ok(PageFlip { crtc: self.crtc, fb: f.drm_fb })
            },
            None => Err(PresentError::NoFramebuffer),
        }
    }

    /// Reads one batch of device events while waiting for the outstanding
    /// flip. Events other than a flip completion are passed over. On a
    /// completion the pending buffer becomes front and the old front is
    /// handed back.
    pub fn await_flip(&mut self, events: &Vec<DeviceEvent>) -> (r: FlipWait)
        requires
            old(self).wf(),
        ensures
            final(self).wf(),
            !old(self)@.flipping ==> r == FlipWait::Idle && final(self)@ == old(self)@,
            old(self)@.flipping && !has_flip_completion(events@) ==> r == FlipWait::Pending
                && final(self)@ == old(self)@,
            old(self)@.flipping && has_flip_completion(events@) ==> r == (FlipWait::Completed {
                released: old(self)@.released(),
            }) && final(self)@ == old(self)@.after_completion(),
    {
        if !self.flip_pending {
            return FlipWait::Idle;
        }
        let mut i: usize = 0;
        while i < events.len()
            invariant
                old(self).wf(),
                *self == *old(self),
                self.flip_pending,
                i <= events.len(),
                forall|j: int| 0 <= j < i ==> !((#[trigger] events@[j]) is PageFlip),
            decreases events.len() - i,
        {
            if let DeviceEvent::PageFlip { .. } = events[i] {
                let ghost prev = self@;
                let released = if self.next_bo.is_some() {
                    let old_front = self.current_bo;
                    self.current_bo = self.next_bo;
                    self.next_bo = None;
                    old_front
                } else {
                    None
                };
                self.flip_pending = false;
                proof {
                    assert(self@ == prev.after_completion());
                    assert forall|b: BufferId| #[trigger] self@.live().contains(b) implies self.bindings@.contains_key(b) by {
                        assert(prev.live().contains(b));
                    }
                }
                return FlipWait::Completed { released };
            }
            i = i + 1;
        }
        FlipWait::Pending
    }

    pub fn crtc(&self) -> (r: CrtcHandle)
        ensures
            r == self@.crtc,
    {
        self.crtc
    }

    pub fn mode(&self) -> (r: Mode)
        ensures
            r == self@.mode,
    {
        self.mode
    }

    pub fn format(&self) -> (r: Format)
        ensures
            r == self@.format,
    {
        self.format
    }

    pub fn framebuffer(&self) -> (r: Option<Framebuffer>)
        ensures
            r == self@.framebuffer,
    {
        self.framebuffer
    }

    /// The buffer on screen.
    pub fn front(&self) -> (r: Option<BufferId>)
        ensures
            r == self@.front,
    {
        self.current_bo
    }

    /// The buffer waiting to replace the front one.
    pub fn pending(&self) -> (r: Option<BufferId>)
        ensures
            r == self@.pending,
    {
        self.next_bo
    }

    /// Whether a flip is outstanding.
    pub fn is_flipping(&self) -> (r: bool)
        ensures
            r == self@.flipping,
    {
        self.flip_pending
    }

    /// How many buffers were registered with the display engine.
    pub fn registrations(&self) -> (r: usize)
        requires
            self.wf(),
        ensures
            r == self@.bindings.dom().len(),
    {
        self.cache.len()
    }
}
} // verus!
