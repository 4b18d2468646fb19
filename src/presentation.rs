use vstd::prelude::*;
use vstd::set_lib::lemma_len_subset;

use crate::display::{BufferId, PageFlip, PresentError, SurfaceView};
use crate::framebuffer::FramebufferHandle;

verus! {

/// One present cycle on the model: acquire `bo` (registered as `fresh` if
/// it is new), flip to it, and see the flip complete. A buffer the surface
/// refuses leaves the state as it was.
pub open spec fn present_once(v: SurfaceView, bo: BufferId, fresh: FramebufferHandle) -> SurfaceView {
    if v.swap_outcome(bo) is Ok {
        v.after_swap(bo, fresh).after_flip().after_completion()
    } else {
        v
    }
}

/// The present cycles of `frames`, in order; each frame is the buffer the
/// allocator handed out and the framebuffer registered for it if new.
pub open spec fn present_all(v: SurfaceView, frames: Seq<(BufferId, FramebufferHandle)>) -> SurfaceView
    decreases frames.len(),
{
    if frames.len() == 0 {
        v
    } else {
        present_once(present_all(v, frames.drop_last()), frames.last().0, frames.last().1)
    }
}

/// A well-formed surface holds at most two buffers: front and pending.
pub proof fn lemma_live_at_most_two(v: SurfaceView)
    requires
        v.inv(),
    ensures
        v.live().finite(),
        v.live().len() <= 2,
{
    let f = match v.front {
        Some(b) => set![b],
        None => Set::<BufferId>::empty(),
    };
    assert(f.finite() && f.len() <= 1);
}

/// One present cycle keeps the surface well formed with no flip left
/// outstanding, and the flip it submits names the newly acquired buffer's
/// framebuffer while no other flip is outstanding; that buffer is never the
/// one on screen.
pub proof fn lemma_present_once(v: SurfaceView, bo: BufferId, fresh: FramebufferHandle)
    requires
        v.inv(),
        !v.flipping,
    ensures
        present_once(v, bo, fresh).inv(),
        !present_once(v, bo, fresh).flipping,
        v.swap_outcome(bo) is Ok ==> {
            let t = v.after_swap(bo, fresh);
            &&& !t.flipping
            &&& t.flip_outcome() == Ok::<_, PresentError>(PageFlip { crtc: v.crtc, fb: t.bindings[bo] })
            &&& v.front is Some ==> t.pending == Some(bo) && t.front != Some(bo)
        },
{
    if v.swap_outcome(bo) is Ok {
        let t = v.after_swap(bo, fresh);
        assert forall|b: BufferId| #[trigger] t.live().contains(b) implies t.bindings.contains_key(b) by {
            if b != bo {
                assert(v.live().contains(b));
            }
        }
        let u = t.after_flip();
        assert(u.live() == t.live());
        let w = u.after_completion();
        assert forall|b: BufferId| #[trigger] w.live().contains(b) implies w.bindings.contains_key(b) by {
            assert(u.live().contains(b));
        }
    }
}

/// Over any sequence of present cycles the surface stays well formed, holds
/// at most two buffers, and ends each cycle with no flip outstanding.
pub proof fn lemma_present_keeps_two_buffers(v: SurfaceView, frames: Seq<(BufferId, FramebufferHandle)>)
    requires
        v.inv(),
        !v.flipping,
    ensures
        present_all(v, frames).inv(),
        !present_all(v, frames).flipping,
        present_all(v, frames).live().len() <= 2,
    decreases frames.len(),
{
    if frames.len() > 0 {
        lemma_present_keeps_two_buffers(v, frames.drop_last());
        lemma_present_once(present_all(v, frames.drop_last()), frames.last().0, frames.last().1);
    }
    lemma_live_at_most_two(present_all(v, frames));
}

/// Presenting a buffer seen before reuses its framebuffer: nothing new is
/// registered and the cached binding is the one shown.
pub proof fn lemma_binding_reused(v: SurfaceView, bo: BufferId, fresh: FramebufferHandle)
    requires
        v.inv(),
        v.bindings.contains_key(bo),
    ensures
        present_once(v, bo, fresh).bindings == v.bindings,
        v.swap_outcome(bo) is Ok ==> v.after_swap(bo, fresh).framebuffer->Some_0.drm_fb == v.bindings[bo],
{
    assert(v.bindings.insert(bo, v.bindings[bo]) =~= v.bindings);
}

/// When every buffer presented comes from one chain, the framebuffers ever
/// registered are at most as many as the chain's buffers, however many
/// frames are presented.
pub proof fn lemma_registrations_bounded(
    v: SurfaceView,
    chain: Set<BufferId>,
    frames: Seq<(BufferId, FramebufferHandle)>,
)
    requires
        v.inv(),
        chain.finite(),
        v.bindings.dom().subset_of(chain),
        forall|i: int| 0 <= i < frames.len() ==> chain.contains(#[trigger] frames[i].0),
    ensures
        present_all(v, frames).bindings.dom().subset_of(chain),
        present_all(v, frames).bindings.dom().len() <= chain.len(),
    decreases frames.len(),
{
    if frames.len() > 0 {
        let rest = frames.drop_last();
        assert forall|i: int| 0 <= i < rest.len() implies chain.contains(#[trigger] rest[i].0) by {
            assert(rest[i] == frames[i]);
        }
        lemma_registrations_bounded(v, chain, rest);
        assert(chain.contains(frames[frames.len() - 1].0));
    }
    lemma_len_subset(present_all(v, frames).bindings.dom(), chain);
}

/// While a flip is outstanding the surface refuses both a second flip and
/// a new buffer.
pub proof fn lemma_no_flip_while_outstanding(v: SurfaceView, bo: BufferId)
    requires
        v.flipping,
    ensures
        v.flip_outcome() == Err::<PageFlip, PresentError>(PresentError::FlipOutstanding),
        v.swap_outcome(bo) == Err::<(), PresentError>(PresentError::FlipOutstanding),
{
}

} // verus!
