use vstd::prelude::*;

use crate::framebuffer::FramebufferHandle;

verus! {

/// Identity of a connector (a physical output port).
#[derive(Clone, Copy, Debug, PartialEq, Eq, Structural)]
pub struct ConnectorHandle(pub u32);

/// Identity of an encoder.
#[derive(Clone, Copy, Debug, PartialEq, Eq, Structural)]
pub struct EncoderHandle(pub u32);

/// Identity of a CRTC (a scan-out engine).
#[derive(Clone, Copy, Debug, PartialEq, Eq, Structural)]
pub struct CrtcHandle(pub u32);

/// Whether something is plugged into a connector.
#[derive(Clone, Copy, Debug, PartialEq, Eq, Structural)]
pub enum ConnectorState {
    Connected,
    Disconnected,
    Unknown,
}

/// A display timing: resolution, sync positions and refresh rate.
/// Two modes are the same mode when all of their fields agree.
#[derive(Clone, Copy, Debug, PartialEq, Eq, Structural)]
pub struct Mode {
    pub clock: u32,
    pub hdisplay: u16,
    pub hsync_start: u16,
    pub hsync_end: u16,
    pub htotal: u16,
    pub hskew: u16,
    pub vdisplay: u16,
    pub vsync_start: u16,
    pub vsync_end: u16,
    pub vtotal: u16,
    pub vscan: u16,
    pub vrefresh: u32,
}

impl Mode {
    /// Visible resolution as (width, height).
    pub fn size(&self) -> (r: (u16, u16))
        ensures
            r == (self.hdisplay, self.vdisplay),
    {
        (self.hdisplay, self.vdisplay)
    }
}

/// Snapshot of one connector.
#[derive(Debug)]
pub struct ConnectorInfo {
    pub handle: ConnectorHandle,
    pub state: ConnectorState,
    pub modes: Vec<Mode>,
    pub current_encoder: Option<EncoderHandle>,
}

/// Snapshot of one encoder.
#[derive(Clone, Copy, Debug, PartialEq, Eq, Structural)]
pub struct EncoderInfo {
    pub handle: EncoderHandle,
    pub current_crtc: Option<CrtcHandle>,
}

/// Where a CRTC's scan-out starts inside its framebuffer.
#[derive(Clone, Copy, Debug, PartialEq, Eq, Structural)]
pub struct Position {
    pub x: u32,
    pub y: u32,
}

/// Snapshot of one CRTC: what it scans out, where, and at which mode
/// (`None` when it is switched off).
#[derive(Clone, Copy, Debug, PartialEq, Eq, Structural)]
pub struct CrtcInfo {
    pub handle: CrtcHandle,
    pub position: Position,
    pub mode: Option<Mode>,
    pub fb: FramebufferHandle,
}

/// The first encoder of `es` with handle `h`.
pub open spec fn find_encoder(es: Seq<EncoderInfo>, h: EncoderHandle) -> Option<EncoderInfo>
    decreases es.len(),
{
    if es.len() == 0 {
        None
    } else if es[0].handle == h {
        Some(es[0])
    } else {
        find_encoder(es.subrange(1, es.len() as int), h)
    }
}

/// The first CRTC of `cs` with handle `h`.
pub open spec fn find_crtc(cs: Seq<CrtcInfo>, h: CrtcHandle) -> Option<CrtcInfo>
    decreases cs.len(),
{
    if cs.len() == 0 {
        None
    } else if cs[0].handle == h {
        Some(cs[0])
    } else {
        find_crtc(cs.subrange(1, cs.len() as int), h)
    }
}

/// Looks up an encoder by handle.
pub fn lookup_encoder(es: &Vec<EncoderInfo>, h: EncoderHandle) -> (r: Option<EncoderInfo>)
    ensures
        r == find_encoder(es@, h),
{
    let mut i: usize = 0;
    proof {
        assert(es@.subrange(0, es@.len() as int) =~= es@);
    }
    while i < es.len()
        invariant
            i <= es.len(),
            find_encoder(es@, h) == find_encoder(es@.subrange(i as int, es@.len() as int), h),
        decreases es.len() - i,
    {
        proof {
            let rest = es@.subrange(i as int, es@.len() as int);
            assert(rest.subrange(1, rest.len() as int) =~= es@.subrange(i + 1, es@.len() as int));
        }
        if es[i].handle == h {
            return Some(es[i]);
        }
        i = i + 1;
    }
    None
}

/// Looks up a CRTC by handle.
pub fn lookup_crtc(cs: &Vec<CrtcInfo>, h: CrtcHandle) -> (r: Option<CrtcInfo>)
    ensures
        r == find_crtc(cs@, h),
{
    let mut i: usize = 0;
    proof {
        assert(cs@.subrange(0, cs@.len() as int) =~= cs@);
    }
    while i < cs.len()
        invariant
            i <= cs.len(),
            find_crtc(cs@, h) == find_crtc(cs@.subrange(i as int, cs@.len() as int), h),
        decreases cs.len() - i,
    {
        proof {
            let rest = cs@.subrange(i as int, cs@.len() as int);
            assert(rest.subrange(1, rest.len() as int) =~= cs@.subrange(i + 1, cs@.len() as int));
        }
        if cs[i].handle == h {
            return Some(cs[i]);
        }
        i = i + 1;
    }
    None
}

/// A copy of a list of modes.
pub fn copy_modes(modes: &Vec<Mode>) -> (r: Vec<Mode>)
    ensures
        r@ == modes@,
{
    let mut out: Vec<Mode> = Vec::new();
    let mut i: usize = 0;
    while i < modes.len()
        invariant
            i <= modes.len(),
            out@ == modes@.subrange(0, i as int),
        decreases modes.len() - i,
    {
        out.push(modes[i]);
        i = i + 1;
        assert(out@ =~= modes@.subrange(0, i as int));
    }
    assert(out@ =~= modes@);
    out
}

/// Builds one kind of catalog from the record each handle resolved to, in
/// handle order. A catalog with a gap cannot drive mode-setting, so any
/// handle that did not resolve fails the whole load: the error is the
/// position of the first one.
pub fn load_information<T>(records: Vec<Option<T>>) -> (r: Result<Vec<T>, usize>)
    ensures
        r is Ok <==> forall|j: int| 0 <= j < records@.len() ==> (#[trigger] records@[j]) is Some,
        r is Ok ==> r->Ok_0@.len() == records@.len() && forall|j: int|
            0 <= j < records@.len() ==> r->Ok_0@[j] == (#[trigger] records@[j])->Some_0,
        r is Err ==> {
            let i = r->Err_0 as int;
            &&& 0 <= i < records@.len()
            &&& records@[i] is None
            &&& forall|j: int| 0 <= j < i ==> (#[trigger] records@[j]) is Some
        },
{
    let mut i: usize = 0;
    while i < records.len()
        invariant
            i <= records@.len(),
            forall|j: int| 0 <= j < i ==> (#[trigger] records@[j]) is Some,
        decreases records.len() - i,
    {
        if records[i].is_none() {
            return Err(i);
        }
        i = i + 1;
    }
    let ghost all = records@;
    let mut rest = records;
    let mut out: Vec<T> = Vec::new();
    while rest.len() > 0
        invariant
            out@.len() + rest@.len() == all.len(),
            rest@ == all.subrange(out@.len() as int, all.len() as int),
            forall|j: int| 0 <= j < all.len() ==> (#[trigger] all[j]) is Some,
            forall|j: int| 0 <= j < out@.len() ==> out@[j] == (#[trigger] all[j])->Some_0,
        decreases rest.len(),
    {
        let ghost k = out@.len() as int;
        let x = rest.remove(0);
        proof {
            assert(x == all[k]);
            assert(rest@ =~= all.subrange(k + 1, all.len() as int));
        }
        match x {
            Some(v) => {
                out.push(v);
            },
            None => {},
        }
    }
    Ok(out)
}

} // verus!
