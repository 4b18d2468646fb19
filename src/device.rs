use vstd::prelude::*;
use vstd::string::StringExecFns;

use crate::display::{active_crtc, Display, PresentError, Surface};
use crate::framebuffer::FramebufferHandle;
use crate::resources::{
    copy_modes, find_crtc, find_encoder, lookup_crtc, lookup_encoder, ConnectorHandle,
    ConnectorInfo, ConnectorState, CrtcHandle, CrtcInfo, EncoderInfo, Mode, Position,
};

verus! {

/// The decoded resource catalog of one display device: every connector,
/// encoder and CRTC it reported, in the order it reported them.
pub struct Gpu {
    pub connectors: Vec<ConnectorInfo>,
    pub encoders: Vec<EncoderInfo>,
    pub crtcs: Vec<CrtcInfo>,
}

/// The connectors of `cs` that report `Connected`, in their order in `cs`.
pub open spec fn connected(cs: Seq<ConnectorInfo>) -> Seq<ConnectorInfo>
    decreases cs.len(),
{
    if cs.len() == 0 {
        seq![]
    } else {
        let rest = connected(cs.drop_last());
        if cs.last().state == ConnectorState::Connected {
            rest.push(cs.last())
        } else {
            rest
        }
    }
}

pub open spec fn digit_char(d: nat) -> char {
    if d == 0 { '0' }
    else if d == 1 { '1' }
    else if d == 2 { '2' }
    else if d == 3 { '3' }
    else if d == 4 { '4' }
    else if d == 5 { '5' }
    else if d == 6 { '6' }
    else if d == 7 { '7' }
    else if d == 8 { '8' }
    else { '9' }
}

/// `n` written in decimal, most significant digit first.
pub open spec fn decimal(n: nat) -> Seq<char>
    decreases n,
{
    if n < 10 {
        seq![digit_char(n)]
    } else {
        decimal(n / 10).push(digit_char(n % 10))
    }
}

/// The identifier of the `index`-th connected output: "Display <index>".
pub open spec fn display_name(index: nat) -> Seq<char> {
    seq!['D', 'i', 's', 'p', 'l', 'a', 'y', ' '] + decimal(index)
}

/// The encoder that a connector is currently bound to, if the catalog has it.
pub open spec fn bound_encoder(c: ConnectorInfo, es: Seq<EncoderInfo>) -> Option<EncoderInfo> {
    match c.current_encoder {
        Some(h) => find_encoder(es, h),
        None => None,
    }
}

/// `d` is the output made of connector `c`, the `index`-th connected one.
pub open spec fn describes(d: Display, c: ConnectorInfo, es: Seq<EncoderInfo>, index: nat) -> bool {
    &&& d.identifier@ == display_name(index)
    &&& d.connector == c.handle
    &&& d.modes@ == c.modes@
    &&& d.encoder == bound_encoder(c, es)
}

/// The one-character string of decimal digit `d`.
fn digit_str(d: usize) -> (r: &'static str)
    requires
        d < 10,
    ensures
        r@ == seq![digit_char(d as nat)],
{
    proof {
        reveal_strlit("0");
        reveal_strlit("1");
        reveal_strlit("2");
        reveal_strlit("3");
        reveal_strlit("4");
        reveal_strlit("5");
        reveal_strlit("6");
        reveal_strlit("7");
        reveal_strlit("8");
        reveal_strlit("9");
    }
    if d == 0 {
        "0"
    } else if d == 1 {
        "1"
    } else if d == 2 {
        "2"
    } else if d == 3 {
        "3"
    } else if d == 4 {
        "4"
    } else if d == 5 {
        "5"
    } else if d == 6 {
        "6"
    } else if d == 7 {
        "7"
    } else if d == 8 {
        "8"
    } else {
        "9"
    }
}

/// `n` written in decimal.
pub fn decimal_string(n: usize) -> (r: String)
    ensures
        r@ == decimal(n as nat),
    decreases n,
{
    if n < 10 {
        String::from_str(digit_str(n))
    } else {
        let mut s = decimal_string(n / 10);
        s.append(digit_str(n % 10));
        s
    }
}

/// The identifier of the `index`-th connected output.
pub fn display_identifier(index: usize) -> (r: String)
    ensures
        r@ == display_name(index as nat),
{
    let mut s = String::from_str("Display ");
    proof {
        reveal_strlit("Display ");
    }
    let digits = decimal_string(index);
    s.append(digits.as_str());
    proof {
        assert(s@ =~= display_name(index as nat));
    }
    s
}

/// A mode-set call for the device: show framebuffer `fb` on `crtc`, driving
/// `connectors`, starting at `position`, at `mode` (`None` switches it off).
pub struct ModeSet {
    pub crtc: CrtcHandle,
    pub fb: FramebufferHandle,
    pub connectors: Vec<ConnectorHandle>,
    pub position: Position,
    pub mode: Option<Mode>,
}

/// The connector handles of `ds`, in order.
pub open spec fn connectors_of(ds: Seq<Display>) -> Seq<ConnectorHandle> {
    ds.map_values(|d: Display| d.connector)
}

/// Connector `c` is bound, through an encoder of `es`, to CRTC `crtc`.
pub open spec fn drives(c: ConnectorInfo, es: Seq<EncoderInfo>, crtc: CrtcHandle) -> bool {
    match bound_encoder(c, es) {
        Some(e) => e.current_crtc == Some(crtc),
        None => false,
    }
}

/// The connectors of `cs` that CRTC `crtc` drives, in catalog order.
pub open spec fn connectors_driving(cs: Seq<ConnectorInfo>, es: Seq<EncoderInfo>, crtc: CrtcHandle) -> Seq<ConnectorHandle>
    decreases cs.len(),
{
    if cs.len() == 0 {
        seq![]
    } else {
        let rest = connectors_driving(cs.drop_last(), es, crtc);
        if drives(cs.last(), es, crtc) {
            rest.push(cs.last().handle)
        } else {
            rest
        }
    }
}

/// The connectors a restore of `crtc` drives: those the catalog shows it
/// driving, with `conn` added at the end when it is not among them.
pub open spec fn restore_connectors(
    cs: Seq<ConnectorInfo>,
    es: Seq<EncoderInfo>,
    crtc: CrtcHandle,
    conn: ConnectorHandle,
) -> Seq<ConnectorHandle> {
    let d = connectors_driving(cs, es, crtc);
    if d.contains(conn) {
        d
    } else {
        d.push(conn)
    }
}

/// `m` puts back configuration `crt` on the connectors the catalog
/// (`cs`, `es`) shows it driving, and on `conn`.
pub open spec fn restores(
    m: ModeSet,
    conn: ConnectorHandle,
    crt: CrtcInfo,
    cs: Seq<ConnectorInfo>,
    es: Seq<EncoderInfo>,
) -> bool {
    &&& m.crtc == crt.handle
    &&& m.fb == crt.fb
    &&& m.connectors@ == restore_connectors(cs, es, crt.handle, conn)
    &&& m.position == crt.position
    &&& m.mode == crt.mode
}

/// Putting back the CRTC configuration captured from an output gives that
/// CRTC the mode, framebuffer and position it had when captured, and drives
/// exactly the connectors it drove then (the output's own among them).
/// Presenting frames changes only the surface, never the catalog, so this
/// holds however many frames came between capture and restore.
pub proof fn lemma_restore_reproduces(gpu: &Gpu, display: &Display, captured: CrtcInfo, m: ModeSet)
    requires
        active_crtc(display.encoder, gpu.crtcs@) == Some(captured),
        restores(m, display.connector, captured, gpu.connectors@, gpu.encoders@),
    ensures
        m.mode == active_crtc(display.encoder, gpu.crtcs@)->Some_0.mode,
        m.fb == active_crtc(display.encoder, gpu.crtcs@)->Some_0.fb,
        m.position == active_crtc(display.encoder, gpu.crtcs@)->Some_0.position,
        m.connectors@.to_set() == connectors_driving(gpu.connectors@, gpu.encoders@, captured.handle).to_set().insert(
            display.connector,
        ),
{
    let d = connectors_driving(gpu.connectors@, gpu.encoders@, captured.handle);
    if d.contains(display.connector) {
        assert(m.connectors@.to_set() =~= d.to_set().insert(display.connector));
    } else {
        assert forall|c: ConnectorHandle| #[trigger] m.connectors@.to_set().contains(c) <==> d.to_set().insert(display.connector).contains(c) by {
            if c == display.connector {
                assert(m.connectors@[d.len() as int] == c);
            }
            if d.contains(c) {
                let i = choose|i: int| 0 <= i < d.len() && d[i] == c;
                assert(m.connectors@[i] == c);
            }
            if m.connectors@.contains(c) {
                let i = choose|i: int| 0 <= i < m.connectors@.len() && m.connectors@[i] == c;
                if i < d.len() {
                    assert(d[i] == c);
                }
            }
        }
        assert(m.connectors@.to_set() =~= d.to_set().insert(display.connector));
    }
}

impl Gpu {
    /// The CRTC with the given handle.
    pub fn get_crtc(&self, crtc: CrtcHandle) -> (r: Option<CrtcInfo>)
        ensures
            r == find_crtc(self.crtcs@, crtc),
    {
        lookup_crtc(&self.crtcs, crtc)
    }

    /// One output per connected connector, in catalog order, each with its
    /// modes and the encoder it is bound to.
    pub fn displays(&self) -> (r: Vec<Display>)
        ensures
            r@.len() == connected(self.connectors@).len(),
            forall|k: int|
                0 <= k < r@.len() ==> describes(
                    #[trigger] r@[k],
                    connected(self.connectors@)[k],
                    self.encoders@,
                    k as nat,
                ),
    {
        let mut out: Vec<Display> = Vec::new();
        let mut i: usize = 0;
        proof {
            assert(self.connectors@.take(0) =~= Seq::<ConnectorInfo>::empty());
        }
        while i < self.connectors.len()
            invariant
                i <= self.connectors.len(),
                out@.len() == connected(self.connectors@.take(i as int)).len(),
                forall|k: int|
                    0 <= k < out@.len() ==> describes(
                        #[trigger] out@[k],
                        connected(self.connectors@.take(i as int))[k],
                        self.encoders@,
                        k as nat,
                    ),
            decreases self.connectors.len() - i,
        {
            let ghost before = connected(self.connectors@.take(i as int));
            proof {
                assert(self.connectors@.take(i + 1).drop_last() =~= self.connectors@.take(i as int));
            }
            let c = &self.connectors[i];
            if c.state == ConnectorState::Connected {
                let encoder = match c.current_encoder {
                    Some(h) => lookup_encoder(&self.encoders, h),
                    None => None,
                };
                let identifier = display_identifier(out.len());
                let d = Display {
                    identifier,
                    modes: copy_modes(&c.modes),
                    connector: c.handle,
                    encoder,
                };
                out.push(d);
            }
            i = i + 1;
            proof {
                let now = connected(self.connectors@.take(i as int));
                assert forall|k: int| 0 <= k < out@.len() implies describes(
                    #[trigger] out@[k],
                    now[k],
                    self.encoders@,
                    k as nat,
                ) by {
                    if k < before.len() {
                        assert(now[k] == before[k]);
                    }
                }
            }
        }
        proof {
            assert(self.connectors@.take(self.connectors@.len() as int) =~= self.connectors@);
        }
        out
    }

    /// The mode-set that shows the surface's latest framebuffer on `crt`
    /// at the surface's mode, driving the connectors of `displays`.
    pub fn modeset(&self, crt: &CrtcInfo, displays: &[Display], surface: &Surface) -> (r: Result<ModeSet, PresentError>)
        ensures
            surface@.framebuffer is None <==> r == Err::<ModeSet, PresentError>(PresentError::NoFramebuffer),
            surface@.framebuffer is Some <==> r is Ok,
            r is Ok ==> {
                let m = r->Ok_0;
                &&& m.crtc == crt.handle
                &&& m.fb == surface@.framebuffer->Some_0.drm_fb
                &&& m.connectors@ == connectors_of(displays@)
                &&& m.position == Position { x: 0, y: 0 }
                &&& m.mode == Some(surface@.mode)
            },
    {
        let fb = match surface.framebuffer() {
            Some(f) => f.handle(),
            None => return Err(PresentError::NoFramebuffer),
        };
        let mut connectors: Vec<ConnectorHandle> = Vec::new();
        let mut i: usize = 0;
        while i < displays.len()
            invariant
                i <= displays@.len(),
                connectors@ == connectors_of(displays@.take(i as int)),
            decreases displays@.len() - i,
        {
            connectors.push(displays[i].connector);
            i = i + 1;
            proof {
                assert(connectors@ =~= connectors_of(displays@.take(i as int)));
            }
        }
        proof {
            assert(displays@.take(displays@.len() as int) =~= displays@);
        }
        Ok(ModeSet { crtc: crt.handle, fb, connectors, position: Position { x: 0, y: 0 }, mode: Some(surface.mode()) })
    }

    /// Whether connector `c` is bound, through the catalog's encoders, to `crtc`.
    fn drives_crtc(&self, c: &ConnectorInfo, crtc: CrtcHandle) -> (r: bool)
        ensures
            r == drives(*c, self.encoders@, crtc),
    {
        match c.current_encoder {
            Some(h) => match lookup_encoder(&self.encoders, h) {
                Some(e) => e.current_crtc == Some(crtc),
                None => false,
            },
            None => false,
        }
    }

    /// The mode-set that puts back a captured CRTC configuration: its
    /// framebuffer, position and mode, driving the connectors the catalog
    /// shows it driving, and `conn` if it is not among them.
    pub fn modeset_by_crtc(&self, conn: ConnectorHandle, crt: CrtcInfo) -> (r: ModeSet)
        ensures
            restores(r, conn, crt, self.connectors@, self.encoders@),
    {
        let mut connectors: Vec<ConnectorHandle> = Vec::new();
        let mut found = false;
        let mut i: usize = 0;
        proof {
            assert(self.connectors@.take(0) =~= Seq::<ConnectorInfo>::empty());
        }
        while i < self.connectors.len()
            invariant
                i <= self.connectors.len(),
                connectors@ == connectors_driving(self.connectors@.take(i as int), self.encoders@, crt.handle),
                found == connectors@.contains(conn),
            decreases self.connectors.len() - i,
        {
            proof {
                assert(self.connectors@.take(i + 1).drop_last() =~= self.connectors@.take(i as int));
            }
            let c = &self.connectors[i];
            if self.drives_crtc(c, crt.handle) {
                let ghost prev = connectors@;
                connectors.push(c.handle);
                if c.handle == conn {
                    found = true;
                }
                proof {
                    if prev.contains(conn) {
                        let j = choose|j: int| 0 <= j < prev.len() && prev[j] == conn;
                        assert(connectors@[j] == conn);
                    }
                    if c.handle == conn {
                        assert(connectors@[prev.len() as int] == conn);
                    }
                    if connectors@.contains(conn) {
                        let j = choose|j: int| 0 <= j < connectors@.len() && connectors@[j] == conn;
                        if j < prev.len() {
                            assert(prev[j] == conn);
                        }
                    }
                }
            }
            i = i + 1;
        }
        proof {
            assert(self.connectors@.take(self.connectors@.len() as int) =~= self.connectors@);
        }
        if !found {
            connectors.push(conn);
        }
        ModeSet { crtc: crt.handle, fb: crt.fb, connectors, position: crt.position, mode: crt.mode }
    }
}

} // verus!
