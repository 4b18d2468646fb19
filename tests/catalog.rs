use kms_present::device::{decimal_string, display_identifier, Gpu, ModeSet};
use kms_present::display::{BufferId, Display, PresentError, Surface};
use kms_present::framebuffer::{Format, Framebuffer, FramebufferHandle};
use kms_present::resources::{
    lookup_crtc, lookup_encoder, ConnectorHandle, ConnectorInfo, ConnectorState, CrtcHandle,
    CrtcInfo, EncoderHandle, EncoderInfo, Mode, Position,
};

fn mode(w: u16, h: u16, hz: u32) -> Mode {
    Mode {
        clock: 148500,
        hdisplay: w,
        hsync_start: w + 88,
        hsync_end: w + 132,
        htotal: w + 280,
        hskew: 0,
        vdisplay: h,
        vsync_start: h + 4,
        vsync_end: h + 9,
        vtotal: h + 45,
        vscan: 0,
        vrefresh: hz,
    }
}

fn connector(id: u32, state: ConnectorState, enc: Option<u32>) -> ConnectorInfo {
    ConnectorInfo {
        handle: ConnectorHandle(id),
        state,
        modes: vec![mode(1920, 1080, 60), mode(1280, 720, 60)],
        current_encoder: enc.map(EncoderHandle),
    }
}

fn gpu() -> Gpu {
    Gpu {
        connectors: vec![
            connector(30, ConnectorState::Connected, Some(40)),
            connector(31, ConnectorState::Disconnected, Some(41)),
            connector(32, ConnectorState::Connected, None),
        ],
        encoders: vec![
            EncoderInfo { handle: EncoderHandle(40), current_crtc: Some(CrtcHandle(50)) },
            EncoderInfo { handle: EncoderHandle(41), current_crtc: None },
        ],
        crtcs: vec![
            CrtcInfo {
                handle: CrtcHandle(50),
                position: Position { x: 0, y: 0 },
                mode: Some(mode(1280, 720, 60)),
                fb: FramebufferHandle(77),
            },
            CrtcInfo { handle: CrtcHandle(51), position: Position { x: 5, y: 6 }, mode: None, fb: FramebufferHandle(0) },
        ],
    }
}

#[test]
fn resolve_outputs_keeps_connected_in_order() {
    let g = gpu();
    let ds = g.displays();
    assert_eq!(ds.len(), 2);
    assert_eq!(ds[0].connector, ConnectorHandle(30));
    assert_eq!(ds[1].connector, ConnectorHandle(32));
    assert_eq!(ds[0].identifier, "Display 0");
    assert_eq!(ds[1].identifier, "Display 1");
    assert_eq!(ds[0].encoder, Some(EncoderInfo { handle: EncoderHandle(40), current_crtc: Some(CrtcHandle(50)) }));
    assert_eq!(ds[1].encoder, None);
    assert_eq!(ds[0].modes, vec![mode(1920, 1080, 60), mode(1280, 720, 60)]);
}

#[test]
fn resolve_outputs_on_empty_catalog() {
    let g = Gpu { connectors: vec![], encoders: vec![], crtcs: vec![] };
    assert!(g.displays().is_empty());
}

#[test]
fn identifier_counts_past_nine() {
    let mut connectors = Vec::new();
    for i in 0..12 {
        connectors.push(connector(i, ConnectorState::Connected, None));
    }
    let g = Gpu { connectors, encoders: vec![], crtcs: vec![] };
    let ds = g.displays();
    assert_eq!(ds.len(), 12);
    assert_eq!(ds[11].identifier, "Display 11");
}

#[test]
fn unknown_state_is_not_connected() {
    let g = Gpu {
        connectors: vec![connector(1, ConnectorState::Unknown, None), connector(2, ConnectorState::Connected, None)],
        encoders: vec![],
        crtcs: vec![],
    };
    let ds = g.displays();
    assert_eq!(ds.len(), 1);
    assert_eq!(ds[0].connector, ConnectorHandle(2));
    assert_eq!(ds[0].identifier, "Display 0");
}

#[test]
fn encoder_missing_from_catalog_resolves_to_none() {
    let g = Gpu {
        connectors: vec![connector(1, ConnectorState::Connected, Some(99))],
        encoders: vec![EncoderInfo { handle: EncoderHandle(40), current_crtc: None }],
        crtcs: vec![],
    };
    assert_eq!(g.displays()[0].encoder, None);
}

#[test]
fn current_crtc_follows_encoder() {
    let g = gpu();
    let ds = g.displays();
    let c = ds[0].current_crtc(&g).unwrap();
    assert_eq!(c.handle, CrtcHandle(50));
    assert_eq!(c.fb, FramebufferHandle(77));
    assert_eq!(ds[1].current_crtc(&g), None);
}

#[test]
fn current_crtc_none_when_encoder_unbound_or_crtc_missing() {
    let g = gpu();
    let unbound = Display {
        identifier: String::from("x"),
        modes: vec![],
        connector: ConnectorHandle(1),
        encoder: Some(EncoderInfo { handle: EncoderHandle(41), current_crtc: None }),
    };
    assert_eq!(unbound.current_crtc(&g), None);
    let missing = Display {
        identifier: String::from("y"),
        modes: vec![],
        connector: ConnectorHandle(1),
        encoder: Some(EncoderInfo { handle: EncoderHandle(41), current_crtc: Some(CrtcHandle(9)) }),
    };
    assert_eq!(missing.current_crtc(&g), None);
}

#[test]
fn lookups_find_first_match() {
    let g = gpu();
    assert_eq!(g.get_crtc(CrtcHandle(51)).unwrap().position, Position { x: 5, y: 6 });
    assert_eq!(g.get_crtc(CrtcHandle(52)), None);
    assert_eq!(lookup_crtc(&g.crtcs, CrtcHandle(50)).unwrap().fb, FramebufferHandle(77));
    let es = vec![
        EncoderInfo { handle: EncoderHandle(1), current_crtc: Some(CrtcHandle(1)) },
        EncoderInfo { handle: EncoderHandle(1), current_crtc: Some(CrtcHandle(2)) },
    ];
    assert_eq!(lookup_encoder(&es, EncoderHandle(1)).unwrap().current_crtc, Some(CrtcHandle(1)));
    assert_eq!(lookup_encoder(&es, EncoderHandle(2)), None);
}

#[test]
fn mode_size_is_visible_resolution() {
    assert_eq!(mode(1920, 1080, 60).size(), (1920, 1080));
}

#[test]
fn modeset_needs_a_framebuffer() {
    let g = gpu();
    let ds = g.displays();
    let crt = g.crtcs[0];
    let s = Surface::new(CrtcHandle(50), mode(1920, 1080, 60), Format(0x34325258));
    assert!(matches!(g.modeset(&crt, &ds, &s), Err(PresentError::NoFramebuffer)));
}

#[test]
fn modeset_shows_latest_framebuffer_on_all_displays() {
    let g = gpu();
    let ds = g.displays();
    let crt = g.crtcs[1];
    let m = mode(1920, 1080, 60);
    let mut s = Surface::new(CrtcHandle(51), m, Format(0x34325258));
    s.swap_buffers(BufferId(1), FramebufferHandle(500)).unwrap();
    let set: ModeSet = g.modeset(&crt, &ds, &s).unwrap();
    assert_eq!(set.crtc, CrtcHandle(51));
    assert_eq!(set.fb, FramebufferHandle(500));
    assert_eq!(set.connectors, vec![ConnectorHandle(30), ConnectorHandle(32)]);
    assert_eq!(set.position, Position { x: 0, y: 0 });
    assert_eq!(set.mode, Some(m));
    assert_eq!(s.framebuffer(), Some(Framebuffer { drm_fb: FramebufferHandle(500), width: 1920, height: 1080 }));
}

#[test]
fn restore_after_presents_reproduces_captured_configuration() {
    let g = gpu();
    let ds = g.displays();
    let display = &ds[0];
    let captured = display.current_crtc(&g).unwrap();
    let mut s = Surface::new(CrtcHandle(50), mode(1920, 1080, 60), Format(0x34325258));
    let chain = [BufferId(1), BufferId(2)];
    for n in 0..5usize {
        let bo = chain[n % 2];
        let fb = s.cached_framebuffer(bo).unwrap_or(FramebufferHandle(600 + n as u32));
        s.swap_buffers(bo, fb).unwrap();
        s.begin_flip().unwrap();
        assert!(s.await_flip(&vec![kms_present::display::DeviceEvent::PageFlip { frame: n as u32, crtc: CrtcHandle(50) }]) != kms_present::display::FlipWait::Pending);
    }
    let after = display.current_crtc(&g).unwrap();
    assert_eq!(after, captured);
    let restore = g.modeset_by_crtc(display.connector, after);
    assert_eq!(restore.mode, Some(mode(1280, 720, 60)));
    assert_eq!(restore.connectors, vec![ConnectorHandle(30)]);
    assert_eq!(g.crtcs.len(), 2);
    assert_eq!(restore.fb, FramebufferHandle(77));
    assert_eq!(restore.crtc, CrtcHandle(50));
    assert_eq!(restore.position, Position { x: 0, y: 0 });
}

#[test]
fn restore_of_switched_off_crtc_clears_mode() {
    let g = gpu();
    let restore = g.modeset_by_crtc(ConnectorHandle(31), g.crtcs[1]);
    assert_eq!(restore.mode, None);
    assert_eq!(restore.position, Position { x: 5, y: 6 });
}

#[test]
fn load_information_keeps_handle_order() {
    let r = kms_present::resources::load_information(vec![Some(3u32), Some(1), Some(2)]);
    assert_eq!(r, Ok(vec![3, 1, 2]));
}

#[test]
fn load_information_fails_on_first_unresolved() {
    let r = kms_present::resources::load_information(vec![Some(3u32), None, Some(2), None]);
    assert_eq!(r, Err(1));
}

#[test]
fn load_information_of_no_handles_is_empty() {
    let r = kms_present::resources::load_information(Vec::<Option<EncoderInfo>>::new());
    assert_eq!(r, Ok(vec![]));
}

#[test]
fn restore_drives_every_connector_the_crtc_drove() {
    let mut g = gpu();
    g.connectors.push(connector(33, ConnectorState::Connected, Some(42)));
    g.connectors.push(connector(34, ConnectorState::Disconnected, Some(40)));
    g.encoders.push(EncoderInfo { handle: EncoderHandle(42), current_crtc: Some(CrtcHandle(50)) });
    let ds = g.displays();
    let captured = ds[0].current_crtc(&g).unwrap();
    let restore = g.modeset_by_crtc(ds[0].connector, captured);
    assert_eq!(restore.connectors, vec![ConnectorHandle(30), ConnectorHandle(33), ConnectorHandle(34)]);
}

#[test]
fn restore_adds_output_connector_when_catalog_lacks_it() {
    let g = gpu();
    let restore = g.modeset_by_crtc(ConnectorHandle(32), g.crtcs[0]);
    assert_eq!(restore.connectors, vec![ConnectorHandle(30), ConnectorHandle(32)]);
    let none = g.modeset_by_crtc(ConnectorHandle(31), g.crtcs[1]);
    assert_eq!(none.connectors, vec![ConnectorHandle(31)]);
}

#[test]
fn decimal_digits() {
    assert_eq!(decimal_string(0), "0");
    assert_eq!(decimal_string(7), "7");
    assert_eq!(decimal_string(10), "10");
    assert_eq!(decimal_string(4096), "4096");
    assert_eq!(decimal_string(usize::MAX), usize::MAX.to_string());
    assert_eq!(display_identifier(42), "Display 42");
}
