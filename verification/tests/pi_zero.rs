//! The Raspberry Pi Zero demo: its e-paper panel, its renderer and its displays.

use iroh_live::args::RemoteArgs;
use iroh_live::endpoint::EndpointId;
use iroh_live::gles::{ActiveMode, GlesState, Upload};
use iroh_live::panel::{
    qr_frame, test_pattern, DisplayBuffer, QrLayout, BUF_LEN, CELL, HEIGHT, LABEL_HEIGHT,
    LINE_BYTES, WIDTH,
};
use iroh_live::pi_zero::{
    choose_output, device_paths, display_line, viewer, watched, window_event, Connector, Encoder,
    Epaper, FrameCounter, Output, PublishOpts, Viewer, WatchOpts, WindowAction, WindowEvent,
    EPAPER_REFRESH_SECS,
};
use iroh_live::ticket::LiveTicket;
use iroh_live::time::{Duration, Instant};
use qrcode::QrCode;

/// A ticket as a publisher hands one out: the scheme, a base64url endpoint id,
/// and a broadcast name.
const TICKET: &str = "iroh-live:kX9mQ2vT7bL4nR8dY1sW6pA3zC5eH0jF2gK8uM4iO7Q/pi-zero";

fn id(byte: u8) -> EndpointId {
    let key = iroh::SecretKey::from_bytes(&[byte; 32]).public();
    EndpointId::from_bytes(key.as_bytes()).expect("a public key is an id")
}

#[test]
fn a_ticket_qr_gets_three_pixels_per_module() {
    let code = QrCode::new(TICKET.as_bytes()).expect("a ticket fits in a QR code");
    assert_eq!(code.width(), 33);

    let layout = QrLayout::centred(code.width());
    assert_eq!(layout.scale, 3);
    assert_eq!(layout.size_px, 99);
}

#[test]
fn a_ticket_qr_keeps_most_of_a_quiet_zone() {
    let code = QrCode::new(TICKET.as_bytes()).expect("a ticket fits in a QR code");
    let layout = QrLayout::centred(code.width());
    let quiet_modules = layout.x_offset as f64 / layout.scale as f64;
    assert!(
        quiet_modules >= 3.5,
        "only {quiet_modules:.1} modules of quiet zone around the code",
    );
}

#[test]
fn a_fourth_pixel_per_module_does_not_fit_the_panel() {
    let code = QrCode::new(TICKET.as_bytes()).expect("a ticket fits in a QR code");
    assert!(
        code.width() * 4 > WIDTH as usize,
        "four pixels per module would fit, so the layout is leaving some behind",
    );
}

#[test]
fn a_qr_code_stays_on_the_panel() {
    for modules in [21, 25, 29, 33, 41, 53, 77] {
        let layout = QrLayout::centred(modules);
        assert!(
            layout.x_offset + layout.size_px <= WIDTH as usize,
            "{modules} modules overrun the panel width"
        );
        assert!(
            layout.y_offset + layout.size_px + LABEL_HEIGHT <= HEIGHT as usize,
            "{modules} modules overrun the panel height"
        );
    }
}

#[test]
fn a_code_too_wide_for_the_panel_is_drawn_all_the_same() {
    let layout = QrLayout::centred(177);
    assert_eq!((layout.scale, layout.size_px), (1, 177));
    assert_eq!((layout.x_offset, layout.y_offset), (0, 29));
    assert_eq!(layout.label_at(), (0, 29 + 177 + 8));
}

#[test]
fn the_panel_shows_the_modules_of_the_code() {
    let (display, layout) = qr_frame(TICKET).expect("a ticket fits in a QR code");
    let code = QrCode::new(TICKET.as_bytes()).expect("a ticket fits in a QR code");
    let modules = code.width();
    let colors = code.to_colors();
    assert_eq!(layout, QrLayout::centred(modules));
    for y in 0..HEIGHT {
        for x in 0..WIDTH {
            let (px, py) = (x as usize, y as usize);
            let inside = (layout.x_offset..layout.x_offset + layout.size_px).contains(&px)
                && (layout.y_offset..layout.y_offset + layout.size_px).contains(&py);
            let expected = inside && {
                let column = (px - layout.x_offset) / layout.scale;
                let row = (py - layout.y_offset) / layout.scale;
                colors[row * modules + column] == qrcode::Color::Dark
            };
            assert_eq!(display.is_black_at(x, y), expected, "at {x}, {y}");
        }
    }
    assert!(qr_frame(&"x".repeat(5_000)).is_none());
}

#[test]
fn pixels_are_bits_of_the_buffer() {
    let mut display = DisplayBuffer::new_white();
    assert_eq!(display.buffer().len(), BUF_LEN);
    assert!(display.buffer().iter().all(|byte| *byte == 0xff));
    display.set_pixel(9, 2, true);
    assert_eq!(display.buffer()[2 * LINE_BYTES + 1], 0b1011_1111);
    display.set_pixel(9, 2, false);
    assert_eq!(display.buffer()[2 * LINE_BYTES + 1], 0xff);
    for (x, y) in [(-1, 0), (0, -1), (WIDTH as i32, 0), (0, HEIGHT as i32), (i32::MAX, i32::MIN)] {
        display.set_pixel(x, y, true);
    }
    assert!(display.buffer().iter().all(|byte| *byte == 0xff));
    display.fill_square(120, 248, 5, true);
    assert!(display.is_black_at(121, 249));
    assert!(!display.is_black_at(119, 249));
}

/// Whether the bits past the panel's width are those of white pixels in each row.
fn padding_is_white(display: &DisplayBuffer) -> bool {
    display.buffer().chunks(LINE_BYTES).all(|row| row[LINE_BYTES - 1] & 0b0011_1111 == 0b0011_1111)
}

#[test]
fn nothing_is_drawn_in_the_padding() {
    let mut display = DisplayBuffer::new_white();
    for x in WIDTH as i32..LINE_BYTES as i32 * 8 {
        display.set_pixel(x, 7, true);
    }
    assert!(display.buffer().iter().all(|byte| *byte == 0xff));
    display.set_pixel(WIDTH as i32 - 1, 7, true);
    assert_eq!(display.buffer()[8 * LINE_BYTES - 1], 0b1011_1111);
    display.fill_square(100, 0, 60, true);
    assert!(display.is_black_at(WIDTH - 1, 59) && !display.is_black_at(WIDTH - 1, 60));
    assert!(padding_is_white(&display));
    assert!(padding_is_white(&test_pattern()));
    let (frame, _) = qr_frame(&"x".repeat(1_500)).expect("it fits in a code");
    assert!(padding_is_white(&frame));
}

#[test]
fn a_square_of_any_size_is_cut_off_at_the_edge() {
    let mut display = DisplayBuffer::new_white();
    display.fill_square(u32::MAX, u32::MAX, u32::MAX, true);
    display.fill_square(WIDTH, 0, 5, true);
    display.fill_square(3, 3, 0, true);
    assert!(display.buffer().iter().all(|byte| *byte == 0xff));
    display.fill_square(1, 2, u32::MAX, true);
    assert!(display.is_black_at(1, 2) && display.is_black_at(WIDTH - 1, HEIGHT - 1));
    assert!(!display.is_black_at(0, 2) && !display.is_black_at(1, 1));
    assert!(padding_is_white(&display));
}

#[test]
fn the_test_pattern_is_a_checkerboard() {
    let display = test_pattern();
    for y in 0..HEIGHT {
        for x in 0..WIDTH {
            let white = (x / CELL) % 2 == (y / CELL) % 2;
            assert_eq!(display.is_black_at(x, y), !white, "at {x}, {y}");
        }
    }
}

#[test]
fn textures_are_allocated_once_for_a_size() {
    let mut state = GlesState::new();
    assert_eq!(state.upload_rgba(4, 4), Upload::Allocate);
    assert_eq!(state.upload_rgba(4, 4), Upload::Reuse);
    let (y, u, v) = state.upload_i420(15, 6, 6, 5, 3);
    assert_eq!((y.width, y.height, y.len, y.upload), (5, 3, 15, Upload::Allocate));
    assert_eq!((u.width, u.height, u.len, u.upload), (3, 2, 6, Upload::Allocate));
    assert_eq!(v.upload, Upload::Allocate);
    assert_eq!(state.active, ActiveMode::I420);
    assert_eq!(state.texture_dimensions(), (5, 3));
    let (y, u, v) = state.upload_i420(15, 6, 6, 5, 3);
    assert_eq!((y.upload, u.upload, v.upload), (Upload::Reuse, Upload::Reuse, Upload::Reuse));
    assert_eq!(state.upload_rgba(4, 4), Upload::Reuse);
    assert_eq!(state.texture_dimensions(), (4, 4));
}

#[test]
fn the_demo_publishes_a_keyframe_a_second() {
    let opts = PublishOpts { fps: 24, ..PublishOpts::default() };
    let camera = opts.camera();
    assert_eq!((camera.width, camera.height, camera.bitrate), (640, 360, 500_000));
    assert_eq!(camera.keyframe_interval, 24);
    assert_eq!(opts.ticket(id(1)), LiveTicket::new(id(1), "pi-zero".to_string()).serialize());
}

#[test]
fn the_panel_is_refreshed_and_cleared_only_if_it_shows_the_code() {
    assert_eq!(Epaper::start(true, true), Epaper::Showing);
    assert_eq!(Epaper::start(true, false), Epaper::Off);
    assert_eq!(Epaper::start(false, true), Epaper::Off);
    assert_eq!(
        Epaper::Showing.next_refresh(),
        Some(Duration::from_secs(EPAPER_REFRESH_SECS))
    );
    assert_eq!(EPAPER_REFRESH_SECS, 12 * 60 * 60);
    assert_eq!(Epaper::Off.next_refresh(), None);
    assert!(Epaper::Showing.clears());
    assert!(!Epaper::Off.clears());
}

#[test]
fn a_stream_is_drawn_where_it_can_be() {
    let opts = |fb: bool| WatchOpts {
        remote: RemoteArgs { ticket: None, endpoint_id: None, broadcast_name: None },
        fb,
        fullscreen: true,
    };
    assert_eq!(viewer(&opts(true), false), Ok(Viewer::Display));
    assert_eq!(viewer(&opts(false), true), Ok(Viewer::Window { fullscreen: true }));
    assert!(viewer(&opts(false), false).is_err());
    assert!(watched(&opts(true)).unwrap_err().starts_with("Usage: watch"));
}

#[test]
fn the_first_connected_display_is_drawn_to() {
    let connector = |handle: u32, connected: bool| {
        Some(Connector {
            handle,
            connected,
            modes: vec![(1920, 1080), (640, 480)],
            encoder: Encoder::Found(Some(7)),
        })
    };
    let output = Output { connector: 2, crtc: 7, width: 1920, height: 1080 };
    assert_eq!(
        choose_output(&vec![connector(1, false), connector(2, true), connector(3, true)]),
        Ok(output)
    );
    assert_eq!(display_line(output), "rendering to HDMI (1920x1080)");
    assert_eq!(choose_output(&vec![connector(1, false)]), Err("no connected display found"));
    assert_eq!(choose_output(&vec![None, connector(2, true)]), Err("get_connector"));
    let lacking = |modes: Vec<(u16, u16)>, encoder: Encoder| {
        choose_output(&vec![Some(Connector { handle: 1, connected: true, modes, encoder })])
    };
    assert_eq!(lacking(vec![], Encoder::Missing), Err("connector has no modes"));
    assert_eq!(lacking(vec![(1, 1)], Encoder::Missing), Err("no encoder"));
    assert_eq!(lacking(vec![(1, 1)], Encoder::Unreadable), Err("get_encoder"));
    assert_eq!(lacking(vec![(1, 1)], Encoder::Found(None)), Err("no CRTC"));
    assert_eq!(device_paths(), ["/dev/dri/card1", "/dev/dri/card0"]);
}

#[test]
fn frame_rates_are_counted_by_the_second() {
    let t0 = Instant { nanos: 5 };
    let mut counter = FrameCounter::new(t0);
    assert!(counter.uploaded());
    assert!(counter.uploaded());
    assert!(counter.uploaded());
    assert!(!counter.uploaded());
    assert_eq!(counter.stats(Instant { nanos: 1_000_000_004 }), None);
    assert_eq!(
        counter.stats(Instant { nanos: 1_000_000_005 }),
        Some((4, Duration { nanos: 1_000_000_000 }))
    );
    assert_eq!(counter.frames, 0);
}

#[test]
fn the_viewer_answers_its_window() {
    assert_eq!(window_event(WindowEvent::Resumed, false), WindowAction::Open);
    assert_eq!(window_event(WindowEvent::Resumed, true), WindowAction::Nothing);
    assert_eq!(window_event(WindowEvent::Escape, true), WindowAction::Exit);
    assert_eq!(window_event(WindowEvent::CloseRequested, false), WindowAction::Exit);
    assert_eq!(
        window_event(WindowEvent::Resized { width: 0, height: 9 }, true),
        WindowAction::Resize { width: 1, height: 9 }
    );
    assert_eq!(
        window_event(WindowEvent::Resized { width: 0, height: 9 }, false),
        WindowAction::Nothing
    );
    assert_eq!(window_event(WindowEvent::RedrawRequested, true), WindowAction::Draw);
    assert_eq!(window_event(WindowEvent::RedrawRequested, false), WindowAction::Nothing);
}
