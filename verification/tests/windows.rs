//! The windows: scanning, watching, calling, rooms, and what is drawn in them.

use iroh_live::args::{CaptureArgs, PlaybackArgs, LatencyArg, RemoteArgs, RoomArgs, WatchArgs};
use iroh_live::backend::{DecoderArg, Kind};
use iroh_live::call::Call;
use iroh_live::call_window::{
    gave_up, paste_row, CallApp, CallEvent, Camera, Direction, Screen, Starts,
};
use iroh_live::endpoint::EndpointId;
use iroh_live::features::Features;
use iroh_live::qr::{code, QrPixels, QR_QUIET};
use iroh_live::room::{
    broadcast_name, cell_at, check_gossip, display_name, layout, short, Cell, ChatState, PeerTile,
    RoomApp, RoomEvent, MAX_CHAT_LINES,
};
use iroh_live::scan::{
    camera_spec, camera_spec_with, decode, first_decoded, judge, no_frames, plan, prompt, resolve,
    still_skipped, CameraEvent, DecoderSlot, Look, LookAction, Luma, ScanPlan, ScanState, Scanner,
    Skip, Verdict, DECODE_INTERVAL, SCAN_HEIGHT, SCAN_WIDTH,
};
use iroh_live::source_spec::{RpicamMode, VideoSourceSpec};
use iroh_live::ticket::LiveTicket;
use iroh_live::time::{Duration, Instant};
use iroh_live::ui::{
    prepare_playback, CursorIdle, PlaybackPolicy, RemoteView, RenditionChoice, TrackCommand,
};
use iroh_live::watch::{
    audio_only, audio_output_refused, back_label, no_answer, prepare, start, Closing, Mode,
    Opening, Opens, Options, Refused, Start, TrackSelection, WatchApp, WatchEvent, REDIAL_WAIT,
    REDIAL_WAIT_MAX,
};

/// Pixels per QR module in the rendered test images.
const MODULE_PIXELS: u32 = 8;

/// Quiet zone around the rendered code, in modules.
const QUIET_MODULES: u32 = 4;

fn generated() -> EndpointId {
    let key = iroh::SecretKey::generate().public();
    EndpointId::from_bytes(key.as_bytes()).expect("a public key is an id")
}

fn id(byte: u8) -> EndpointId {
    let key = iroh::SecretKey::from_bytes(&[byte; 32]).public();
    EndpointId::from_bytes(key.as_bytes()).expect("a public key is an id")
}

fn ticket(byte: u8, name: &str) -> LiveTicket {
    LiveTicket::new(id(byte), name.to_string())
}

fn now() -> Instant {
    Instant { nanos: 1_000_000_000_000 }
}

fn after(nanos: u128) -> Instant {
    Instant { nanos: now().nanos + nanos }
}

/// A build with the Raspberry Pi camera.
fn with_rpicam() -> Features {
    Features { rpicam: true, ..Features::default() }
}

// ── Scanning ───────────────────────────────────────────────────────

/// Unsharp mask: the picture plus `amount` times what a Gaussian blur of `sigma`
/// pixels took away from it.
fn sharpen(image: &Luma, sigma: f64, amount: f64) -> Luma {
    let soft = gaussian_blur(image, sigma);
    let data = image
        .data
        .iter()
        .zip(&soft.data)
        .map(|(&sharp, &soft)| {
            let value = f64::from(sharp) + amount * (f64::from(sharp) - f64::from(soft));
            value.round().clamp(0.0, 255.0) as u8
        })
        .collect();
    Luma { width: image.width, height: image.height, data }
}

/// A separable Gaussian blur of `sigma` pixels, three sigma each side, with the
/// border pixel repeated past the edge.
fn gaussian_blur(image: &Luma, sigma: f64) -> Luma {
    if sigma <= 0.0 {
        return Luma { width: image.width, height: image.height, data: image.data.clone() };
    }
    let radius = (sigma * 3.0).ceil() as i64;
    let kernel: Vec<f64> = (-radius..=radius)
        .map(|offset| (-(offset * offset) as f64 / (2.0 * sigma * sigma)).exp())
        .collect();
    let total: f64 = kernel.iter().sum();
    let (width, height) = (i64::from(image.width), i64::from(image.height));
    let pass = |source: &[u8], horizontal: bool| -> Vec<u8> {
        let mut out = vec![0u8; source.len()];
        for y in 0..height {
            for x in 0..width {
                let mut sum = 0.0;
                for (index, weight) in kernel.iter().enumerate() {
                    let offset = index as i64 - radius;
                    let (x, y) = match horizontal {
                        true => ((x + offset).clamp(0, width - 1), y),
                        false => (x, (y + offset).clamp(0, height - 1)),
                    };
                    sum += weight * f64::from(source[(y * width + x) as usize]);
                }
                out[(y * width + x) as usize] = (sum / total).round() as u8;
            }
        }
        out
    };
    let rows = pass(&image.data, true);
    Luma { width: image.width, height: image.height, data: pass(&rows, false) }
}

/// What `rxing` reads in a picture, told to look for a QR code and to try harder.
fn rxing_text(image: &Luma) -> Option<String> {
    let mut hints = rxing::DecodeHints { TryHarder: Some(true), ..Default::default() };
    rxing::helpers::detect_in_luma_with_hints(
        image.data.clone(),
        image.width,
        image.height,
        Some(rxing::BarcodeFormat::QR_CODE),
        &mut hints,
    )
    .ok()
    .map(|result| result.getText().to_string())
}

/// The codes that `rqrr` finds in a picture, each with its text if it decodes.
fn rqrr_grids(image: &Luma) -> Vec<Option<String>> {
    let width = image.width as usize;
    let mut prepared =
        rqrr::PreparedImage::prepare_from_greyscale(width, image.height as usize, |x, y| {
            image.data[y * width + x]
        });
    let grids = prepared.detect_grids();
    grids.into_iter().map(|grid| grid.decode().ok().map(|(_, text)| text)).collect()
}

/// Reads a picture that has been sharpened, the way the scanner does.
fn look(image: &Luma) -> Option<String> {
    decode(rxing_text(image), rqrr_grids(image))
}

/// Sharpens a picture the way the scanner does, and reads it.
fn read(image: &Luma) -> Option<String> {
    let radius = f64::from(image.width.min(image.height)) / 300.0;
    look(&sharpen(image, radius, 1.5))
}

/// Renders `text` as a QR code the way a camera would see one: dark modules on a
/// light background, with the quiet zone around them.
fn render(text: &str) -> Luma {
    let code = qrcode::QrCode::new(text).expect("the text fits in a QR code");
    let modules = u32::try_from(code.width()).expect("a QR code is at most 177 modules wide");
    let colors = code.to_colors();

    let side = (modules + 2 * QUIET_MODULES) * MODULE_PIXELS;
    let mut data = vec![u8::MAX; (side * side) as usize];
    for row in 0..modules {
        for column in 0..modules {
            if colors[(row * modules + column) as usize] != qrcode::Color::Dark {
                continue;
            }
            let top = (row + QUIET_MODULES) * MODULE_PIXELS;
            let left = (column + QUIET_MODULES) * MODULE_PIXELS;
            for y in top..top + MODULE_PIXELS {
                let start = (y * side + left) as usize;
                data[start..start + MODULE_PIXELS as usize].fill(0);
            }
        }
    }
    Luma { width: side, height: side, data }
}

/// One ticket, the same every run, as a webcam sees a small panel: the code drawn
/// at `module_pixels` per module in the middle of a scan-sized frame.
fn ticket_code(module_pixels: u32) -> (LiveTicket, Luma) {
    let ticket = ticket(7, "pi-zero");
    let code = qrcode::QrCode::new(ticket.serialize()).expect("a ticket fits in a QR code");
    let modules = u32::try_from(code.width()).expect("at most 177 modules");
    let colors = code.to_colors();
    let side = modules * module_pixels;
    assert!(
        side + 2 * QUIET_MODULES * module_pixels <= SCAN_HEIGHT,
        "{module_pixels} px per module does not fit the frame"
    );
    let left0 = (SCAN_WIDTH - side) / 2;
    let top0 = (SCAN_HEIGHT - side) / 2;
    let mut data = vec![u8::MAX; (SCAN_WIDTH * SCAN_HEIGHT) as usize];
    for row in 0..modules {
        for column in 0..modules {
            if colors[(row * modules + column) as usize] != qrcode::Color::Dark {
                continue;
            }
            let top = top0 + row * module_pixels;
            let left = left0 + column * module_pixels;
            for y in top..top + module_pixels {
                let start = (y * SCAN_WIDTH + left) as usize;
                data[start..start + module_pixels as usize].fill(0);
            }
        }
    }
    (ticket, Luma { width: SCAN_WIDTH, height: SCAN_HEIGHT, data })
}

#[test]
fn a_ticket_decodes_through_the_blur_a_close_webcam_produces() {
    const FLOOR_MODULES: f64 = 0.5;
    for module_pixels in [4, 6, 8, 10] {
        let (ticket, sharp) = ticket_code(module_pixels);
        let image = gaussian_blur(&sharp, FLOOR_MODULES * f64::from(module_pixels));
        let read = read(&image).and_then(|text| text.parse::<LiveTicket>().ok());
        assert_eq!(
            read.as_ref(),
            Some(&ticket),
            "at {module_pixels} px per module the scanner does not read through a blur \
             of {FLOOR_MODULES} modules, which a close webcam produces",
        );
    }
}

#[test]
fn a_ticket_survives_the_round_trip_through_a_qr_code() {
    let ticket = LiveTicket::new(generated(), "hello".to_string());
    let text = read(&render(&ticket.serialize())).expect("the code is there to be found");
    assert_eq!(text.parse::<LiveTicket>().expect("it decoded as printed"), ticket);
}

#[test]
fn a_qr_code_that_is_not_a_ticket_decodes_but_does_not_parse() {
    let text = read(&render("https://example.com")).expect("the code is still a QR code");
    assert_eq!(text, "https://example.com");
    assert!(text.parse::<LiveTicket>().is_err());
}

#[test]
fn the_scan_camera_takes_a_camera_by_id() {
    assert_eq!(
        camera_spec(Some("cam")).expect("a camera"),
        Some(VideoSourceSpec::Camera(None))
    );
    assert_eq!(
        camera_spec(Some("cam:/dev/video2")).expect("a camera"),
        Some(VideoSourceSpec::Camera(Some("/dev/video2".into())))
    );
    assert_eq!(camera_spec(None).expect("no flag is fine"), None);
}

#[test]
fn the_scan_camera_refuses_what_is_not_a_camera() {
    for spec in ["screen", "test", "file:clip.mp4", "none"] {
        let err = camera_spec(Some(spec)).expect_err(spec);
        assert!(err.contains("--scan-camera"), "{spec}: {err}");
        assert!(err.contains(spec), "{spec}: {err}");
    }
}

#[test]
fn the_pi_camera_is_always_raw_for_scanning() {
    for spec in ["rpicam", "rpicam:raw", "picam"] {
        assert_eq!(
            camera_spec_with(with_rpicam(), Some(spec)).expect(spec),
            Some(VideoSourceSpec::Rpicam(RpicamMode::Raw)),
            "{spec}"
        );
    }
}

#[test]
fn a_held_off_ticket_is_skipped_until_its_wait_runs_out() {
    let ticket = LiveTicket::new(generated(), "hello".to_string());
    let sixty = Duration::from_secs(60);
    let skip = Skip { ticket: ticket.clone(), until: after(sixty.nanos) };
    let left = still_skipped(Some(&skip), &ticket, now()).expect("the wait has not run out");
    assert!(left <= sixty);

    let expired = Skip {
        ticket: ticket.clone(),
        until: Instant { nanos: now().nanos - Duration::from_secs(1).nanos },
    };
    assert!(still_skipped(Some(&expired), &ticket, now()).is_none());
}

#[test]
fn a_different_ticket_is_never_held_off() {
    let refused = LiveTicket::new(generated(), "hello".to_string());
    let other = LiveTicket::new(generated(), "hello".to_string());
    let skip = Skip { ticket: refused, until: after(60_000_000_000) };
    assert!(still_skipped(Some(&skip), &other, now()).is_none());
    assert!(still_skipped(None, &other, now()).is_none());
}

#[test]
fn a_picture_with_no_qr_code_in_it_finds_nothing() {
    let blank = Luma { width: 320, height: 240, data: vec![u8::MAX; 320 * 240] };
    assert!(read(&blank).is_none());
    assert!(look(&blank).is_none());
}

#[test]
fn an_empty_picture_finds_nothing() {
    assert!(look(&Luma { width: 0, height: 0, data: vec![] }).is_none());
    assert!(look(&Luma { width: 4, height: 0, data: vec![] }).is_none());
}

#[test]
fn either_decoder_alone_is_enough() {
    let code = render("iroh-live:either");
    let text = Some("iroh-live:either".to_string());
    assert_eq!(decode(rxing_text(&code), vec![]), text);
    assert_eq!(decode(None, rqrr_grids(&code)), text);
    assert_eq!(decode(None, vec![None]), None);
}

#[test]
fn what_the_first_decoder_read_is_the_answer() {
    let some = |text: &str| Some(text.to_string());
    assert_eq!(decode(some("a"), vec![some("b")]), some("a"));
    assert_eq!(decode(some("a"), vec![]), some("a"));
    assert_eq!(decode(None, vec![None, some("b"), some("c")]), some("b"));
    assert_eq!(decode(None, vec![]), None);
}

#[test]
fn the_first_grid_that_decodes_is_the_answer() {
    let some = |text: &str| Some(text.to_string());
    assert_eq!(first_decoded(vec![None, some("a"), some("b")]), some("a"));
    assert_eq!(first_decoded(vec![None, None]), None);
    assert_eq!(first_decoded(vec![]), None);
}

#[test]
fn the_luma_plane_comes_first() {
    let luma = Luma::of_planes(2, 2, &vec![1, 2, 3, 4, 5, 6]);
    assert_eq!(luma.data, [1, 2, 3, 4]);
}

#[test]
fn the_scanner_opens_the_best_camera_it_can() {
    assert_eq!(resolve(None, Features::default(), true), VideoSourceSpec::Camera(None));
    assert_eq!(resolve(None, with_rpicam(), false), VideoSourceSpec::Camera(None));
    assert_eq!(resolve(None, with_rpicam(), true), VideoSourceSpec::Rpicam(RpicamMode::Raw));
    let chosen = VideoSourceSpec::Camera(Some("b".to_string()));
    assert_eq!(resolve(Some(&chosen), with_rpicam(), true), chosen);
    match plan(chosen) {
        ScanPlan::Capture { id, size, framerate } => {
            assert_eq!(id, Some("b".to_string()));
            assert_eq!((size.width, size.height, framerate), (1280, 720, 15));
        }
        other => panic!("not a camera: {other:?}"),
    }
    assert!(plan(VideoSourceSpec::Rpicam(RpicamMode::Raw)).is_rpicam());
}

#[test]
fn a_code_is_judged_by_what_it_says() {
    let good = ticket(1, "a");
    match judge(&good.serialize(), None, now()) {
        Verdict::Found(found) => assert_eq!(found, good),
        other => panic!("not found: {other:?}"),
    }
    let skip = Skip { ticket: good.clone(), until: after(5) };
    match judge(&good.serialize(), Some(&skip), now()) {
        Verdict::Wait(left) => assert_eq!(left, Duration { nanos: 5 }),
        other => panic!("not held off: {other:?}"),
    }
    assert!(matches!(judge(&ticket(2, "a").serialize(), Some(&skip), now()), Verdict::Found(_)));
    assert!(matches!(judge("https://example.com", None, now()), Verdict::NotATicket(_)));
}

#[test]
fn the_screen_says_how_far_the_scan_has_got() {
    assert_eq!(prompt(), "Hold a ticket QR code up to the camera");
    assert_eq!(ScanState::Looking.note(), None);
    assert_eq!(
        ScanState::Waiting(Duration::from_millis(2_500)).note(),
        Some("that ticket did not connect, trying it again in 3s".to_string())
    );
    let found = ScanState::Found(ticket(1, "a"));
    assert_eq!(found.note(), Some("connecting to a".to_string()));
    assert_eq!(found.ticket(), Some(ticket(1, "a")));
    assert_eq!(ScanState::NotATicket.ticket(), None);
    assert_eq!(ScanState::Failed("gone".to_string()).note(), Some("gone".to_string()));
}

#[test]
fn pictures_are_looked_at_an_interval_apart() {
    let mut look = Look::new(now());
    let show = |look: &mut Look, idle: bool, at: Instant| {
        match look.on_event(CameraEvent::Frame, idle, at, "cam", false) {
            LookAction::Show { decode, .. } => decode,
            other => panic!("not shown: {other:?}"),
        }
    };
    assert!(show(&mut look, true, now()));
    look.looked(now());
    assert!(!show(&mut look, true, after(DECODE_INTERVAL - 1)));
    assert!(!show(&mut look, false, after(DECODE_INTERVAL)));
    assert!(show(&mut look, true, after(DECODE_INTERVAL)));
    assert_eq!(look.delivered, 4);
    let mut slot = DecoderSlot::new();
    assert!(slot.idle);
    slot.look_at(true);
    assert!(!slot.idle);
    slot.finished();
    slot.look_at(false);
    assert!(slot.idle);
}

#[test]
fn a_silent_camera_is_given_up() {
    let give_up = |look: &mut Look, event: CameraEvent| {
        match look.on_event(event, true, after(7_900_000_000), "cam0", false) {
            LookAction::GiveUp(problem) => problem,
            other => panic!("not given up: {other:?}"),
        }
    };
    let mut look = Look::new(now());
    assert_eq!(give_up(&mut look, CameraEvent::Silent), no_frames("cam0", false));
    assert!(no_frames("cam0", true).ends_with("within 5s; check the ribbon cable"));
    assert!(no_frames("cam0", false).ends_with("pass --scan-camera rpicam"));
    assert_eq!(give_up(&mut look, CameraEvent::Stopped), "the camera stopped");
    assert_eq!(give_up(&mut look, CameraEvent::Failed("x".to_string())), "x");
    look.on_event(CameraEvent::Frame, true, now(), "cam0", false);
    assert_eq!(
        give_up(&mut look, CameraEvent::Silent),
        "the camera stopped delivering after 7s"
    );
    let mut reports = 0;
    for _ in 0..200 {
        if let LookAction::Show { report: true, .. } =
            look.on_event(CameraEvent::Frame, true, now(), "cam0", false)
        {
            reports += 1;
        }
    }
    assert_eq!(reports, 2);
    assert!(matches!(
        look.on_event(CameraEvent::Found(ticket(1, "a")), true, now(), "cam0", false),
        LookAction::Dial(_)
    ));
    let mut scanner = Scanner::new();
    assert!(scanner.failed("a".to_string()).1);
    assert!(!scanner.failed("b".to_string()).1);
}

// ── QR codes ───────────────────────────────────────────────────────

/// Repeats every pixel of `pixels` in both directions, which is what the texture
/// sampler does to the code on its way to the screen.
fn upscale(pixels: &QrPixels) -> Luma {
    let factor = MODULE_PIXELS as usize;
    let side = pixels.side * factor;
    let mut data = vec![u8::MAX; side * side];
    for (index, value) in pixels.gray.iter().enumerate() {
        let top = index / pixels.side * factor;
        let left = index % pixels.side * factor;
        for y in top..top + factor {
            data[y * side + left..y * side + left + factor].fill(*value);
        }
    }
    Luma { width: side as u32, height: side as u32, data }
}

#[test]
fn a_call_ticket_survives_the_round_trip_through_the_rendered_code() {
    let id = generated();
    let ticket = LiveTicket::new(id, Call::path(id));
    let pixels = QrPixels::render(&ticket.serialize()).expect("a ticket fits in a QR code");
    let text = look(&upscale(&pixels)).expect("the code is there to be found");
    assert_eq!(text.parse::<LiveTicket>().expect("it decoded as rendered"), ticket);
}

#[test]
fn a_rendered_code_keeps_the_quiet_zone_a_decoder_relies_on() {
    let pixels = QrPixels::render("iroh-live:hello").expect("the text fits");
    for row in 0..pixels.side {
        for column in 0..pixels.side {
            let inside = (QR_QUIET..pixels.side - QR_QUIET).contains(&row)
                && (QR_QUIET..pixels.side - QR_QUIET).contains(&column);
            if inside {
                continue;
            }
            assert_eq!(
                pixels.gray[row * pixels.side + column],
                u8::MAX,
                "row {row}, column {column} is inside the quiet zone"
            );
        }
    }
}

#[test]
fn a_text_too_long_for_any_code_has_none() {
    assert!(QrPixels::render(&"x".repeat(5_000)).is_none());
    assert!(code(&"x".repeat(5_000)).is_none());
    let small = code("a").expect("a letter fits");
    assert_eq!(small.width, 21);
    assert_eq!(small.dark.len(), 21 * 21);
    // The corner of a finder pattern is dark.
    assert!(small.dark[0]);
}

// ── The player and the watch window ────────────────────────────────

#[test]
fn a_window_keeps_its_frames_on_the_gpu() {
    let mut policy = PlaybackPolicy {
        gpu_frames: false,
        decoder: Kind::Auto,
        jitter: Duration { nanos: 0 },
        max_latency: Duration { nanos: 0 },
    };
    let args = PlaybackArgs { decoder: DecoderArg::Vaapi, latency: LatencyArg::Smooth };
    prepare_playback(&mut policy, &args);
    assert!(policy.gpu_frames);
    assert_eq!(policy.decoder, Kind::Named("vaapi".to_string()));
    assert_eq!(policy.jitter, Duration::from_millis(400));
    assert_eq!(policy.max_latency, Duration::from_millis(600));

    let mut view = RemoteView::new(true, &policy);
    assert_eq!(view.decoder, DecoderArg::Vaapi);
    assert!(view.set_decoder(DecoderArg::Software, &mut policy));
    assert_eq!(policy.decoder, Kind::Software);
    assert_eq!(policy.jitter, Duration::from_millis(400));
    assert!(matches!(
        view.set_rendition(RenditionChoice::Pinned("low".to_string())),
        Some(TrackCommand::Pin(name)) if name == "low"
    ));
    let catalog = vec!["high".to_string(), "low".to_string()];
    let controls = view.controls(&catalog, "high", "openh264").expect("there is video");
    assert_eq!(controls.rendition, "low");
    let offered: Vec<(&str, bool)> =
        controls.renditions.iter().map(|e| (e.label.as_str(), e.selected)).collect();
    assert_eq!(offered, [("Auto", false), ("high", false), ("low", true)]);
    assert_eq!(controls.decoder, "software (openh264)");
    assert_eq!(controls.decoders.iter().filter(|entry| entry.selected).count(), 1);
    assert!(matches!(view.set_rendition(RenditionChoice::Auto), Some(TrackCommand::Adapt)));
    let controls = view.controls(&catalog, "high", "software").expect("there is video");
    assert_eq!((controls.rendition.as_str(), controls.decoder.as_str()), ("Auto (high)", "software"));
    view.shutdown();
    assert!(view.controls(&catalog, "high", "software").is_none());
    assert!(view.apply_rendition().is_none());
}

#[test]
fn the_overlay_fades_once_the_pointer_is_still() {
    let mut cursor = CursorIdle::new(now());
    assert!(cursor.update(false, false, after(2_000_000_000)));
    assert!(!cursor.update(false, false, after(2_000_000_001)));
    assert!(!cursor.update(false, false, now()));
    assert!(cursor.update(false, true, after(3_000_000_000)));
    assert!(cursor.update(true, false, after(9_000_000_000)));
    assert!(cursor.update(false, false, after(10_000_000_000)));
}

fn refused(strikes: u32) -> Refused {
    Refused { ticket: LiveTicket::new(generated(), "hello".to_string()), strikes }
}

#[test]
fn the_first_failure_waits_the_base_interval() {
    assert_eq!(refused(0).wait().nanos, REDIAL_WAIT);
}

#[test]
fn each_repeat_doubles_the_wait_up_to_the_ceiling() {
    assert_eq!(refused(1).wait().nanos, REDIAL_WAIT * 2);
    assert_eq!(refused(2).wait().nanos, REDIAL_WAIT * 4);
    assert_eq!(refused(4).wait().nanos, REDIAL_WAIT_MAX);
}

#[test]
fn a_ticket_that_never_connects_stays_at_the_ceiling() {
    assert_eq!(refused(u32::MAX).wait().nanos, REDIAL_WAIT_MAX);
}

#[test]
fn a_short_broadcast_name_is_on_the_button_whole() {
    assert_eq!(back_label("camera"), "Back to camera");
}

#[test]
fn a_long_broadcast_name_is_cut_short() {
    let label = back_label("a-broadcast-with-a-name-nobody-should-have-chosen");
    assert_eq!(label, "Back to a-broadcast-with-a-name-...");
}

#[test]
fn a_name_of_multi_byte_characters_is_cut_on_a_character() {
    let label = back_label(&"e\u{301}".repeat(40));
    assert!(label.starts_with("Back to "), "unexpected: {label}");
    assert!(label.ends_with("..."), "unexpected: {label}");
}

#[test]
fn a_name_that_just_fits_is_not_cut() {
    assert_eq!(back_label(&"x".repeat(24)), format!("Back to {}", "x".repeat(24)));
    assert_eq!(back_label(&"x".repeat(25)), format!("Back to {}...", "x".repeat(24)));
}

/// Watch flags, naming a broadcast by its halves where `named` is set.
fn watch_args(scan: bool, named: bool) -> WatchArgs {
    WatchArgs {
        remote: RemoteArgs {
            ticket: None,
            endpoint_id: if named { Some(id(1)) } else { None },
            broadcast_name: if named { Some("hello".to_string()) } else { None },
        },
        playback: PlaybackArgs::default(),
        no_video: false,
        scan,
        scan_camera: None,
        rendition: None,
        fullscreen: false,
        audio_output: None,
    }
}

#[test]
fn a_ticket_on_its_own_is_dialed_before_the_window_opens() {
    let start = start(Features::default(), &watch_args(false, true));
    assert!(matches!(start, Ok(Start::Ticket(_))));
}

#[test]
fn a_ticket_alongside_scan_is_dialed_from_inside_the_window() {
    let start = start(Features::default(), &watch_args(true, true));
    assert!(matches!(start, Ok(Start::TicketInWindow(_))));
}

#[test]
fn scan_without_a_ticket_opens_the_camera() {
    assert!(matches!(start(Features::default(), &watch_args(true, false)), Ok(Start::Scan)));
}

#[test]
fn a_run_that_names_no_broadcast_is_rejected() {
    let err = start(Features::default(), &watch_args(false, false))
        .expect_err("nothing names a broadcast");
    assert!(err.contains("--endpoint-id"), "unexpected: {err}");
    assert!(err.ends_with(", or pass --scan to read one off a QR code"));
    let plain = start(
        Features { render: false, ..Features::default() },
        &watch_args(false, false),
    );
    assert_eq!(
        plain.unwrap_err(),
        "provide either <TICKET> or --endpoint-id and --name"
    );
}

#[test]
fn a_run_is_prepared_before_anything_is_dialed() {
    let mut args = watch_args(false, true);
    args.rendition = Some("low".to_string());
    args.scan_camera = Some("cam:1".to_string());
    let (_, options) = prepare(Features::default(), &args).expect("the flags are fine");
    assert_eq!(options.scan_camera, Some(VideoSourceSpec::Camera(Some("1".to_string()))));
    assert_eq!(options.tracks, TrackSelection::Both);
    assert!(matches!(options.opening_rendition(), RenditionChoice::Pinned(name) if name == "low"));
    args.scan_camera = Some("screen".to_string());
    assert!(prepare(Features::default(), &args).unwrap_err().starts_with("--scan-camera"));
    let blind = Features { render: false, ..Features::default() };
    assert!(prepare(blind, &args).unwrap_err().contains("'render' feature"));
    args.no_video = true;
    let (_, options) = prepare(blind, &args).expect("audio needs no window");
    assert_eq!(options.tracks, TrackSelection::AudioOnly);
    assert_eq!(options.scan_camera, None);
    assert_eq!(Options::of(&args).tracks, TrackSelection::AudioOnly);
    assert_eq!(audio_only(Features::default(), true), Ok(()));
    assert!(audio_only(Features::default(), false).unwrap_err().contains("no audio"));
    let mute = Features { playback: false, ..Features::default() };
    assert!(audio_only(mute, true).unwrap_err().contains("no playback"));
    assert!(audio_output_refused("hw:1", "busy").starts_with("cannot open audio output 'hw:1': busy"));
    assert_eq!(no_answer("ab"), "no answer from ab within 20s: is the publisher running?");
}

#[test]
fn the_way_back_survives_the_trip_to_the_camera() {
    let first = ticket(1, "first");
    let mut app = WatchApp::open(Opening::Watching {
        title: "first".to_string(),
        ticket: first.clone(),
    });
    assert_eq!(app.top_bar(), "first");
    let (closing, opens) = app.on_event(WatchEvent::Rescan, now());
    assert_eq!(closing, Closing::Subscription);
    assert!(matches!(opens, Opens::Camera(None)));
    assert_eq!(app.back_button(), Some("Back to first".to_string()));
    assert_eq!(app.top_bar(), "irl watch");

    let second = ticket(2, "second");
    let (closing, opens) = app.on_event(WatchEvent::Scanned(second.clone()), now());
    assert_eq!(closing, Closing::Nothing);
    assert!(matches!(opens, Opens::Dial(dialed) if dialed == second));
    assert_eq!(app.heading(), Some("connecting to second ...".to_string()));

    let (closing, opens) = app.on_event(WatchEvent::Failed("no route".to_string()), now());
    assert_eq!(closing, Closing::Dial);
    match opens {
        Opens::Camera(Some(skip)) => {
            assert_eq!(skip.ticket, second);
            assert_eq!(skip.until, after(REDIAL_WAIT));
        }
        other => panic!("the camera is not open: {other:?}"),
    }
    assert_eq!(app.message, Some("no route".to_string()));

    // The same ticket again waits twice as long.
    app.on_event(WatchEvent::Scanned(second.clone()), now());
    match app.on_event(WatchEvent::Failed("again".to_string()), now()).1 {
        Opens::Camera(Some(skip)) => assert_eq!(skip.until, after(2 * REDIAL_WAIT)),
        other => panic!("the camera is not open: {other:?}"),
    }

    let (_, opens) = app.on_event(WatchEvent::Back, now());
    assert!(matches!(opens, Opens::Dial(dialed) if dialed == first));
    assert_eq!(app.message, None);
    let (closing, _) = app.on_event(WatchEvent::Cancel, now());
    assert_eq!(closing, Closing::Dial);
    assert_eq!(app.heading(), Some("stopped connecting to first".to_string()));
    app.on_event(WatchEvent::Back, now());
    app.on_event(WatchEvent::Connected("first".to_string()), now());
    assert!(matches!(app.mode, Mode::Watching { .. }));
    assert!(app.refused.is_none());
    assert_eq!(app.close_mode(), Closing::Subscription);
    // Nothing to cancel while playing.
    assert!(matches!(app.on_event(WatchEvent::Cancel, now()), (Closing::Nothing, Opens::Nothing)));
}

// ── Calls ──────────────────────────────────────────────────────────

fn capture(video: &str) -> CaptureArgs {
    CaptureArgs { video: video.to_string(), ..Default::default() }
}

#[test]
fn a_camera_publisher_hands_the_scan_screen_its_device() {
    assert_eq!(Camera::of(&capture("cam")), Camera::Publisher);
    assert_eq!(Camera::of(&capture("cam:0")), Camera::Publisher);
}

#[test]
fn a_publisher_of_anything_else_keeps_its_source() {
    assert_eq!(Camera::of(&capture("screen")), Camera::Free);
    assert_eq!(Camera::of(&capture("test")), Camera::Free);
    assert_eq!(Camera::of(&capture("none")), Camera::Free);
}

#[test]
fn a_specifier_that_never_opened_anything_holds_nothing() {
    assert_eq!(Camera::of(&capture("nonsense:")), Camera::Free);
}

#[test]
fn the_pi_camera_is_held_by_its_publisher_too() {
    assert_eq!(Camera::of_with(with_rpicam(), &capture("rpicam")), Camera::Publisher);
    assert_eq!(Camera::of(&capture("rpicam")), Camera::Free);
}

#[test]
fn a_scanned_call_gives_the_camera_back() {
    let mut app = CallApp::new(Camera::Publisher);
    let action = app.on_event(CallEvent::Scan);
    assert!(action.ends.capture);
    assert!(matches!(action.starts, Starts::Camera));
    let peer = ticket(3, "calls/x");
    let action = app.on_event(CallEvent::Scanned(peer.clone()));
    assert!(matches!(action.starts, Starts::Dial(dialed) if dialed == peer));
    assert_eq!(app.heading(), Some(format!("calling {} ...", id(3).fmt_short())));
    assert!(app.restore);
    assert!(app.on_event(CallEvent::Tick).recapture);
    assert!(!app.on_event(CallEvent::Tick).recapture);

    let action = app.on_event(CallEvent::Cancel);
    assert!(action.ends.attempt);
    match &app.screen {
        Screen::Waiting { message: Some(message), .. } => {
            assert_eq!(*message, format!("stopped calling {}", id(3).fmt_short()));
        }
        other => panic!("not waiting: {other:?}"),
    }
}

#[test]
fn a_caller_answered_during_a_scan_gives_the_camera_back() {
    let mut app = CallApp::new(Camera::Publisher);
    assert!(app.on_event(CallEvent::Scan).ends.capture);
    let rang = CallEvent::Rang { peer: "ab".to_string(), open: true };
    assert!(matches!(app.on_event(rang).starts, Starts::Answer));
    assert!(matches!(app.screen, Screen::Scanning));
    assert!(matches!(app.on_event(CallEvent::Connected).starts, Starts::Remote));
    assert!(matches!(app.screen, Screen::InCall));
    assert!(app.restore);
    assert!(app.on_event(CallEvent::Tick).recapture);
    assert!(!app.on_event(CallEvent::Tick).recapture);

    let mut app = CallApp::new(Camera::Free);
    app.on_event(CallEvent::Scan);
    app.on_event(CallEvent::Rang { peer: "ab".to_string(), open: true });
    app.on_event(CallEvent::Connected);
    assert!(!app.on_event(CallEvent::Tick).recapture);
}

#[test]
fn a_window_with_a_free_camera_keeps_publishing() {
    let mut app = CallApp::new(Camera::Free);
    assert!(!app.on_event(CallEvent::Scan).ends.capture);
    app.on_event(CallEvent::Cancel);
    assert!(!app.restore);
}

#[test]
fn callers_are_answered_one_at_a_time() {
    let rang = |open: bool| CallEvent::Rang { peer: "ab".to_string(), open };
    let mut app = CallApp::new(Camera::Free);
    assert!(app.wants_caller());
    assert!(matches!(app.on_event(rang(false)).starts, Starts::Nothing));
    assert!(matches!(app.on_event(rang(true)).starts, Starts::Answer));
    assert!(matches!(app.pending, Some(Direction::Incoming { .. })));
    assert!(!app.wants_caller());
    assert!(matches!(app.on_event(rang(true)).starts, Starts::Nothing));
    // A subscriber that never meant to call leaves no trace.
    app.on_event(CallEvent::Failed("no side published".to_string()));
    assert!(matches!(&app.screen, Screen::Waiting { message: None, .. }));
    app.on_event(rang(true));
    assert!(matches!(app.on_event(CallEvent::Connected).starts, Starts::Remote));
    assert!(!app.wants_caller());
    assert!(app.close().session);
    let action = app.on_event(CallEvent::HangUp);
    assert!(action.ends.session && action.ends.decoders);
    assert!(matches!(&app.screen, Screen::Waiting { message: Some(m), .. } if m == "you hung up"));
}

#[test]
fn a_call_that_ends_or_fails_says_so() {
    let message = |app: &CallApp| match &app.screen {
        Screen::Waiting { message, .. } => message.clone(),
        other => panic!("not waiting: {other:?}"),
    };
    let mut app = CallApp::new(Camera::Free);
    app.on_event(CallEvent::Call("nonsense".to_string()));
    assert!(message(&app).expect("it is reported").starts_with("that is not a ticket: "));
    app.on_event(CallEvent::Call(ticket(4, "calls/y").serialize()));
    app.on_event(CallEvent::Failed(gave_up()));
    assert_eq!(
        message(&app),
        Some("gave up after 20s: the peer never published its side".to_string())
    );
    app.dial(ticket(4, "calls/y"));
    app.on_event(CallEvent::Connected);
    let action = app.on_event(CallEvent::Closed);
    assert!(action.ends.decoders && !action.ends.session);
    assert_eq!(message(&app), Some("the call ended".to_string()));
    assert_eq!(paste_row("  abc ", true, false), Some("abc".to_string()));
    assert_eq!(paste_row("  abc ", false, false), None);
    assert_eq!(paste_row("   ", true, true), None);
}

// ── Rooms ──────────────────────────────────────────────────────────

fn tile(byte: u8, number: u64) -> PeerTile {
    PeerTile { remote: id(byte), name: "cam".to_string(), id: number }
}

#[test]
fn a_peer_that_leaves_takes_its_tiles_along() {
    let mut app = RoomApp::new("me".to_string());
    app.on_event(RoomEvent::PeerJoined { remote: id(1), display_name: Some("ann".to_string()) });
    app.on_event(RoomEvent::PeerJoined { remote: id(2), display_name: None });
    for (byte, number) in [(1, 10), (2, 20), (1, 11), (3, 30)] {
        app.opened(tile(byte, number));
    }
    assert_eq!(app.participants(), "5 participants");
    assert_eq!(app.tile_label(0), Some("ann".to_string()));
    assert_eq!(app.tile_label(1), Some(short(id(2))));
    assert_eq!(app.tile_label(9), None);
    assert_eq!(app.own_label(), "me (you)");
    assert_eq!(app.on_event(RoomEvent::PeerLeft { remote: id(1) }), [10, 11]);
    let left: Vec<u64> = app.peers.iter().map(|peer| peer.id).collect();
    assert_eq!(left, [20, 30]);
    assert_eq!(app.drop_closed(&vec![30, 99]), [30]);
    assert_eq!(app.peers.len(), 1);
    let said: Vec<&str> = app.chat.lines.iter().map(|line| line.text.as_str()).collect();
    assert_eq!(
        said,
        ["ann joined", &format!("{} joined", short(id(2))), "ann left"]
    );
    assert_eq!(app.names.label(id(1)), short(id(1)));
}

#[test]
fn chat_is_kept_for_a_while() {
    let mut chat = ChatState::new();
    for n in 0..MAX_CHAT_LINES + 3 {
        chat.push("a".to_string(), n.to_string());
    }
    assert_eq!(chat.lines.len(), MAX_CHAT_LINES);
    assert_eq!(chat.lines[0].text, "3");
    assert_eq!(chat.lines[MAX_CHAT_LINES - 1].text, (MAX_CHAT_LINES + 2).to_string());
    assert_eq!(chat.lines[0].sender_label(), Some("a:".to_string()));
    chat.input = "half a li".to_string();
    chat.push_system("b joined".to_string());
    assert_eq!(chat.lines[MAX_CHAT_LINES - 1].sender_label(), None);
    assert_eq!(chat.lines[0].text, "4");
    assert_eq!(chat.input, "half a li");
    assert!((0..MAX_CHAT_LINES - 1).all(|at| chat.lines[at].text == (at + 4).to_string()));
}

#[test]
fn what_is_typed_is_sent_and_shown() {
    let mut app = RoomApp::new("me".to_string());
    app.chat.input = "  hello ".to_string();
    assert_eq!(app.send_chat(), Some("hello".to_string()));
    assert_eq!(app.chat.input, "");
    assert_eq!(app.chat.lines[0].sender, Some("me".to_string()));
    assert_eq!(app.send_chat(), None);
    app.on_event(RoomEvent::ChatReceived { remote: id(1), text: "hi".to_string() });
    assert_eq!(app.chat.lines[1].sender, Some(short(id(1))));
    assert!(app
        .on_event(RoomEvent::BroadcastSubscribed { remote: id(1), name: "cam".to_string() })
        .is_empty());
    assert!(app.on_event(RoomEvent::Other).is_empty());
    assert_eq!(app.chat.lines.len(), 2);
}

#[test]
fn grids_are_about_square() {
    for (count, expected) in
        [(0, (1, 1)), (1, (1, 1)), (2, (2, 1)), (3, (2, 2)), (5, (3, 2)), (9, (3, 3)), (10, (4, 3))]
    {
        assert_eq!(layout(count), expected, "{count}");
    }
    assert_eq!(cell_at(3, 2, 0, 0), Cell::Own);
    assert_eq!(cell_at(3, 2, 1, 0), Cell::Peer(1));
    assert_eq!(cell_at(3, 2, 1, 1), Cell::Empty);
}

#[test]
fn a_participant_goes_by_its_name_or_its_id() {
    let room = |name: Option<&str>| RoomArgs {
        ticket: None,
        capture: CaptureArgs::default(),
        playback: PlaybackArgs::default(),
        display_name: name.map(str::to_string),
        no_qr: false,
        fullscreen: false,
    };
    assert_eq!(display_name(&room(Some("ann")), id(1)), "ann");
    assert_eq!(display_name(&room(None), id(1)), id(1).fmt_short());
    assert_eq!(broadcast_name(), "cam");
    assert_eq!(check_gossip(true), Ok(()));
    assert!(check_gossip(false).is_err());
}
