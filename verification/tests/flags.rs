//! Flags, source specifiers, codec backends, devices and the encode ladder.

use iroh_live::args::{
    AudioCodecArg, CaptureArgs, ImportFormat, LatencyArg, PlaybackArgs, RemoteArgs, VideoCodecArg,
};
use iroh_live::backend::{DecoderArg, EncoderArg, Kind};
use iroh_live::devices::{
    app_line, camera_line, cameras, describe, display_line, input_line, list, output_line, section,
    window_line, AppInfo, AudioInfo, CameraInfo, DisplayInfo, Enumerated, Mode, WindowInfo,
};
use iroh_live::endpoint::EndpointId;
use iroh_live::features::Features;
use iroh_live::rendition::{
    even, ladder, parse_size, rung, scaled_bitrate, takes_framerate, CaptureFramerate,
    FramerateOrigin, LadderReport, Rung, Size, UnmetRate, DEFAULT_FRAMERATE, MAX_FRAMERATE,
};
use iroh_live::source::{
    audio_options, audio_source, check_rpicam_flags, configure_video, rpicam_bitrate, AudioPlan,
    VideoPlan,
};
use iroh_live::source_spec::{
    split_loop, split_once, AudioSourceSpec, RpicamMode, TestPattern, TestTone, VideoSourceSpec,
};
use iroh_live::ticket::LiveTicket;
use iroh_live::time::Duration;

/// A build with the Raspberry Pi camera.
fn with_rpicam() -> Features {
    Features { rpicam: true, ..Features::default() }
}

fn id(byte: u8) -> EndpointId {
    let key = iroh::SecretKey::from_bytes(&[byte; 32]);
    EndpointId::from_bytes(key.public().as_bytes()).expect("a public key is an id")
}

/// Flags with a ladder and a frame rate.
fn args(renditions: &[&str], fps: Option<u32>) -> CaptureArgs {
    CaptureArgs {
        renditions: renditions.iter().map(|spec| (*spec).to_string()).collect(),
        fps,
        ..CaptureArgs::default()
    }
}

/// A source whose backend takes a requested frame rate on every platform.
const TEST_SOURCE: VideoSourceSpec = VideoSourceSpec::Test(TestPattern::Timing);

#[test]
fn every_mode_tolerates_more_buffering_than_it_holds() {
    for mode in LatencyArg::value_variants() {
        assert!(
            mode.max_latency() > mode.jitter(),
            "{mode:?} skips at {:?} while holding {:?}",
            mode.max_latency(),
            mode.jitter(),
        );
    }
}

#[test]
fn the_modes_are_ordered_from_least_delay_to_most() {
    assert!(LatencyArg::Realtime.jitter() < LatencyArg::Balanced.jitter());
    assert!(LatencyArg::Balanced.jitter() < LatencyArg::Smooth.jitter());
    assert!(LatencyArg::Realtime.max_latency() < LatencyArg::Balanced.max_latency());
    assert!(LatencyArg::Balanced.max_latency() < LatencyArg::Smooth.max_latency());
}

#[test]
fn the_default_mode_is_what_the_player_used_before_the_flag_existed() {
    let default = LatencyArg::default();
    assert_eq!(default, LatencyArg::Balanced);
    assert_eq!(default.jitter(), Duration::from_millis(100));
    assert_eq!(default.max_latency(), Duration::from_millis(150));
}

#[test]
fn the_flags_start_from_the_documented_defaults() {
    let capture = CaptureArgs::default();
    assert_eq!(capture.video, "cam");
    assert_eq!(capture.audio, "mic");
    assert_eq!(capture.codec, VideoCodecArg::H264);
    assert_eq!(capture.keyframe_interval, Some(Duration::from_secs(2)));
    assert_eq!(ImportFormat::default(), ImportFormat::Fmp4);
    let playback = PlaybackArgs::default();
    assert_eq!(playback.decoder, DecoderArg::Auto);
    assert_eq!(playback.latency, LatencyArg::Balanced);
}

#[test]
fn a_remote_is_a_ticket_or_both_of_its_halves() {
    let ticket = LiveTicket::new(id(1), "hello".to_string());
    let whole = RemoteArgs { ticket: Some(ticket.clone()), endpoint_id: None, broadcast_name: None };
    assert_eq!(whole.ticket(), Ok(ticket.clone()));
    let halves = RemoteArgs {
        ticket: None,
        endpoint_id: Some(id(1)),
        broadcast_name: Some("hello".to_string()),
    };
    assert_eq!(halves.ticket(), Ok(ticket.clone()));
    for bad in [
        RemoteArgs { ticket: None, endpoint_id: None, broadcast_name: None },
        RemoteArgs { ticket: None, endpoint_id: Some(id(1)), broadcast_name: None },
        RemoteArgs { ticket: None, endpoint_id: None, broadcast_name: Some("a".to_string()) },
        RemoteArgs {
            ticket: Some(ticket.clone()),
            endpoint_id: Some(id(1)),
            broadcast_name: Some("hello".to_string()),
        },
    ] {
        assert_eq!(
            bad.ticket(),
            Err("provide either <TICKET> or --endpoint-id and --name".to_string())
        );
    }
}

#[test]
fn backend_names_match_upstream() {
    let expected = [
        (EncoderArg::Auto, "auto"),
        (EncoderArg::Hardware, "hardware"),
        (EncoderArg::Software, "software"),
        (EncoderArg::Videotoolbox, "videotoolbox"),
        (EncoderArg::Mediafoundation, "mediafoundation"),
        (EncoderArg::Mediacodec, "mediacodec"),
        (EncoderArg::Nvenc, "nvenc"),
        (EncoderArg::Vaapi, "vaapi"),
        (EncoderArg::V4l2, "v4l2"),
        (EncoderArg::Openh264, "openh264"),
    ];
    for (arg, name) in expected {
        assert_eq!(arg.name(), name);
        assert_eq!(EncoderArg::from_str(name, true), Ok(arg));
    }

    let expected = [
        (DecoderArg::Auto, "auto"),
        (DecoderArg::Hardware, "hardware"),
        (DecoderArg::Software, "software"),
        (DecoderArg::Videotoolbox, "videotoolbox"),
        (DecoderArg::Mediafoundation, "mediafoundation"),
        (DecoderArg::Mediacodec, "mediacodec"),
        (DecoderArg::Nvdec, "nvdec"),
        (DecoderArg::Vaapi, "vaapi"),
        (DecoderArg::V4l2, "v4l2"),
        (DecoderArg::Openh264, "openh264"),
    ];
    for (arg, name) in expected {
        assert_eq!(arg.name(), name);
        assert_eq!(DecoderArg::from_str(name, true), Ok(arg));
    }
}

#[test]
fn a_name_no_backend_answers_to_is_rejected() {
    assert!(EncoderArg::from_str("nvdec", true).is_err());
    assert!(EncoderArg::from_str("x264", true).is_err());
    assert!(DecoderArg::from_str("nvenc", true).is_err());
    assert!(DecoderArg::from_str("", true).is_err());
}

#[test]
fn the_short_spellings_are_accepted() {
    assert_eq!(EncoderArg::from_str("hw", true), Ok(EncoderArg::Hardware));
    assert_eq!(EncoderArg::from_str("sw", true), Ok(EncoderArg::Software));
    assert_eq!(DecoderArg::from_str("HW", true), Ok(DecoderArg::Hardware));
    assert_eq!(DecoderArg::from_str("Sw", true), Ok(DecoderArg::Software));
}

#[test]
fn case_counts_unless_it_is_ignored() {
    assert!(EncoderArg::from_str("VAAPI", false).is_err());
    assert_eq!(EncoderArg::from_str("VAAPI", true), Ok(EncoderArg::Vaapi));
    assert_eq!(EncoderArg::from_str("vaapi", false), Ok(EncoderArg::Vaapi));
}

#[test]
fn a_strategy_maps_to_a_strategy_and_a_backend_to_its_name() {
    assert_eq!(EncoderArg::Auto.kind(), Kind::Auto);
    assert_eq!(EncoderArg::Hardware.kind(), Kind::Hardware);
    assert_eq!(EncoderArg::Vaapi.kind(), Kind::Named("vaapi".to_string()));
    assert_eq!(DecoderArg::Auto.kind(), Kind::Auto);
    assert_eq!(DecoderArg::Software.kind(), Kind::Software);
    assert_eq!(DecoderArg::Nvdec.kind(), Kind::Named("nvdec".to_string()));
}

#[test]
fn a_decoder_selection_survives_the_round_trip_through_a_policy() {
    for arg in DecoderArg::value_variants() {
        let kind = arg.kind();
        assert_eq!(DecoderArg::from_kind(&kind), arg);
    }
}

#[test]
fn a_backend_the_flag_cannot_spell_reads_back_as_auto() {
    let kind = Kind::Named("something-upstream-added".to_string());
    assert_eq!(DecoderArg::from_kind(&kind), DecoderArg::Auto);
}

#[test]
fn encoders_are_listed_in_order() {
    let names: Vec<&str> = EncoderArg::value_variants().into_iter().map(EncoderArg::name).collect();
    assert_eq!(
        names,
        [
            "auto",
            "hardware",
            "software",
            "videotoolbox",
            "mediafoundation",
            "mediacodec",
            "nvenc",
            "vaapi",
            "v4l2",
            "openh264"
        ]
    );
}

#[test]
fn video_kinds() {
    assert_eq!(VideoSourceSpec::parse("cam").unwrap(), VideoSourceSpec::Camera(None));
    assert_eq!(VideoSourceSpec::parse("screen").unwrap(), VideoSourceSpec::Display(None));
    assert_eq!(
        VideoSourceSpec::parse("test").unwrap(),
        VideoSourceSpec::Test(TestPattern::Timing)
    );
    assert_eq!(VideoSourceSpec::parse("none").unwrap(), VideoSourceSpec::Nothing);
}

#[test]
fn test_patterns_by_name() {
    assert_eq!(
        VideoSourceSpec::parse("test:timing").unwrap(),
        VideoSourceSpec::Test(TestPattern::Timing)
    );
    assert_eq!(
        VideoSourceSpec::parse("test:GRADIENT").unwrap(),
        VideoSourceSpec::Test(TestPattern::Gradient)
    );
    let err = VideoSourceSpec::parse("test:bars").unwrap_err();
    assert!(err.contains("timing"), "{err}");
}

#[test]
fn test_tones_by_name() {
    assert_eq!(
        AudioSourceSpec::parse("test:beeps").unwrap(),
        AudioSourceSpec::Test(TestTone::Beeps)
    );
    assert_eq!(
        AudioSourceSpec::parse("test:tone").unwrap(),
        AudioSourceSpec::Test(TestTone::Tone)
    );
    let err = AudioSourceSpec::parse("test:sine").unwrap_err();
    assert!(err.contains("beeps"), "{err}");
}

#[test]
fn video_device_ids_survive_colons() {
    assert_eq!(
        VideoSourceSpec::parse("cam:/dev/video2").unwrap(),
        VideoSourceSpec::Camera(Some("/dev/video2".into()))
    );
    assert_eq!(
        VideoSourceSpec::parse("file:C:/clips/demo.mp4").unwrap(),
        VideoSourceSpec::File { path: "C:/clips/demo.mp4".into(), looping: false }
    );
}

#[test]
fn video_rpicam() {
    let parse = |spec: &str| VideoSourceSpec::parse_with(with_rpicam(), spec);
    assert_eq!(parse("rpicam").unwrap(), VideoSourceSpec::Rpicam(RpicamMode::Encoded));
    assert_eq!(parse("picam").unwrap(), VideoSourceSpec::Rpicam(RpicamMode::Encoded));
    assert!(parse("rpicam:0").is_err());
}

#[test]
fn video_rpicam_raw() {
    let parse = |spec: &str| VideoSourceSpec::parse_with(with_rpicam(), spec);
    assert_eq!(parse("rpicam:raw").unwrap(), VideoSourceSpec::Rpicam(RpicamMode::Raw));
    assert_eq!(parse("picam:RAW").unwrap(), VideoSourceSpec::Rpicam(RpicamMode::Raw));
    let err = parse("rpicam:yuv").unwrap_err();
    assert!(err.contains(":raw"), "{err}");
}

#[test]
fn video_rpicam_needs_the_feature() {
    let err = VideoSourceSpec::parse("rpicam").unwrap_err();
    assert!(err.contains("'rpicam' feature"), "{err}");
}

#[test]
fn video_forms_that_need_an_id() {
    assert!(VideoSourceSpec::parse("window").is_err());
    assert!(VideoSourceSpec::parse("app").is_err());
    assert!(VideoSourceSpec::parse("file").is_err());
    assert!(VideoSourceSpec::parse("webcam").is_err());
}

#[test]
fn video_file_loop_suffix() {
    assert_eq!(
        VideoSourceSpec::parse("file:/tmp/clip.mp4:loop").unwrap(),
        VideoSourceSpec::File { path: "/tmp/clip.mp4".into(), looping: true }
    );
}

#[test]
fn audio_kinds() {
    assert_eq!(AudioSourceSpec::parse("mic").unwrap(), AudioSourceSpec::Microphone(None));
    assert_eq!(
        AudioSourceSpec::parse("test").unwrap(),
        AudioSourceSpec::Test(TestTone::Beeps)
    );
    assert_eq!(AudioSourceSpec::parse("none").unwrap(), AudioSourceSpec::Nothing);
    assert_eq!(AudioSourceSpec::parse("system").unwrap(), AudioSourceSpec::System);
}

#[test]
fn audio_unknown_is_a_device_name() {
    assert_eq!(
        AudioSourceSpec::parse("hw:0,1").unwrap(),
        AudioSourceSpec::Microphone(Some("hw:0,1".into()))
    );
}

#[test]
fn audio_file_loop_suffix() {
    assert_eq!(
        AudioSourceSpec::parse("file:/tmp/song.flac:loop").unwrap(),
        AudioSourceSpec::File { path: "/tmp/song.flac".into(), looping: true }
    );
    assert_eq!(
        AudioSourceSpec::parse("file:music.mp3").unwrap(),
        AudioSourceSpec::File { path: "music.mp3".into(), looping: false }
    );
}

#[test]
fn an_empty_identifier_is_no_identifier() {
    for spec in ["window:", "app:", "file:", "file::loop", "FILE::Loop"] {
        assert!(VideoSourceSpec::parse(spec).is_err(), "{spec}");
    }
    for spec in ["file", "file:", "file::loop"] {
        assert_eq!(
            AudioSourceSpec::parse(spec),
            Err("file: needs a path (e.g. file:music.mp3)".to_string()),
            "{spec}"
        );
    }
    assert_eq!(
        AudioSourceSpec::parse("file:loop").unwrap(),
        AudioSourceSpec::File { path: "loop".to_string(), looping: false }
    );
}

#[test]
fn kinds_are_read_whatever_their_case() {
    assert_eq!(VideoSourceSpec::parse("CAM:a").unwrap(), VideoSourceSpec::Camera(Some("a".into())));
    assert_eq!(
        VideoSourceSpec::parse("Window:7").unwrap(),
        VideoSourceSpec::Window("7".to_string())
    );
    assert_eq!(
        VideoSourceSpec::parse("app:com.example").unwrap(),
        VideoSourceSpec::App("com.example".to_string())
    );
    // A capital whose small form is more than one character.
    let err = VideoSourceSpec::parse("\u{130}").unwrap_err();
    assert!(err.contains("'i\u{307}'"), "{err}");
}

#[test]
fn specifiers_split_at_their_first_colon() {
    assert_eq!(split_once("cam:a:b"), ("cam", Some("a:b")));
    assert_eq!(split_once("cam"), ("cam", None));
    assert_eq!(split_loop("a:b:loop"), ("a:b", true));
    assert_eq!(split_loop("a:b"), ("a:b", false));
    assert_eq!(split_loop(":loop"), ("", true));
}

#[test]
fn camera_lines_are_the_numbered_ones() {
    assert_eq!(
        camera_line("0 : imx219 [3280x2464 10-bit RGGB] (/base/soc/i2c0mux)"),
        Some("rpicam  imx219 [3280x2464 10-bit RGGB] (/base/soc/i2c0mux)".to_string())
    );
    assert_eq!(camera_line("Available cameras"), None);
    assert_eq!(camera_line("    Modes: 'SRGGB10_CSI2P' : 640x480"), None);
}

#[test]
fn a_camera_is_listed_with_its_first_modes() {
    let mode = |width: u32| Mode { width, height: 480, framerates: vec![30, 15] };
    let camera = CameraInfo {
        id: "/dev/video0".to_string(),
        name: "Webcam".to_string(),
        modes: Some((0..8).map(|n| mode(640 + n)).collect()),
    };
    let lines = cameras(&Ok(vec![camera]));
    assert_eq!(lines[0], "cameras:");
    assert_eq!(lines[1], "  cam:/dev/video0  Webcam");
    assert_eq!(lines[2], "      640x480  30, 15 fps");
    assert_eq!(lines[8], "      ... and 2 more");
    assert_eq!(describe(&Mode { width: 1, height: 2, framerates: vec![] }), "1x2  (rates not listed)");
}

#[test]
fn a_failed_enumeration_is_a_note_in_its_section() {
    assert_eq!(
        section("displays", &Err("no driver".to_string())),
        ["displays:", "  (unavailable: no driver)", ""]
    );
    assert_eq!(section("displays", &Ok(vec![])), ["displays:", "  (none found)", ""]);
    assert_eq!(section("displays", &Ok(vec!["a".to_string()])), ["displays:", "  a", ""]);
}

#[test]
fn devices_are_written_the_way_a_flag_takes_them() {
    let display = DisplayInfo { id: "1".into(), name: "HDMI".into(), width: 1920, height: 1080 };
    assert_eq!(display_line(&display), "screen:1  HDMI (1920x1080)");
    let window = WindowInfo {
        id: "7".to_string(),
        app: "Editor".to_string(),
        title: "notes".to_string(),
        width: 800,
        height: 600,
    };
    assert_eq!(window_line(&window), "window:7  Editor - notes (800x600)");
    let app = AppInfo {
        id: "9".to_string(),
        name: "Editor".to_string(),
    };
    assert_eq!(app_line(&app), "app:9  Editor");
    let mic = AudioInfo { id: "hw:0".into(), name: "Mic".into(), default: true };
    assert_eq!(input_line(&mic), "mic:hw:0  Mic (default)");
    assert_eq!(output_line(&mic), "hw:0  Mic (default)");
    let other = AudioInfo { id: "b".into(), name: "B".into(), default: false };
    assert_eq!(output_line(&other), "b  B");
}

#[test]
fn sections_a_build_lacks_are_left_out() {
    let none = || Ok::<Vec<String>, String>(vec![]);
    let found = Enumerated {
        cameras: Ok(vec![]),
        rpicams: none(),
        displays: none(),
        windows: none(),
        apps: none(),
        inputs: none(),
        outputs: none(),
    };
    let stock = list(Features::default(), &found);
    assert!(stock.iter().any(|line| line == "displays:"));
    assert!(!stock.iter().any(|line| line == "windows:"));
    assert!(!stock.iter().any(|line| line == "raspberry pi cameras:"));
    let pi = list(with_rpicam(), &found);
    assert!(pi.iter().any(|line| line == "raspberry pi cameras:"));
    let quiet = list(Features { playback: false, macos: true, ..Features::default() }, &found);
    assert!(!quiet.iter().any(|line| line == "audio outputs:"));
    assert!(quiet.iter().any(|line| line == "applications:"));
}

#[test]
fn sizes_parse() {
    assert_eq!(parse_size("720p"), Some(Size::new(1280, 720)));
    assert_eq!(parse_size("1080p"), Some(Size::new(1920, 1080)));
    assert_eq!(parse_size("480p"), Some(Size::new(854, 480)));
    assert_eq!(parse_size("640x360"), Some(Size::new(640, 360)));
    // An odd dimension is rounded up rather than passed to an encoder that will
    // reject it.
    assert_eq!(parse_size("641x361"), Some(Size::new(642, 362)));
    assert_eq!(parse_size("source"), None);
}

#[test]
fn ladder_bitrates_scale_by_pixel_count() {
    let quarter =
        scaled_bitrate(4_000_000, Some(Size::new(640, 360)), Some(Size::new(1280, 720)));
    assert_eq!(quarter, 1_000_000);

    // The top rung keeps the figure it was given.
    let top = scaled_bitrate(4_000_000, Some(Size::new(1280, 720)), Some(Size::new(1280, 720)));
    assert_eq!(top, 4_000_000);

    let low = scaled_bitrate(10_000, Some(Size::new(1280, 720)), Some(Size::new(1280, 720)));
    assert_eq!(low, 10_000);
    // A smaller one gets the floor whatever the figure.
    let lower = scaled_bitrate(10_000, Some(Size::new(16, 16)), Some(Size::new(1280, 720)));
    assert_eq!(lower, 64_000);

    // A tiny rung still gets something an encoder can work with.
    let tiny = scaled_bitrate(4_000_000, Some(Size::new(16, 16)), Some(Size::new(1920, 1080)));
    assert_eq!(tiny, 64_000);

    // Nothing to scale against: the figure passes through.
    assert_eq!(scaled_bitrate(4_000_000, None, None), 4_000_000);
}

#[test]
fn rendition_rungs_parse() {
    assert_eq!(
        rung("720p").unwrap(),
        Rung { name: "720p".to_string(), size: Some(Size::new(1280, 720)), framerate: None }
    );
    assert_eq!(
        rung("low:640x360").unwrap(),
        Rung { name: "low".to_string(), size: Some(Size::new(640, 360)), framerate: None }
    );
    assert_eq!(
        rung("source").unwrap(),
        Rung { name: "source".to_string(), size: None, framerate: None }
    );
    assert!(rung("low:wide").is_err());
}

#[test]
fn a_rung_takes_a_frame_rate_after_its_size() {
    assert_eq!(
        rung("720p@60").unwrap(),
        Rung { name: "720p".to_string(), size: Some(Size::new(1280, 720)), framerate: Some(60) }
    );
    assert_eq!(
        rung("high:1280x720@60").unwrap(),
        Rung { name: "high".to_string(), size: Some(Size::new(1280, 720)), framerate: Some(60) }
    );
    // A rung with no geometry is a name, and takes a rate just the same.
    assert_eq!(
        rung("source@24").unwrap(),
        Rung { name: "source".to_string(), size: None, framerate: Some(24) }
    );
}

#[test]
fn a_rung_with_an_unusable_frame_rate_is_refused() {
    assert!(rung("720p@").is_err());
    assert!(rung("720p@sixty").is_err());
    assert!(rung("720p@0").is_err());
    assert!(rung(&format!("720p@{}", MAX_FRAMERATE + 1)).is_err());
    // The first `@` splits, so a second one lands in the rate and fails there.
    assert!(rung("a@b@60").is_err());
    // A rate needs something to attach to.
    assert!(rung("@60").is_err());
    assert!(rung("high:@60").is_err());
}

#[test]
fn a_ladder_without_a_rate_captures_at_the_default() {
    let ladder =
        ladder(Features::default(), &TEST_SOURCE, &args(&["720p", "low:640x360"], None)).unwrap();
    assert_eq!(
        ladder.framerate,
        CaptureFramerate::Requested { fps: DEFAULT_FRAMERATE, origin: FramerateOrigin::Default }
    );
    assert!(ladder.unmet.is_empty());
}

#[test]
fn the_highest_rung_rate_sets_the_capture_rate() {
    let ladder = ladder(
        Features::default(),
        &TEST_SOURCE,
        &args(&["high:1280x720@60", "low:640x360@30"], None),
    )
    .unwrap();
    assert_eq!(
        ladder.framerate,
        CaptureFramerate::Requested { fps: 60, origin: FramerateOrigin::Renditions }
    );
    // The slower rung is fed the same pictures as the fast one, and says so.
    assert_eq!(ladder.unmet, vec![UnmetRate { name: "low".to_string(), asked: 30 }]);
}

#[test]
fn the_fps_flag_outranks_the_ladder() {
    let ladder = ladder(Features::default(), &TEST_SOURCE, &args(&["720p@30"], Some(60))).unwrap();
    assert_eq!(
        ladder.framerate,
        CaptureFramerate::Requested { fps: 60, origin: FramerateOrigin::Flag }
    );
    assert_eq!(ladder.unmet, vec![UnmetRate { name: "720p".to_string(), asked: 30 }]);
}

#[test]
fn the_fps_flag_caps_a_rung_asking_for_more() {
    let ladder = ladder(Features::default(), &TEST_SOURCE, &args(&["720p@60"], Some(30))).unwrap();
    assert_eq!(
        ladder.framerate,
        CaptureFramerate::Requested { fps: 30, origin: FramerateOrigin::Capped }
    );
    assert_eq!(ladder.unmet, vec![UnmetRate { name: "720p".to_string(), asked: 60 }]);
}

#[test]
fn a_rung_that_matches_the_capture_rate_is_not_reported() {
    let ladder =
        ladder(Features::default(), &TEST_SOURCE, &args(&["720p@60", "low:640x360@60"], None))
            .unwrap();
    assert_eq!(ladder.framerate.request(), Some(60));
    assert!(ladder.unmet.is_empty());
}

#[test]
fn an_unusable_fps_flag_is_refused() {
    assert!(ladder(Features::default(), &TEST_SOURCE, &args(&[], Some(0))).is_err());
    assert!(
        ladder(Features::default(), &TEST_SOURCE, &args(&[], Some(MAX_FRAMERATE + 1))).is_err()
    );
}

#[test]
fn a_ladder_without_the_flag_is_one_unscaled_rendition() {
    let ladder = ladder(Features::default(), &TEST_SOURCE, &args(&[], None)).unwrap();
    assert_eq!(ladder.renditions.len(), 1);
    assert_eq!(ladder.renditions[0].name, "video");
    assert_eq!(ladder.renditions[0].size, None);
}

#[test]
fn a_rate_does_not_reach_the_rendition_the_encoder_is_built_from() {
    // Every rung of a ladder sees the same pictures, so `@<fps>` describes the
    // capture and leaves the rendition alone; the size still lands.
    let ladder =
        ladder(Features::default(), &TEST_SOURCE, &args(&["high:1280x720@60"], None)).unwrap();
    assert_eq!(ladder.renditions.len(), 1);
    assert_eq!(ladder.renditions[0].name, "high");
    assert_eq!(ladder.renditions[0].size, Some(Size::new(1280, 720)));
}

#[test]
fn a_ladder_reports_its_rate_and_who_wanted_another() {
    let ladder = ladder(
        Features::default(),
        &TEST_SOURCE,
        &args(&["high:1280x720@60", "low:640x360@30"], None),
    )
    .unwrap();
    assert_eq!(
        ladder.report(),
        vec![
            LadderReport::Requested { fps: 60, origin: "--renditions" },
            LadderReport::Unmet { rendition: "low".to_string(), asked: 30, fps: 60 },
        ]
    );
    assert_eq!(ladder.framerate.generated(), 60);
    assert_eq!(CaptureFramerate::Device.generated(), 30);
    assert_eq!(FramerateOrigin::Capped.label(), "--fps, capping the ladder");
}

#[test]
fn a_macos_camera_runs_at_its_own_rate() {
    let macos = Features { macos: true, ..Features::default() };
    let camera = VideoSourceSpec::Camera(None);
    assert!(!takes_framerate(macos, &camera));
    assert!(takes_framerate(Features::default(), &camera));
    let ladder = ladder(macos, &camera, &args(&["720p"], None)).unwrap();
    assert_eq!(ladder.framerate, CaptureFramerate::Device);
    assert_eq!(ladder.report(), vec![LadderReport::Device]);
}

#[test]
fn sizes_are_always_even() {
    assert_eq!(even(0), 0);
    assert_eq!(even(641), 642);
    assert_eq!(even(642), 642);
    assert_eq!(parse_size("1x1"), Some(Size::new(2, 2)));
}

#[test]
fn a_test_pattern_is_configured_from_the_flags() {
    let capture = CaptureArgs {
        video: "test:gradient".to_string(),
        width: Some(320),
        ..CaptureArgs::default()
    };
    let (plan, ladder) =
        configure_video(Features::default(), &capture).unwrap().expect("there is video");
    assert_eq!(ladder.renditions.len(), 1);
    match plan {
        VideoPlan::Test { pattern, size, framerate } => {
            assert_eq!(pattern, TestPattern::Gradient);
            assert_eq!(size.width, 320);
            assert_eq!(framerate, 30);
        }
        other => panic!("not a test pattern: {other:?}"),
    }
}

#[test]
fn a_file_is_not_a_capture_source() {
    let capture =
        CaptureArgs { video: "file:clip.mp4".to_string(), ..CaptureArgs::default() };
    let err = configure_video(Features::default(), &capture).unwrap_err();
    assert!(err.contains("--video file:clip.mp4"), "{err}");
    let none = CaptureArgs { video: "none".to_string(), ..CaptureArgs::default() };
    assert!(configure_video(Features::default(), &none).unwrap().is_none());
}

#[test]
fn the_pi_encoder_takes_no_encoding_flags() {
    assert!(check_rpicam_flags(&CaptureArgs::default()).is_ok());
    let codec = CaptureArgs { codec: VideoCodecArg::H265, ..CaptureArgs::default() };
    assert!(check_rpicam_flags(&codec).unwrap_err().contains("--codec"));
    let encoder = CaptureArgs { encoder: EncoderArg::Vaapi, ..CaptureArgs::default() };
    assert!(check_rpicam_flags(&encoder).unwrap_err().starts_with("--encoder vaapi "));
    let ladder = args(&["720p", "low:640x360"], None);
    assert!(check_rpicam_flags(&ladder).unwrap_err().contains("one rendition"));
    assert_eq!(rpicam_bitrate(Some(5)), Ok(Some(5)));
    assert_eq!(rpicam_bitrate(None), Ok(None));
    let err = rpicam_bitrate(Some(4_294_967_296)).unwrap_err();
    assert!(err.starts_with("--bitrate 4294967296 "), "{err}");
}

#[test]
fn the_pi_camera_gets_a_keyframe_a_second() {
    let capture = CaptureArgs {
        video: "rpicam".to_string(),
        fps: Some(25),
        bitrate: Some(1_000_000),
        ..CaptureArgs::default()
    };
    let (plan, _) = configure_video(with_rpicam(), &capture).unwrap().expect("there is video");
    match plan {
        VideoPlan::RpicamEncoded { framerate, keyframe_interval, bitrate, .. } => {
            assert_eq!((framerate, keyframe_interval, bitrate), (25, 25, Some(1_000_000)));
        }
        other => panic!("not the encoded Pi camera: {other:?}"),
    }
}

#[test]
fn pcm_takes_no_bitrate() {
    let opus = CaptureArgs { audio_bitrate: Some(96_000), ..CaptureArgs::default() };
    assert_eq!(audio_options(&opus).bitrate, Some(96_000));
    let pcm = CaptureArgs {
        audio_bitrate: Some(96_000),
        audio_codec: AudioCodecArg::Pcm,
        ..CaptureArgs::default()
    };
    assert_eq!(audio_options(&pcm).bitrate, None);
    assert!(matches!(
        audio_source(&AudioSourceSpec::Test(TestTone::Tone)),
        Some(AudioPlan::Tone { rate: 48_000, channels: 2, .. })
    ));
    assert!(audio_source(&AudioSourceSpec::Nothing).is_none());
}

#[test]
fn test_source_outranks_the_specifiers() {
    let capture = CaptureArgs {
        video: "nonsense".to_string(),
        test_source: true,
        ..CaptureArgs::default()
    };
    assert_eq!(
        capture.video_source(Features::default()),
        Ok(VideoSourceSpec::Test(TestPattern::Timing))
    );
    assert_eq!(capture.audio_source(), Ok(AudioSourceSpec::Test(TestTone::Beeps)));
    let bad = CaptureArgs { video: "nonsense".to_string(), ..CaptureArgs::default() };
    assert!(bad.video_source(Features::default()).unwrap_err().starts_with("--video: "));
}
