//! Link measurements, recordings, session files, and the texts they are made of.

use iroh_live::args::{
    AudioCodecArg, RecordArgs, RecordFormat, RemoteArgs, TransportArgs, VideoCodecArg,
};
use iroh_live::backend::EncoderArg;
use iroh_live::endpoint::EndpointId;
use iroh_live::record::{
    catalog_line, check_catalog, check_rendition, format_bytes, format_from_extension,
    format_from_path, options, started_line, written_line, Progress, RecordOptions,
};
use iroh_live::run::{
    report_recvs, report_sends, secret_key_file, settle, stored_secret_key, AudioOutput,
    RecvConfig, RunConfig, SendConfig,
};
use iroh_live::text;
use iroh_live::ticket::LiveTicket;
use iroh_live::time::{Duration, Instant};
use iroh_live::transport::{advertise, still_waiting, ticket, Reach};
use iroh_live::util::{
    media_rate, path_type, secret_key_from_env, secret_key_from_text, secret_key_text, LanPresence,
    LossCount, NetworkSignals, PathStats, Sampler, SecretKeyChoice, StatsRecorder, WindowedMin,
    GOODPUT_FLOOR_BPS, GOODPUT_WINDOW, SIGNAL_INTERVAL,
};

fn id(byte: u8) -> EndpointId {
    let key = iroh::SecretKey::from_bytes(&[byte; 32]).public();
    EndpointId::from_bytes(key.as_bytes()).expect("a public key is an id")
}

/// A point in time, well after the start of the clock.
fn start() -> Instant {
    Instant { nanos: 1_000_000_000_000 }
}

fn after(start: Instant, nanos: u128) -> Instant {
    Instant { nanos: start.nanos + nanos }
}

/// The time of a tick of the signal producer.
fn tick_at(t0: Instant, tick: u32) -> Instant {
    after(t0, u128::from(tick) * SIGNAL_INTERVAL)
}

/// The rate that a consumer reads off the signals.
fn loss_rate(signals: &NetworkSignals) -> f64 {
    match signals.loss {
        Some(LossCount { lost, total }) => lost as f64 / total as f64,
        None => 0.0,
    }
}

/// The goodput that a consumer reads off the signals.
fn goodput_bps(signals: &NetworkSignals) -> Option<u64> {
    let transfer = signals.goodput?;
    let secs = transfer.span.nanos as f64 / 1e9;
    media_rate((transfer.bytes as f64 * 8.0 / secs) as u64)
}

fn reading(rtt_ms: u64, lost: u64, sent: u64, received: u64) -> PathStats {
    PathStats {
        rtt: Duration::from_millis(rtt_ms),
        lost_packets: lost,
        sent_datagrams: sent,
        sent_bytes: 0,
        received_bytes: received,
        congestion_events: 0,
    }
}

/// Drives `ticks` readings through `sampler`, one per interval from `t0`, with
/// `sent` packets and `lost` packets added per tick, and returns the last
/// signals.
fn run_ticks(
    sampler: &mut Sampler,
    t0: Instant,
    ticks: u32,
    sent_per_tick: u64,
    lost_per_tick: u64,
) -> NetworkSignals {
    let mut last = None;
    for tick in 1..=ticks {
        let n = u64::from(tick);
        last = Some(sampler.sample(
            0,
            &reading(20, n * lost_per_tick, n * sent_per_tick, 0),
            None,
            tick_at(t0, tick),
        ));
    }
    last.expect("at least one tick")
}

#[test]
fn loss_is_measured_across_the_window() {
    let mut sampler = Sampler::default();
    let t0 = start();
    // A hundred already lost before the first reading: never counted.
    sampler.sample(0, &reading(20, 100, 1000, 0), None, t0);
    // Twenty sent and two lost per tick: 10% throughout.
    let steady = run_ticks(&mut sampler, t0, 12, 20, 2);
    assert!(
        (loss_rate(&steady) - 100.0 / 1100.0 * 1.1).abs() < 0.02,
        "two lost in twenty-two moved per tick is about 9%: {steady:?}"
    );
}

#[test]
fn a_lost_packet_among_a_handful_is_not_loss() {
    let mut sampler = Sampler::default();
    let t0 = start();
    // Three packets a tick for two seconds is thirty in the window, so the window
    // is full but a single loss among them is still under 5%.
    let one = run_ticks(&mut sampler, t0, 10, 3, 0);
    assert_eq!(loss_rate(&one), 0.0, "nothing lost: {one:?}");
    let lost_one = sampler.sample(0, &reading(20, 1, 33, 0), None, tick_at(t0, 11));
    let rate = loss_rate(&lost_one);
    assert!(
        rate > 0.0 && rate < 0.05,
        "one in thirty-four is a small loss, not a third: {lost_one:?}"
    );
}

#[test]
fn loss_needs_enough_packets_to_be_a_rate() {
    let mut sampler = Sampler::default();
    let t0 = start();
    // One packet a tick, one of them lost: a half or a third per tick, and ten
    // packets across the window, which is under the minimum.
    let sparse = run_ticks(&mut sampler, t0, 10, 1, 0);
    assert_eq!(loss_rate(&sparse), 0.0);
    let lost_one = sampler.sample(0, &reading(20, 1, 11, 0), None, tick_at(t0, 11));
    assert_eq!(
        loss_rate(&lost_one),
        0.0,
        "one lost among a dozen is unmeasured: {lost_one:?}"
    );
}

#[test]
fn loss_clears_once_the_window_moves_past_it() {
    let mut sampler = Sampler::default();
    let t0 = start();
    // Eleven ticks, so the readings span the window and not just fill it.
    let bad = run_ticks(&mut sampler, t0, 11, 10, 5);
    assert!(loss_rate(&bad) > 0.3, "{bad:?}");
    // Twenty more ticks with nothing lost: the window is all clean.
    let mut last = bad;
    for tick in 12..=31u32 {
        last = sampler.sample(
            0,
            &reading(20, 55, 110 + u64::from(tick - 11) * 10, 0),
            None,
            tick_at(t0, tick),
        );
    }
    assert_eq!(loss_rate(&last), 0.0, "{last:?}");
}

#[test]
fn dropping_readings_changes_no_rate() {
    // Every reading that was taken, to compare with what the sampler has kept.
    let mut taken: Vec<(Instant, PathStats)> = Vec::new();
    let mut sampler = Sampler::default();
    let mut at = start();
    for n in 0..400u64 {
        at = Instant { nanos: at.nanos + u128::from(n % 7) * 110_000_000 };
        let stats = reading(20, n * 3, n * 40, n * n * 1_000);
        let signals = sampler.sample(0, &stats, None, at);
        taken.push((at, stats));
        let before = |span: u128| taken.iter().rev().find(|(then, _)| at.nanos - then.nanos >= span);
        let (_, now) = taken.last().expect("one was taken");
        let loss = before(2_000_000_000).and_then(|(_, then)| {
            let lost = now.lost_packets - then.lost_packets;
            let total = u128::from(lost + now.sent_datagrams - then.sent_datagrams);
            (total >= 20).then_some((lost, total))
        });
        assert_eq!(signals.loss.map(|loss| (loss.lost, loss.total)), loss, "reading {n}");
        let goodput = before(1_000_000_000)
            .map(|(then, old)| (now.received_bytes - old.received_bytes, at.nanos - then.nanos));
        assert_eq!(
            signals.goodput.map(|transfer| (transfer.bytes, transfer.span.nanos)),
            goodput,
            "reading {n}"
        );
    }
}

#[test]
fn a_repeated_round_trip_is_one_sample() {
    let mut sampler = Sampler::default();
    let t0 = start();
    let mut samples = 0;
    for tick in 0..5u32 {
        let at = tick_at(t0, tick);
        samples = sampler.sample(0, &reading(20, 0, 0, 0), None, at).rtt_samples;
    }
    assert_eq!(samples, 1, "five ticks of one figure are one sample");
    let fresh = sampler.sample(0, &reading(25, 0, 0, 0), None, tick_at(t0, 5));
    assert_eq!(fresh.rtt_samples, 2);
}

#[test]
fn goodput_needs_a_full_window() {
    let mut sampler = Sampler::default();
    let t0 = start();
    // 100 kB every 200ms is 4 Mbit/s.
    let mut last = None;
    for tick in 0..=5u32 {
        let at = tick_at(t0, tick);
        let bytes = u64::from(tick) * 100_000;
        last = goodput_bps(&sampler.sample(0, &reading(20, 0, 0, bytes), None, at));
        if at.duration_since(t0).nanos < GOODPUT_WINDOW {
            assert_eq!(last, None, "no figure before the window spans, at tick {tick}");
        }
    }
    let bps = last.expect("a second of readings has a rate");
    assert!(
        (3_500_000..=4_500_000).contains(&bps),
        "expected about 4 Mbit/s, got {bps}"
    );
}

#[test]
fn the_round_trip_baseline_starts_over_on_a_new_path() {
    let mut sampler = Sampler::default();
    let t0 = start();
    let direct = sampler.sample(0, &reading(2, 0, 0, 0), None, t0);
    assert_eq!(direct.min_rtt, Duration::from_millis(2));

    // Same path, longer reading: the minimum holds, and this reads as a queue.
    let queued = sampler.sample(0, &reading(40, 0, 0, 0), None, tick_at(t0, 1));
    assert_eq!(queued.min_rtt, Duration::from_millis(2));

    // A different path at 40ms is a 40ms path, not a 2ms path with a queue.
    let relayed = sampler.sample(u32::MAX, &reading(40, 0, 0, 0), None, tick_at(t0, 2));
    assert_eq!(relayed.min_rtt, Duration::from_millis(40));
}

#[test]
fn a_windowed_minimum_forgets_the_path_it_came_from() {
    let span = Duration::from_secs(15);
    let start = start();
    let mut min = WindowedMin::new(span, Duration::from_millis(2), start);

    assert_eq!(min.record(Duration::from_millis(60), start), Duration::from_millis(2));

    // Still inside the first half, so the direct path's figure stands.
    let same_half = after(start, span.nanos / 2);
    assert_eq!(min.record(Duration::from_millis(60), same_half), Duration::from_millis(2));

    // One half retired, and the figure it held is now the older of the two the
    // minimum covers.
    let next_half = after(start, span.nanos);
    assert_eq!(min.record(Duration::from_millis(60), next_half), Duration::from_millis(2));

    // Both halves now come from the relay, so the direct path is gone.
    let gone = after(start, span.nanos * 2);
    assert_eq!(min.record(Duration::from_millis(60), gone), Duration::from_millis(60));
}

#[test]
fn a_windowed_minimum_covers_a_whole_span() {
    let span = Duration::from_secs(15);
    let start = start();
    let mut min = WindowedMin::new(span, Duration::from_millis(60), start);
    let low = after(start, span.nanos - 1);
    assert_eq!(min.record(Duration::from_millis(2), low), Duration::from_millis(2));
    let next_half = after(start, span.nanos);
    assert_eq!(min.record(Duration::from_millis(60), next_half), Duration::from_millis(2));
    // Exactly a span later it still counts, and in the half after that no more.
    let exact = after(low, span.nanos);
    assert_eq!(min.record(Duration::from_millis(60), exact), Duration::from_millis(2));
    let gone = after(start, span.nanos * 2);
    assert_eq!(min.record(Duration::from_millis(60), gone), Duration::from_millis(60));
}

#[test]
fn a_windowed_minimum_takes_a_dip_immediately() {
    let span = Duration::from_secs(15);
    let start = start();
    let mut min = WindowedMin::new(span, Duration::from_millis(60), start);

    assert_eq!(
        min.record(Duration::from_millis(3), after(start, span.nanos / 4)),
        Duration::from_millis(3),
    );
}

#[test]
fn signals_carry_what_was_read() {
    let mut sampler = Sampler::default();
    let mut stats = reading(20, 0, 0, 0);
    stats.congestion_events = 3;
    let signals = sampler.sample(0, &stats, Some(9), start());
    assert_eq!(signals.rtt, Duration::from_millis(20));
    assert_eq!(signals.delivery_bps, Some(9));
    assert_eq!(signals.congestion_events, 3);
    assert_eq!(signals.loss, None);
    assert_eq!(signals.goodput, None);
    assert_eq!(media_rate(GOODPUT_FLOOR_BPS), None);
    assert_eq!(media_rate(GOODPUT_FLOOR_BPS + 1), Some(GOODPUT_FLOOR_BPS + 1));
}

#[test]
fn stats_are_differences_over_an_interval() {
    let t0 = start();
    let mut recorder = StatsRecorder::new(t0);
    let mut stats = reading(20, 2, 8, 1000);
    stats.sent_bytes = 500;
    let delta = recorder.record(&stats, after(t0, 1_000_000_000));
    assert_eq!(delta.loss, Some(LossCount { lost: 2, total: 10 }));
    let bandwidth = delta.bandwidth.expect("time passed");
    assert_eq!((bandwidth.down, bandwidth.up), (1000, 500));
    let still = recorder.record(&stats, after(t0, 1_000_000_000));
    assert_eq!(still.loss, None);
    assert_eq!(still.bandwidth, None);
    assert_eq!(path_type(true), "relayed");
    assert_eq!(path_type(false), "direct");
}

#[test]
fn a_secret_key_is_read_back_as_it_was_written() {
    let key = [0xabu8; 32];
    let text = secret_key_text(&key);
    assert_eq!(text, "ab".repeat(32));
    assert_eq!(secret_key_from_text(&text), Ok(key));
    let base32 = data_encoding::BASE32_NOPAD.encode(&key).to_ascii_lowercase();
    assert_eq!(secret_key_from_text(&base32), Ok(key));
    assert_eq!(secret_key_from_env(Some(&text)), Ok(SecretKeyChoice::Given(key)));
    assert_eq!(secret_key_from_env(None), Ok(SecretKeyChoice::Generate));
    assert_eq!(
        secret_key_from_env(Some("nonsense")),
        Err("invalid length".to_string())
    );
    assert_eq!(
        secret_key_from_text(&"z".repeat(64)),
        Err("failed to decode hex string".to_string())
    );
    assert_eq!(
        secret_key_from_text(&"1".repeat(52)),
        Err("failed to decode base32 string".to_string())
    );
}

#[test]
fn a_node_that_serves_announces_itself() {
    assert!(LanPresence::serving(true).announces());
    assert!(!LanPresence::serving(false).announces());
}

/// A remote nothing in these tests dials.
fn remote_args() -> RemoteArgs {
    RemoteArgs { ticket: None, endpoint_id: None, broadcast_name: None }
}

fn record_args(output: &str, format: Option<RecordFormat>, latency: u64) -> RecordArgs {
    RecordArgs {
        remote: remote_args(),
        output: output.to_string(),
        format,
        rendition: None,
        duration: None,
        latency,
    }
}

#[test]
fn extensions_name_containers() {
    assert_eq!(format_from_path("out.mp4"), Some(RecordFormat::Fmp4));
    // The case a shell completion or a Windows path might hand us.
    assert_eq!(format_from_path("out.MKV"), Some(RecordFormat::Mkv));
    assert_eq!(format_from_path("out.avi"), None);
    assert_eq!(format_from_path("recording"), None);
}

#[test]
fn extensions_are_those_of_the_file_name() {
    assert_eq!(format_from_path("/tmp/a.mkv/out.mp4"), Some(RecordFormat::Fmp4));
    assert_eq!(format_from_path("dir.mp4/out"), None);
    assert_eq!(format_from_path(".mp4"), None);
    assert_eq!(format_from_path("a.tar.webm"), Some(RecordFormat::Mkv));
    assert_eq!(format_from_path("a."), None);
    for extension in ["mp4", "m4v", "m4s", "M4S"] {
        assert_eq!(format_from_extension(extension), Some(RecordFormat::Fmp4));
    }
    assert_eq!(format_from_extension("webm"), Some(RecordFormat::Mkv));
    assert_eq!(format_from_extension(""), None);
}

#[test]
fn options_prefer_the_flag_over_the_extension() {
    let args = record_args("out.avi", Some(RecordFormat::Mkv), 500);
    let options = options(&args).expect("--format names the container");
    assert_eq!(options.format, RecordFormat::Mkv);
    assert_eq!(options.latency, Duration::from_millis(500));
}

#[test]
fn an_unknown_extension_without_a_flag_is_rejected() {
    let args = record_args("out.avi", None, 2_000);
    let err = options(&args).expect_err("nothing names the container");
    assert!(err.contains("--format"), "unexpected: {err}");
}

#[test]
fn a_recording_keeps_everything_unless_told_otherwise() {
    let options = RecordOptions::new("out.mkv", None).expect("the extension names it");
    assert_eq!(options.format, RecordFormat::Mkv);
    assert_eq!(options.rendition, None);
    assert_eq!(options.latency, Duration::from_secs(2));
    assert_eq!(options.duration, None);
}

#[test]
fn a_missing_rendition_is_answered_with_what_there_is() {
    let offered = vec!["high".to_string(), "low".to_string()];
    assert_eq!(check_rendition(&offered, "low"), Ok(()));
    assert_eq!(
        check_rendition(&offered, "mid"),
        Err("the broadcast has no video rendition named 'mid'; it offers high, low".to_string())
    );
    assert_eq!(
        check_rendition(&vec![], "mid"),
        Err("the broadcast has no video rendition named 'mid'; it offers no video at all"
            .to_string())
    );
    assert_eq!(
        check_catalog(0, 0),
        Err(
            "the broadcast carries no video and no audio, so there is nothing to record"
                .to_string()
        )
    );
    assert_eq!(check_catalog(1, 0), Ok(()));
    assert_eq!(check_catalog(0, 1), Ok(()));
}

#[test]
fn a_recording_says_what_it_does() {
    assert_eq!(catalog_line(2, 1), "catalog: 2 video, 1 audio renditions");
    let mut options = RecordOptions::new("take.mp4", None).unwrap();
    assert_eq!(started_line(&options), "recording, press Ctrl+C to stop");
    options.duration = Some(Duration::from_millis(90_500));
    assert_eq!(started_line(&options), "recording for 90s ...");
    assert_eq!(written_line(2048, "take.mp4"), "wrote 2.0 KiB to take.mp4");
}

/// What a formatter of floats makes of a byte count.
fn formatted(bytes: u64) -> String {
    let scaled = bytes as f64;
    if bytes < 1024 {
        format!("{bytes} B")
    } else if bytes < 1_048_576 {
        format!("{:.1} KiB", scaled / 1024.0)
    } else {
        format!("{:.1} MiB", scaled / 1_048_576.0)
    }
}

#[test]
fn byte_counts_are_rounded_as_floats_are() {
    assert_eq!(format_bytes(0), "0 B");
    assert_eq!(format_bytes(1023), "1023 B");
    assert_eq!(format_bytes(1024), "1.0 KiB");
    assert_eq!(format_bytes(1_572_864), "1.5 MiB");
    for bytes in 0..200_000u64 {
        assert_eq!(format_bytes(bytes), formatted(bytes));
    }
    let mut bytes: u64 = 1;
    for step in 0..20_000u64 {
        bytes = bytes.wrapping_mul(6_364_136_223_846_793_005).wrapping_add(1_442_695_040_888_963_407);
        let sample = bytes >> (step % 64);
        assert_eq!(format_bytes(sample), formatted(sample), "{sample}");
    }
    for sample in [u64::MAX, u64::MAX - 1, 1 << 53, (1 << 53) + 1, (1 << 53) + 3, 1_048_575] {
        assert_eq!(format_bytes(sample), formatted(sample), "{sample}");
    }
}

#[test]
fn progress_is_reported_every_two_seconds() {
    let t0 = start();
    let mut progress = Progress::new(t0);
    assert!(!progress.wrote(10, after(t0, 1_999_999_999)));
    assert!(progress.wrote(5, after(t0, 2_000_000_000)));
    assert!(!progress.wrote(1, after(t0, 3_000_000_000)));
    assert_eq!(progress.written, 16);
}

#[test]
fn a_send_block_takes_the_flag_defaults() {
    let send = SendConfig::new("cam".to_string());
    assert_eq!(send.video, "cam");
    assert_eq!(send.audio, "mic");
    assert_eq!(send.encoder, EncoderArg::Auto);
    assert_eq!(send.codec, VideoCodecArg::H264);
    assert_eq!(send.audio_codec, AudioCodecArg::Opus);
    assert!(send.renditions.is_empty());
}

#[test]
fn a_send_block_becomes_capture_flags() {
    let send = SendConfig {
        video: "screen".to_string(),
        audio: "none".to_string(),
        codec: VideoCodecArg::H265,
        encoder: EncoderArg::Vaapi,
        renditions: vec!["low:320x180".to_string(), "720p".to_string()],
        bitrate: Some(3_000_000),
        fps: Some(30),
        no_cursor: true,
        audio_codec: AudioCodecArg::Pcm,
        ..SendConfig::new("screen".to_string())
    };
    let capture = send.capture();
    assert_eq!(capture.video, "screen");
    assert_eq!(capture.codec, VideoCodecArg::H265);
    assert_eq!(capture.encoder, EncoderArg::Vaapi);
    assert_eq!(capture.renditions, ["low:320x180", "720p"]);
    assert_eq!(capture.bitrate, Some(3_000_000));
    assert!(capture.no_cursor);
    assert_eq!(capture.audio_codec, AudioCodecArg::Pcm);
    // `--test-source` is a flag that a session file has no word for: it says
    // `video = "test"` instead.
    assert!(!capture.test_source);
}

#[test]
fn a_recv_block_defaults_to_playing_audio_and_not_recording() {
    let recv = RecvConfig::new("friend".to_string(), "iroh-live:abc/hello".to_string());
    assert_eq!(recv.audio_output, AudioOutput::Default);
    assert!(recv.record.is_none());
    assert!(recv.parsed_ticket().unwrap_err().starts_with("invalid ticket: "));
}

#[test]
fn a_config_with_no_blocks_is_rejected() {
    let empty = RunConfig { secret_key_name: None, send: vec![], recv: vec![] };
    let err = empty.check("empty.toml").expect_err("an empty session runs nothing");
    assert!(err.contains("nothing to run"), "unexpected: {err}");
    assert!(!empty.serves());
    let one = RunConfig {
        secret_key_name: None,
        send: vec![SendConfig::new("cam".to_string())],
        recv: vec![],
    };
    assert!(one.check("one.toml").is_ok());
    assert!(one.serves());
    assert_eq!(one.loaded_line("one.toml"), "loaded one.toml: 1 send, 0 recv");
}

#[test]
fn one_block_that_fails_leaves_the_others() {
    let sends = vec![SendConfig::new("a".to_string()), SendConfig::new("b".to_string())];
    let (lines, sent) = report_sends(id(1), &sends, &vec![Err("busy".to_string()), Ok(())]);
    assert_eq!(sent, 1);
    assert!(lines.iter().any(|line| line.failure && line.text.contains("busy")));
    assert!(lines.iter().any(|line| !line.failure && line.text.contains("iroh-live:")));
    let recvs = vec![RecvConfig::new("c".to_string(), "x".to_string())];
    let (lines, received) = report_recvs(&recvs, &vec![Err("no answer".to_string())]);
    assert_eq!(received, 0);
    assert!(lines.iter().any(|line| line.failure && line.text.contains("no answer")));
    assert_eq!(settle(1, 0), Ok("1 send, 0 recv. press Ctrl+C to stop".to_string()));
    assert!(settle(0, 0).is_err());
}

#[test]
fn a_session_keeps_its_identity_in_a_file() {
    assert_eq!(secret_key_file("studio"), "studio.key");
    let text = format!("  {}\n", "0f".repeat(32));
    assert_eq!(stored_secret_key("k", &text), Ok([0x0f; 32]));
    assert_eq!(
        stored_secret_key("k", " not a key\n"),
        Err("k does not hold a secret key: invalid length".to_string())
    );
}

#[test]
fn a_recording_block_takes_its_container_from_the_file() {
    let recv = RecvConfig {
        record: Some("out.mkv".to_string()),
        rendition: Some("low".to_string()),
        ..RecvConfig::new("a".to_string(), "t".to_string())
    };
    let options = recv.record_options().unwrap().expect("it records");
    assert_eq!(options.format, RecordFormat::Mkv);
    assert_eq!(options.rendition, Some("low".to_string()));
    let bad = RecvConfig {
        record: Some("out.avi".to_string()),
        ..RecvConfig::new("a".to_string(), "t".to_string())
    };
    assert!(bad.record_options().is_err());
}

#[test]
fn a_broadcast_is_advertised_by_whoever_can_be_reached() {
    let transport = |no_serve: bool, relay: Option<EndpointId>| TransportArgs {
        name: "a".to_string(),
        relay,
        no_serve,
        no_qr: false,
    };
    let direct = advertise(id(2), &transport(false, None));
    assert_eq!(direct.reach, Reach::Direct { qr: true });
    assert_eq!(direct.ticket, ticket(id(2), "a"));
    assert_eq!(direct.notice(), (format!("publishing at {}", direct.ticket), false));
    assert_eq!(advertise(id(2), &transport(true, Some(id(3)))).reach, Reach::RelayOnly);
    let nobody = advertise(id(2), &transport(true, None));
    assert_eq!(nobody.reach, Reach::Nothing);
    assert!(nobody.notice().1);
    let waiting = still_waiting(&LiveTicket::new(id(2), "a".to_string()));
    assert!(waiting.starts_with(&format!("still waiting for 'a' on {}", id(2).fmt_short())));
}

#[test]
fn white_space_is_what_it_is_everywhere() {
    for c in '\0'..=char::MAX {
        assert_eq!(text::is_whitespace(c), c.is_whitespace(), "{c:?}");
    }
    assert_eq!(text::trim("\u{a0} a b \u{2029}"), "a b");
    assert_eq!(text::trim(" \t"), "");
}

#[test]
fn numbers_are_read_and_written_as_usual() {
    for n in [0u64, 9, 10, 99, 100, 18_446_744_073_709_551_615] {
        assert_eq!(text::decimal_text(n), n.to_string());
    }
    assert_eq!(text::wide_decimal_text(u128::MAX), u128::MAX.to_string());
    for s in ["0", "+7", "007", "4294967295", "4294967296", "-1", "", "+", "1 ", "x"] {
        assert_eq!(text::parse_u32(s), s.parse::<u32>().ok(), "{s:?}");
    }
}

#[test]
fn texts_split_where_they_should() {
    assert_eq!(text::split_once("a:b:c", ':'), Some(("a", "b:c")));
    assert_eq!(text::split_once("abc", ':'), None);
    assert_eq!(text::split_once_at("a : b", " : "), Some(("a", "b")));
    assert_eq!(text::split_once_at("a: b", " : "), None);
    assert_eq!(text::strip_prefix("iroh-live:x", "iroh-live:"), Some("x"));
    assert_eq!(text::strip_prefix("iroh", "iroh-live:"), None);
    assert!(text::same_ignoring_case("VaApi", "vaapi"));
    assert!(!text::same_ignoring_case("\u{c4}", "\u{e4}"));
    assert_eq!(text::join_all(&vec!["a".to_string(), "b".to_string()], ", "), "a, b");
    assert_eq!(text::join_all(&vec![], ", "), "");
}

#[test]
fn time_does_not_run_backwards() {
    let early = Instant { nanos: 5 };
    let late = Instant { nanos: 12 };
    assert_eq!(late.duration_since(early), Duration { nanos: 7 });
    assert_eq!(early.duration_since(late), Duration { nanos: 0 });
    assert_eq!(Duration::from_secs(3).as_secs(), 3);
    assert_eq!(Duration { nanos: 2_999_999_999 }.as_secs(), 2);
}
