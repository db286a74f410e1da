//! What the command line asks for, as plain values.
//!
//! Turning a `--video` specifier into a capture is [`crate::source`]'s job, and
//! turning a `--renditions` list into a ladder is [`crate::rendition`]'s.

use vstd::prelude::*;
use vstd::string::*;

use crate::backend::{DecoderArg, EncoderArg};
use crate::endpoint::EndpointId;
use crate::features::Features;
use crate::source_spec;
use crate::source_spec::{
    AudioSourceSpec, AudioSourceView, TestPattern, TestTone, VideoSourceSpec, VideoSourceView,
};
use crate::text;
use crate::ticket::{LiveTicket, TicketKey, TicketView};
use crate::time;
use crate::time::Duration;

verus! {

/// Where a broadcast is served and how its address is shared.
#[derive(Debug)]
pub struct TransportArgs {
    /// Broadcast path, as it appears in the ticket.
    pub name: String,
    /// Also connect to this relay endpoint, which then carries the broadcast on
    /// to subscribers that cannot reach this node directly.
    pub relay: Option<EndpointId>,
    /// Do not accept incoming subscriber connections.
    pub no_serve: bool,
    /// Suppress the terminal QR code.
    pub no_qr: bool,
}

/// The keyframe interval published at when none is asked for, in seconds.
///
/// The interval trades the wait a viewer has for a first picture against how
/// much of the bitrate goes on keyframes.
pub const DEFAULT_KEYFRAME_SECONDS: u64 = 2;

/// The `--video` specifier when none is given.
pub const DEFAULT_VIDEO: &'static str = "cam";

/// The `--audio` specifier when none is given.
pub const DEFAULT_AUDIO: &'static str = "mic";

/// What to capture and how to encode it.
#[derive(Debug)]
pub struct CaptureArgs {
    /// Video source specifier.
    pub video: String,
    /// Audio source specifier.
    pub audio: String,
    /// Publish the timing pattern and its beeping tone, the same as `--video
    /// test --audio test`.
    pub test_source: bool,
    /// Video codec.
    pub codec: VideoCodecArg,
    /// Encoder to use.
    pub encoder: EncoderArg,
    /// Simulcast ladder, one rung to an entry.
    pub renditions: Vec<String>,
    /// How often the encoder inserts a keyframe; `None` leaves it to the
    /// encoder, which is what an interval that is not positive asks for.
    pub keyframe_interval: Option<Duration>,
    /// Target video bitrate in bits per second, for the largest rung.
    pub bitrate: Option<u64>,
    /// Requested capture width.
    pub width: Option<u32>,
    /// Requested capture height.
    pub height: Option<u32>,
    /// Requested capture frame rate.
    pub fps: Option<u32>,
    /// Hide the mouse cursor.
    pub no_cursor: bool,
    /// Audio codec.
    pub audio_codec: AudioCodecArg,
    /// Target audio bitrate in bits per second.
    pub audio_bitrate: Option<u32>,
}

/// The video codec `--codec` selects.
#[derive(Debug, Clone, Copy, PartialEq, Eq, Structural)]
pub enum VideoCodecArg {
    /// H.264 / AVC. The widest support, and the default.
    H264,
    /// H.265 / HEVC. Hardware encoders only.
    H265,
}

/// The audio codec `--audio-codec` selects.
#[derive(Debug, Clone, Copy, PartialEq, Eq, Structural)]
pub enum AudioCodecArg {
    /// Opus. The default.
    Opus,
    /// Uncompressed interleaved 32-bit float PCM.
    Pcm,
}

/// The container a `file:` video source is read as.
#[derive(Debug, Clone, Copy, PartialEq, Eq, Structural)]
pub enum ImportFormat {
    /// Fragmented MP4 / CMAF. The default.
    Fmp4,
    /// A raw H.264 Annex-B elementary stream.
    Avc3,
}

/// What the player trades between delay and smoothness.
///
/// The player holds each frame back a little so that one arriving late still
/// has somewhere to land.
#[derive(Debug, Clone, Copy, PartialEq, Eq, Structural)]
pub enum LatencyArg {
    /// The least delay this player can run at.
    Realtime,
    /// The default: enough slack for an ordinary network without a delay anyone
    /// would notice.
    Balanced,
    /// Rides out a link that stutters, at the cost of running further behind.
    Smooth,
}

/// How a subscriber decodes the video it receives.
#[derive(Debug, Clone, Copy, PartialEq, Eq, Structural)]
pub struct PlaybackArgs {
    /// Decoder to use. A backend named here is the only one tried.
    pub decoder: DecoderArg,
    /// How much slack the player keeps against a link that delivers unevenly.
    pub latency: LatencyArg,
}

/// The container a recording is written in.
#[derive(Debug, Clone, Copy, PartialEq, Eq, Structural)]
pub enum RecordFormat {
    /// Fragmented MP4 / CMAF, the shape `.mp4` names here.
    Fmp4,
    /// Matroska, the shape `.mkv` and `.webm` name.
    Mkv,
}

/// Arguments for publishing.
#[derive(Debug)]
pub struct PublishArgs {
    /// What to capture.
    pub capture: CaptureArgs,
    /// Where to serve it.
    pub transport: TransportArgs,
    /// Open a preview window showing what is being published.
    pub preview: bool,
    /// Start the preview window in fullscreen.
    pub fullscreen: bool,
    /// Container of a `file:` video source.
    pub format: ImportFormat,
    /// Re-mux (or re-encode) a `file:` video source through ffmpeg first.
    pub transcode: bool,
}

/// Arguments for a call.
#[derive(Debug)]
pub struct CallArgs {
    /// Ticket of the peer to call. `None` waits for somebody to call this node.
    pub ticket: Option<LiveTicket>,
    /// What to send.
    pub capture: CaptureArgs,
    /// How to decode what arrives.
    pub playback: PlaybackArgs,
    /// Which camera the QR scanner reads.
    pub scan_camera: Option<String>,
    /// Suppress the terminal QR code.
    pub no_qr: bool,
    /// Start in fullscreen.
    pub fullscreen: bool,
}

/// Arguments for a room.
#[derive(Debug)]
pub struct RoomArgs {
    /// Ticket of the room to join, as it is written. `None` opens a new room.
    pub ticket: Option<String>,
    /// What to send.
    pub capture: CaptureArgs,
    /// How to decode what arrives.
    pub playback: PlaybackArgs,
    /// Name the other participants see.
    pub display_name: Option<String>,
    /// Suppress the terminal QR code.
    pub no_qr: bool,
    /// Start in fullscreen.
    pub fullscreen: bool,
}

/// The remote broadcast a subscriber connects to.
///
/// Two spellings for one thing: the ticket a publisher printed, or the endpoint
/// id and broadcast path it is made of.
#[derive(Debug)]
pub struct RemoteArgs {
    /// Connection ticket.
    pub ticket: Option<LiveTicket>,
    /// Remote endpoint id.
    pub endpoint_id: Option<EndpointId>,
    /// Broadcast path, alongside the endpoint id.
    pub broadcast_name: Option<String>,
}

/// Arguments for watching.
#[derive(Debug)]
pub struct WatchArgs {
    /// What to watch.
    pub remote: RemoteArgs,
    /// How the video is decoded.
    pub playback: PlaybackArgs,
    /// Play audio only. No window opens.
    pub no_video: bool,
    /// Read the ticket from a QR code held up to the camera.
    pub scan: bool,
    /// Which camera the QR scanner reads, in the grammar `--video` takes.
    pub scan_camera: Option<String>,
    /// Pin a rendition by name instead of following the downlink.
    pub rendition: Option<String>,
    /// Start in fullscreen.
    pub fullscreen: bool,
    /// Play through this output device.
    pub audio_output: Option<String>,
}

/// Arguments for running a session file.
#[derive(Debug)]
pub struct RunArgs {
    /// Path of the session file.
    pub config: String,
}

/// Arguments for recording.
#[derive(Debug)]
pub struct RecordArgs {
    /// What to record.
    pub remote: RemoteArgs,
    /// Output file. Its extension picks the container unless `format` names
    /// one.
    pub output: String,
    /// Container to write, overriding whatever the extension implies.
    pub format: Option<RecordFormat>,
    /// Record one video rendition by name, instead of every rung the catalog
    /// offers.
    pub rendition: Option<String>,
    /// Stop after this many seconds.
    pub duration: Option<u64>,
    /// How long a stalled group is waited for before it is skipped, in
    /// milliseconds.
    pub latency: u64,
}

impl Default for VideoCodecArg {
    fn default() -> (r: VideoCodecArg)
        ensures
            r == VideoCodecArg::H264,
    {
        VideoCodecArg::H264
    }
}

impl Default for AudioCodecArg {
    fn default() -> (r: AudioCodecArg)
        ensures
            r == AudioCodecArg::Opus,
    {
        AudioCodecArg::Opus
    }
}

impl Default for ImportFormat {
    fn default() -> (r: ImportFormat)
        ensures
            r == ImportFormat::Fmp4,
    {
        ImportFormat::Fmp4
    }
}

impl Default for LatencyArg {
    fn default() -> (r: LatencyArg)
        ensures
            r == LatencyArg::Balanced,
    {
        LatencyArg::Balanced
    }
}

impl Default for PlaybackArgs {
    fn default() -> (r: PlaybackArgs)
        ensures
            r.decoder == DecoderArg::Auto,
            r.latency == LatencyArg::Balanced,
    {
        PlaybackArgs { decoder: DecoderArg::Auto, latency: LatencyArg::Balanced }
    }
}

impl Default for CaptureArgs {
    /// What the flags start from, so that a caller building these by hand
    /// starts there too.
    fn default() -> (r: CaptureArgs)
        ensures
            r.video@ == "cam"@,
            r.audio@ == "mic"@,
            !r.test_source,
            r.codec == VideoCodecArg::H264,
            r.encoder == EncoderArg::Auto,
            r.renditions@.len() == 0,
            r.keyframe_interval matches Some(d) && d.nanos == time::secs(2),
            r.bitrate is None,
            r.width is None,
            r.height is None,
            r.fps is None,
            !r.no_cursor,
            r.audio_codec == AudioCodecArg::Opus,
            r.audio_bitrate is None,
    {
        CaptureArgs {
            video: DEFAULT_VIDEO.to_owned(),
            audio: DEFAULT_AUDIO.to_owned(),
            test_source: false,
            codec: VideoCodecArg::default(),
            encoder: EncoderArg::default(),
            renditions: Vec::new(),
            keyframe_interval: Some(Duration::from_secs(DEFAULT_KEYFRAME_SECONDS)),
            bitrate: None,
            width: None,
            height: None,
            fps: None,
            no_cursor: false,
            audio_codec: AudioCodecArg::default(),
            audio_bitrate: None,
        }
    }
}

impl CaptureArgs {
    /// The video source these flags name, or the message that refuses it.
    pub open spec fn video_of(self, features: Features) -> Result<VideoSourceView, Seq<char>> {
        if self.test_source {
            Ok(VideoSourceView::Test(TestPattern::Timing))
        } else {
            match source_spec::video_source(features, self.video@) {
                Ok(source) => Ok(source),
                Err(e) => Err("--video: "@ + e),
            }
        }
    }

    /// The audio source these flags name, or the message that refuses it.
    pub open spec fn audio_of(self) -> Result<AudioSourceView, Seq<char>> {
        if self.test_source {
            Ok(AudioSourceView::Test(TestTone::Beeps))
        } else {
            match source_spec::audio_source(self.audio@) {
                Ok(source) => Ok(source),
                Err(e) => Err("--audio: "@ + e),
            }
        }
    }

    /// The parsed video source, for a build with the given features.
    ///
    /// # Errors
    ///
    /// Fails if `--video` is not a recognised specifier.
    pub fn video_source(&self, features: Features) -> (r: Result<VideoSourceSpec, String>)
        ensures
            match r {
                Ok(source) => self.video_of(features) == Ok::<VideoSourceView, Seq<char>>(source@),
                Err(e) => self.video_of(features) == Err::<VideoSourceView, Seq<char>>(e@),
            },
    {
        if self.test_source {
            return Ok(VideoSourceSpec::Test(TestPattern::default()));
        }
        match VideoSourceSpec::parse_with(features, self.video.as_str()) {
            Ok(source) => Ok(source),
            Err(e) => Err(text::join2("--video: ", e.as_str())),
        }
    }

    /// The parsed audio source.
    ///
    /// # Errors
    ///
    /// Fails if `--audio` is not a recognised specifier.
    pub fn audio_source(&self) -> (r: Result<AudioSourceSpec, String>)
        ensures
            match r {
                Ok(source) => self.audio_of() == Ok::<AudioSourceView, Seq<char>>(source@),
                Err(e) => self.audio_of() == Err::<AudioSourceView, Seq<char>>(e@),
            },
    {
        if self.test_source {
            return Ok(AudioSourceSpec::Test(TestTone::default()));
        }
        match AudioSourceSpec::parse(self.audio.as_str()) {
            Ok(source) => Ok(source),
            Err(e) => Err(text::join2("--audio: ", e.as_str())),
        }
    }
}

impl LatencyArg {
    /// The three modes, from the least delay to the most.
    pub fn value_variants() -> (r: Vec<LatencyArg>)
        ensures
            r@ == seq![LatencyArg::Realtime, LatencyArg::Balanced, LatencyArg::Smooth],
    {
        let r = vec![LatencyArg::Realtime, LatencyArg::Balanced, LatencyArg::Smooth];
        assert(r@ =~= seq![LatencyArg::Realtime, LatencyArg::Balanced, LatencyArg::Smooth]);
        r
    }

    /// How long this mode holds a frame back, in nanoseconds.
    pub open spec fn holds(self) -> int {
        match self {
            LatencyArg::Realtime => time::millis(60),
            LatencyArg::Balanced => time::millis(100),
            LatencyArg::Smooth => time::millis(400),
        }
    }

    /// How much buffered media this mode tolerates, in nanoseconds.
    pub open spec fn tolerates(self) -> int {
        match self {
            LatencyArg::Realtime => time::millis(100),
            LatencyArg::Balanced => time::millis(150),
            LatencyArg::Smooth => time::millis(600),
        }
    }

    /// The playout jitter buffer this mode asks for.
    pub fn jitter(self) -> (r: Duration)
        ensures
            r.nanos == self.holds(),
    {
        match self {
            LatencyArg::Realtime => Duration::from_millis(60),
            LatencyArg::Balanced => Duration::from_millis(100),
            LatencyArg::Smooth => Duration::from_millis(400),
        }
    }

    /// The buffered media the decoder tolerates before skipping to the live
    /// edge.
    pub fn max_latency(self) -> (r: Duration)
        ensures
            r.nanos == self.tolerates(),
    {
        match self {
            LatencyArg::Realtime => Duration::from_millis(100),
            LatencyArg::Balanced => Duration::from_millis(150),
            LatencyArg::Smooth => Duration::from_millis(600),
        }
    }

    /// The place of a mode on the scale from least delay to most.
    pub open spec fn rank(self) -> int {
        match self {
            LatencyArg::Realtime => 0,
            LatencyArg::Balanced => 1,
            LatencyArg::Smooth => 2,
        }
    }
}

/// Every mode tolerates more buffering than it holds: a skip threshold below
/// the slack would throw away the frames that the slack exists to wait for.
pub proof fn modes_tolerate_more_than_they_hold(mode: LatencyArg)
    ensures
        mode.tolerates() > mode.holds(),
{
}

/// The modes are a scale: one further along it holds more and tolerates more.
pub proof fn modes_are_ordered(a: LatencyArg, b: LatencyArg)
    requires
        a.rank() < b.rank(),
    ensures
        a.holds() < b.holds(),
        a.tolerates() < b.tolerates(),
{
}

impl RemoteArgs {
    /// The ticket that the flags name, in exactly one of its two forms.
    pub open spec fn named(self) -> Option<TicketKey> {
        match (self.ticket, self.endpoint_id, self.broadcast_name) {
            (Some(ticket), None, None) => Some(ticket.full()),
            (None, Some(id), Some(name)) => Some(
                TicketKey { says: TicketView { id: id@, name: name@ }, addrs: Seq::empty() },
            ),
            _ => None,
        }
    }

    /// The ticket to subscribe to, from either form the flags allow.
    ///
    /// # Errors
    ///
    /// Fails unless exactly one form was given: the ticket, or both halves of
    /// it.
    pub fn ticket(&self) -> (r: Result<LiveTicket, String>)
        ensures
            match r {
                Ok(ticket) => self.named() == Some(ticket.full()),
                Err(e) => self.named() is None && e@
                    == "provide either <TICKET> or --endpoint-id and --name"@,
            },
    {
        match (&self.ticket, self.endpoint_id, &self.broadcast_name) {
            (Some(ticket), None, None) => Ok(ticket.clone()),
            (None, Some(id), Some(name)) => {
                let ticket = LiveTicket::new(id, name.clone());
                assert(crate::text::views(ticket.endpoint.addrs@) =~= Seq::empty());
                Ok(ticket)
            },
            _ => Err("provide either <TICKET> or --endpoint-id and --name".to_owned()),
        }
    }
}

/// What the flags publish: the timing pattern and its beeps where the test source is
/// asked for, and what `--video` and `--audio` name otherwise. A refusal names the flag.
pub proof fn flags_name_their_sources(args: CaptureArgs, features: Features)
    ensures
        args.test_source ==> args.video_of(features) == Ok::<VideoSourceView, Seq<char>>(
            VideoSourceView::Test(TestPattern::Timing),
        ) && args.audio_of() == Ok::<AudioSourceView, Seq<char>>(
            AudioSourceView::Test(TestTone::Beeps),
        ),
        !args.test_source ==> match source_spec::video_source(features, args.video@) {
            Ok(source) => args.video_of(features) == Ok::<VideoSourceView, Seq<char>>(source),
            Err(e) => args.video_of(features) == Err::<VideoSourceView, Seq<char>>(
                "--video: "@ + e,
            ),
        },
        !args.test_source ==> match source_spec::audio_source(args.audio@) {
            Ok(source) => args.audio_of() == Ok::<AudioSourceView, Seq<char>>(source),
            Err(e) => args.audio_of() == Err::<AudioSourceView, Seq<char>>("--audio: "@ + e),
        },
{
}

/// How long each mode holds a frame back and how much it tolerates, in milliseconds.
pub proof fn modes_in_milliseconds(mode: LatencyArg)
    ensures
        mode.holds() == (match mode {
            LatencyArg::Realtime => 60int,
            LatencyArg::Balanced => 100int,
            LatencyArg::Smooth => 400int,
        }) * 1_000_000,
        mode.tolerates() == (match mode {
            LatencyArg::Realtime => 100int,
            LatencyArg::Balanced => 150int,
            LatencyArg::Smooth => 600int,
        }) * 1_000_000,
{
}

/// The flags name a broadcast by a ticket alone, which is then the ticket, or by both
/// halves of one, which it is then made of; and by nothing else.
pub proof fn broadcasts_are_named_one_way(args: RemoteArgs)
    ensures
        args.named() is Some <==> {
            ||| args.ticket is Some && args.endpoint_id is None && args.broadcast_name is None
            ||| args.ticket is None && args.endpoint_id is Some && args.broadcast_name is Some
        },
        args.named() matches Some(named) ==> {
            &&& args.ticket matches Some(ticket) ==> named.says == ticket@ && named.addrs
                == text::views(ticket.endpoint.addrs@)
            &&& args.ticket is None ==> named.says.id == args.endpoint_id->0@ && named.says.name
                == args.broadcast_name->0@ && named.addrs.len() == 0
        },
{
}

} // verus!
