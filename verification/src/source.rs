//! What a parsed specifier asks the media stack to publish.
//!
//! A capture device is opened inside the publish task, so all that is settled
//! here is which one, at which geometry and rate. The Raspberry Pi camera is the
//! exception: `rpicam` hands over H.264 that was already encoded, and
//! `rpicam:raw` hands over pictures like any other camera's.

use vstd::prelude::*;
use vstd::string::*;

use crate::args::{AudioCodecArg, CaptureArgs, VideoCodecArg};
use crate::backend::EncoderArg;
use crate::features::Features;
use crate::rendition;
use crate::rendition::{CaptureFramerate, Ladder, Size};
use crate::source_spec::{
    AudioSourceSpec, AudioSourceView, RpicamMode, TestPattern, TestTone, VideoSourceSpec,
    VideoSourceView,
};
use crate::text;

verus! {

/// Width of the test pattern when none is asked for.
pub const TEST_WIDTH: u32 = 1280;

/// Height of the test pattern when none is asked for.
pub const TEST_HEIGHT: u32 = 720;

/// Width of the Raspberry Pi camera's picture when none is asked for.
pub const RPICAM_WIDTH: u32 = 640;

/// Height of the Raspberry Pi camera's picture when none is asked for.
pub const RPICAM_HEIGHT: u32 = 360;

/// Frequency of the unbroken test tone, in hertz: concert A.
pub const TEST_TONE_HZ: u32 = 440;

/// Sample rate of the test tone.
pub const TEST_TONE_RATE: u32 = 48_000;

/// Channel count of the test tone.
pub const TEST_TONE_CHANNELS: u32 = 2;

/// A capture device, and what is asked of it.
#[derive(Debug)]
pub struct CaptureConfig {
    /// The device: a camera, a display, a window or an application.
    pub source: VideoSourceSpec,
    /// Requested width.
    pub width: Option<u32>,
    /// Requested height.
    pub height: Option<u32>,
    /// Requested frame rate.
    pub framerate: Option<u32>,
    /// Whether the mouse cursor is in the picture.
    pub cursor: bool,
}

/// What to publish as video.
#[derive(Debug)]
pub enum VideoPlan {
    /// A capture device.
    Capture(CaptureConfig),
    /// A generated picture.
    Test {
        /// Which one.
        pattern: TestPattern,
        /// How large.
        size: Size,
        /// How often.
        framerate: u32,
    },
    /// The Raspberry Pi camera's pictures, to be encoded here.
    RpicamRaw {
        /// How large.
        size: Size,
        /// How often.
        framerate: u32,
    },
    /// The H.264 that the Raspberry Pi's own encoder produced.
    RpicamEncoded {
        /// How large.
        size: Size,
        /// How often.
        framerate: u32,
        /// The bitrate to ask its encoder for, or `None` for its default.
        bitrate: Option<u32>,
        /// A keyframe every this many frames: one a second.
        keyframe_interval: u32,
    },
}

/// What to publish as audio.
#[derive(Debug)]
pub enum AudioPlan {
    /// A microphone, by its id, or the default one.
    Microphone(Option<String>),
    /// Everything the machine is playing.
    System,
    /// A beep on every second.
    Beeps {
        /// Samples per second.
        rate: u32,
        /// Channels.
        channels: u32,
    },
    /// An unbroken tone.
    Tone {
        /// Its frequency in hertz.
        hz: u32,
        /// Samples per second.
        rate: u32,
        /// Channels.
        channels: u32,
    },
    /// An audio file.
    File {
        /// Its path.
        path: String,
        /// Whether to start over at its end.
        looping: bool,
    },
}

/// How to encode audio.
#[derive(Debug, Clone, Copy, PartialEq, Eq, Structural)]
pub struct AudioOptions {
    /// The codec.
    pub codec: AudioCodecArg,
    /// The target bitrate, or `None` for the codec's own.
    pub bitrate: Option<u32>,
}

/// A size from the flags, with a default for each side.
pub open spec fn size_or(args: CaptureArgs, width: u32, height: u32) -> Size {
    Size {
        width: match args.width {
            Some(width) => width,
            None => width,
        },
        height: match args.height {
            Some(height) => height,
            None => height,
        },
    }
}

fn requested_size(args: &CaptureArgs, width: u32, height: u32) -> (r: Size)
    ensures
        r == size_or(*args, width, height),
{
    let width: u32 = match args.width {
        Some(width) => width,
        None => width,
    };
    let height: u32 = match args.height {
        Some(height) => height,
        None => height,
    };
    Size::new(width, height)
}

/// The message that refuses the flags that a stream which arrives encoded
/// cannot act on, if there is one.
pub open spec fn rpicam_refusal(args: CaptureArgs) -> Option<Seq<char>> {
    if args.codec != VideoCodecArg::H264 {
        Some(
            "--video rpicam publishes the H.264 that rpicam-vid encoded in hardware, so --codec cannot select another codec; --video rpicam:raw takes the pictures instead and encodes them here"@,
        )
    } else if args.encoder != EncoderArg::Auto {
        Some(
            "--encoder "@ + args.encoder.spelled()
                + " has nothing to do under --video rpicam: rpicam-vid has already encoded the picture, and no encoder of ours runs. --video rpicam:raw takes the pictures instead, which is what comparing an encoder against the hardware one needs"@,
        )
    } else if args.renditions@.len() > 1 {
        Some(
            "--video rpicam publishes one rendition: the stream arrives encoded and cannot be produced again at a second size. Give at most one rung, which names the catalog entry, or use --video rpicam:raw to encode a ladder from the pictures"@,
        )
    } else {
        None
    }
}

/// Refuses the encoding flags a pre-encoded source cannot act on.
///
/// The picture is already H.264 by then, so `--codec` and `--encoder` describe
/// an encode that does not happen and a ladder has nothing to scale.
pub fn check_rpicam_flags(args: &CaptureArgs) -> (r: Result<(), String>)
    ensures
        match r {
            Ok(_) => rpicam_refusal(*args) is None,
            Err(e) => rpicam_refusal(*args) == Some(e@),
        },
        r is Ok <==> args.codec == VideoCodecArg::H264 && args.encoder == EncoderArg::Auto
            && args.renditions@.len() <= 1,
        args.codec != VideoCodecArg::H264 ==> (r matches Err(e) && e@
            == "--video rpicam publishes the H.264 that rpicam-vid encoded in hardware, so --codec cannot select another codec; --video rpicam:raw takes the pictures instead and encodes them here"@),
        args.codec == VideoCodecArg::H264 && args.encoder != EncoderArg::Auto ==> (r matches Err(e)
            && e@ == "--encoder "@ + args.encoder.spelled()
            + " has nothing to do under --video rpicam: rpicam-vid has already encoded the picture, and no encoder of ours runs. --video rpicam:raw takes the pictures instead, which is what comparing an encoder against the hardware one needs"@),
        args.codec == VideoCodecArg::H264 && args.encoder == EncoderArg::Auto
            && args.renditions@.len() > 1 ==> (r matches Err(e) && e@
            == "--video rpicam publishes one rendition: the stream arrives encoded and cannot be produced again at a second size. Give at most one rung, which names the catalog entry, or use --video rpicam:raw to encode a ladder from the pictures"@),
{
    if args.codec != VideoCodecArg::H264 {
        return Err(
            "--video rpicam publishes the H.264 that rpicam-vid encoded in hardware, so --codec cannot select another codec; --video rpicam:raw takes the pictures instead and encodes them here".to_owned(),
        );
    }
    if args.encoder != EncoderArg::Auto {
        return Err(
            text::join3(
                "--encoder ",
                args.encoder.name(),
                " has nothing to do under --video rpicam: rpicam-vid has already encoded the picture, and no encoder of ours runs. --video rpicam:raw takes the pictures instead, which is what comparing an encoder against the hardware one needs",
            ),
        );
    }
    if args.renditions.len() > 1 {
        return Err(
            "--video rpicam publishes one rendition: the stream arrives encoded and cannot be produced again at a second size. Give at most one rung, which names the catalog entry, or use --video rpicam:raw to encode a ladder from the pictures".to_owned(),
        );
    }
    Ok(())
}

/// The message that refuses a bitrate that does not fit.
pub open spec fn bitrate_refusal(bitrate: u64) -> Seq<char> {
    "--bitrate "@ + text::decimal(bitrate as nat)
        + " is out of range for --video rpicam, which can ask its encoder for at most 4294967295 bits per second"@
}

/// Returns the bitrate to hand `rpicam-vid`, or nothing when none was given.
///
/// # Errors
///
/// Fails if the number does not fit the subprocess's flag. Rejected rather than
/// clamped, because clamping turns a typo into a request the subprocess refuses
/// in its own words.
pub fn rpicam_bitrate(bitrate: Option<u64>) -> (r: Result<Option<u32>, String>)
    ensures
        match bitrate {
            None => r == Ok::<Option<u32>, String>(None),
            Some(bitrate) => match r {
                Ok(Some(rate)) => rate == bitrate,
                Ok(None) => false,
                Err(e) => bitrate > u32::MAX && e@ == bitrate_refusal(bitrate),
            },
        },
        r matches Err(e) ==> bitrate is Some && e@ == "--bitrate "@ + text::decimal(
            bitrate->0 as nat,
        )
            + " is out of range for --video rpicam, which can ask its encoder for at most 4294967295 bits per second"@,
{
    match bitrate {
        None => Ok(None),
        Some(bitrate) => if bitrate <= u32::MAX as u64 {
            Ok(Some(bitrate as u32))
        } else {
            Err(
                text::join3(
                    "--bitrate ",
                    text::decimal_text(bitrate).as_str(),
                    " is out of range for --video rpicam, which can ask its encoder for at most 4294967295 bits per second",
                ),
            )
        },
    }
}

/// The message that refuses a file where only a capture will do.
pub open spec fn file_refusal(path: Seq<char>) -> Seq<char> {
    "a file: video source is published by `irl publish --video file:"@ + path
        + "`, which republishes the file without re-encoding it; here the source has to be a capture device, `test`, or `none`"@
}

/// The rate that a source which makes its own frames runs at.
pub open spec fn generated_rate(framerate: CaptureFramerate) -> u32 {
    match framerate.asked() {
        Some(fps) => fps,
        None => rendition::DEFAULT_FRAMERATE,
    }
}

/// Whether `plan` is what a specifier asks for.
pub open spec fn video_plan_of(
    spec: VideoSourceSpec,
    args: CaptureArgs,
    framerate: CaptureFramerate,
    plan: Result<Option<VideoPlan>, Seq<char>>,
) -> bool {
    match spec {
        VideoSourceSpec::Nothing => plan == Ok::<Option<VideoPlan>, Seq<char>>(None),
        VideoSourceSpec::File { path, .. } => plan matches Err(e) && e == file_refusal(path@),
        VideoSourceSpec::Test(pattern) => plan == Ok::<Option<VideoPlan>, Seq<char>>(
            Some(
                VideoPlan::Test {
                    pattern,
                    size: size_or(args, TEST_WIDTH, TEST_HEIGHT),
                    framerate: generated_rate(framerate),
                },
            ),
        ),
        VideoSourceSpec::Rpicam(RpicamMode::Raw) => plan == Ok::<Option<VideoPlan>, Seq<char>>(
            Some(
                VideoPlan::RpicamRaw {
                    size: size_or(args, RPICAM_WIDTH, RPICAM_HEIGHT),
                    framerate: generated_rate(framerate),
                },
            ),
        ),
        VideoSourceSpec::Rpicam(RpicamMode::Encoded) => if rpicam_refusal(args) is Some {
            plan matches Err(e) && rpicam_refusal(args) == Some(e)
        } else if args.bitrate is Some && args.bitrate->0 > u32::MAX {
            plan matches Err(e) && e == bitrate_refusal(args.bitrate->0)
        } else {
            plan == Ok::<Option<VideoPlan>, Seq<char>>(
                Some(
                    VideoPlan::RpicamEncoded {
                        size: size_or(args, RPICAM_WIDTH, RPICAM_HEIGHT),
                        framerate: generated_rate(framerate),
                        bitrate: match args.bitrate {
                            Some(bitrate) => Some(bitrate as u32),
                            None => None,
                        },
                        keyframe_interval: generated_rate(framerate),
                    },
                ),
            )
        },
        _ => {
            &&& plan matches Ok(Some(VideoPlan::Capture(config)))
            &&& config.source@ == spec@
            &&& config.width == args.width
            &&& config.height == args.height
            &&& config.framerate == framerate.asked()
            &&& config.cursor == !args.no_cursor
        },
    }
}

/// The video source a specifier names, or `None` for no video.
///
/// # Errors
///
/// Fails for a `file:` source, which only publishing can take, and for flags
/// that ask a source which arrives encoded for an encode.
pub fn video_source(
    spec: &VideoSourceSpec,
    args: &CaptureArgs,
    framerate: CaptureFramerate,
) -> (r: Result<Option<VideoPlan>, String>)
    ensures
        video_plan_of(
            *spec,
            *args,
            framerate,
            match r {
                Ok(plan) => Ok(plan),
                Err(e) => Err(e@),
            },
        ),
        r matches Ok(Some(VideoPlan::Capture(config))) ==> {
            &&& config.source@ == spec@
            &&& config.width == args.width
            &&& config.height == args.height
            &&& config.cursor == !args.no_cursor
            &&& config.framerate == (match framerate {
                CaptureFramerate::Requested { fps, .. } => Some(fps),
                CaptureFramerate::Device => None,
            })
        },
        r matches Ok(Some(VideoPlan::Test { pattern, size, framerate: rate })) ==> {
            &&& *spec == VideoSourceSpec::Test(pattern)
            &&& size.width == (if args.width is Some {
                args.width->0
            } else {
                1280
            })
            &&& size.height == (if args.height is Some {
                args.height->0
            } else {
                720
            })
            &&& rate == (match framerate {
                CaptureFramerate::Requested { fps, .. } => fps,
                CaptureFramerate::Device => 30,
            })
        },
        r matches Ok(Some(VideoPlan::RpicamRaw { size, framerate: rate })) ==> {
            &&& *spec == VideoSourceSpec::Rpicam(RpicamMode::Raw)
            &&& size.width == (if args.width is Some {
                args.width->0
            } else {
                640
            })
            &&& size.height == (if args.height is Some {
                args.height->0
            } else {
                360
            })
            &&& rate == (match framerate {
                CaptureFramerate::Requested { fps, .. } => fps,
                CaptureFramerate::Device => 30,
            })
        },
        r matches Ok(
            Some(VideoPlan::RpicamEncoded { size, framerate: rate, bitrate, keyframe_interval }),
        ) ==> {
            &&& *spec == VideoSourceSpec::Rpicam(RpicamMode::Encoded)
            &&& size.width == (if args.width is Some {
                args.width->0
            } else {
                640
            })
            &&& size.height == (if args.height is Some {
                args.height->0
            } else {
                360
            })
            &&& rate == (match framerate {
                CaptureFramerate::Requested { fps, .. } => fps,
                CaptureFramerate::Device => 30,
            })
            &&& keyframe_interval == rate
            &&& bitrate is Some <==> args.bitrate is Some
            &&& args.bitrate is Some ==> bitrate->0 == args.bitrate->0
            &&& args.codec == VideoCodecArg::H264
            &&& args.encoder == EncoderArg::Auto
            &&& args.renditions@.len() <= 1
        },
        *spec == VideoSourceSpec::Nothing <==> r matches Ok(None),
        spec is Camera || spec is Display || spec is Window || spec is App
            ==> r matches Ok(Some(VideoPlan::Capture(_))),
        spec is Test ==> r matches Ok(Some(VideoPlan::Test { .. })),
        *spec == VideoSourceSpec::Rpicam(RpicamMode::Raw) ==> r matches Ok(
            Some(VideoPlan::RpicamRaw { .. }),
        ),
        *spec == VideoSourceSpec::Rpicam(RpicamMode::Encoded) && args.codec == VideoCodecArg::H264
            && args.encoder == EncoderArg::Auto && args.renditions@.len() <= 1 && (
        args.bitrate matches Some(bitrate) ==> bitrate <= 4_294_967_295) ==> r matches Ok(
            Some(VideoPlan::RpicamEncoded { .. }),
        ),
        spec is File ==> r is Err,
        spec matches VideoSourceSpec::File { path, .. } ==> (r matches Err(e) && e@
            == "a file: video source is published by `irl publish --video file:"@ + path@
            + "`, which republishes the file without re-encoding it; here the source has to be a capture device, `test`, or `none`"@),
{
    match spec {
        VideoSourceSpec::Nothing => Ok(None),
        VideoSourceSpec::Test(pattern) => Ok(
            Some(
                VideoPlan::Test {
                    pattern: *pattern,
                    size: requested_size(args, TEST_WIDTH, TEST_HEIGHT),
                    framerate: framerate.generated(),
                },
            ),
        ),
        VideoSourceSpec::File { path, .. } => Err(
            text::join3(
                "a file: video source is published by `irl publish --video file:",
                path.as_str(),
                "`, which republishes the file without re-encoding it; here the source has to be a capture device, `test`, or `none`",
            ),
        ),
        VideoSourceSpec::Rpicam(RpicamMode::Raw) => Ok(
            Some(
                VideoPlan::RpicamRaw {
                    size: requested_size(args, RPICAM_WIDTH, RPICAM_HEIGHT),
                    framerate: framerate.generated(),
                },
            ),
        ),
        VideoSourceSpec::Rpicam(RpicamMode::Encoded) => {
            match check_rpicam_flags(args) {
                Ok(_) => {},
                Err(e) => return Err(e),
            }
            let bitrate = match rpicam_bitrate(args.bitrate) {
                Ok(bitrate) => bitrate,
                Err(e) => return Err(e),
            };
            Ok(
                Some(
                    VideoPlan::RpicamEncoded {
                        size: requested_size(args, RPICAM_WIDTH, RPICAM_HEIGHT),
                        framerate: framerate.generated(),
                        bitrate,
                        keyframe_interval: framerate.generated(),
                    },
                ),
            )
        },
        other => Ok(
            Some(
                VideoPlan::Capture(
                    CaptureConfig {
                        source: other.clone(),
                        width: args.width,
                        height: args.height,
                        framerate: framerate.request(),
                        cursor: !args.no_cursor,
                    },
                ),
            ),
        ),
    }
}

/// Sets up the video half: what to publish, and the ladder to encode it at.
///
/// Nothing is returned where no video is asked for, although the ladder has to
/// make sense even then.
///
/// # Errors
///
/// Fails if the specifier is unusable here, or if the ladder does not parse.
pub fn configure_video(features: Features, args: &CaptureArgs) -> (r: Result<
    Option<(VideoPlan, Ladder)>,
    String,
>)
    ensures
        match args.video_of(features) {
            Err(e) => r matches Err(message) && message@ == e,
            Ok(source) => exists|spec: VideoSourceSpec, ladder: Result<Ladder, Seq<char>>|
                {
                    &&& (#[trigger] spec@) == source
                    &&& #[trigger] rendition::describes(features, spec, *args, ladder)
                    &&& match ladder {
                        Err(e) => r matches Err(message) && message@ == e,
                        Ok(ladder) => match r {
                            Err(e) => video_plan_of(spec, *args, ladder.framerate, Err(e@)),
                            Ok(None) => video_plan_of(spec, *args, ladder.framerate, Ok(None)),
                            Ok(Some((plan, kept))) => kept == ladder && video_plan_of(
                                spec,
                                *args,
                                ladder.framerate,
                                Ok(Some(plan)),
                            ),
                        },
                    }
                },
        },
        r matches Ok(Some((plan, ladder))) ==> {
            &&& args.video_of(features) matches Ok(source)
            &&& plan matches VideoPlan::Capture(config) ==> {
                &&& config.source@ == source
                &&& config.width == args.width
                &&& config.height == args.height
                &&& config.cursor == !args.no_cursor
                &&& config.framerate == (match ladder.framerate {
                    CaptureFramerate::Requested { fps, .. } => Some(fps),
                    CaptureFramerate::Device => None,
                })
            }
            &&& source is Camera || source is Display || source is Window || source is App
                <==> plan is Capture
            &&& plan matches VideoPlan::Test { pattern, size, framerate } ==> {
                &&& source == VideoSourceView::Test(pattern)
                &&& args.width matches Some(width) ==> size.width == width
                &&& args.height matches Some(height) ==> size.height == height
                &&& ladder.framerate matches CaptureFramerate::Requested { fps, .. } ==> framerate
                    == fps
            }
        },
        args.video_of(features) == Ok::<VideoSourceView, Seq<char>>(VideoSourceView::Nothing)
            ==> !(r matches Ok(Some(_))),
{
    let spec = match args.video_source(features) {
        Ok(spec) => spec,
        Err(e) => return Err(e),
    };
    let ladder = match rendition::ladder(features, &spec, args) {
        Ok(ladder) => ladder,
        Err(e) => {
            proof {
                assert(rendition::describes(features, spec, *args, Err(e@)));
            }
            return Err(e);
        },
    };
    proof {
        assert(rendition::describes(features, spec, *args, Ok(ladder)));
    }
    match video_source(&spec, args, ladder.framerate) {
        Ok(Some(plan)) => Ok(Some((plan, ladder))),
        Ok(None) => Ok(None),
        Err(e) => Err(e),
    }
}

/// Whether `plan` is what an audio specifier asks for.
pub open spec fn audio_plan_of(spec: AudioSourceView, plan: Option<AudioPlan>) -> bool {
    match spec {
        AudioSourceView::Nothing => plan is None,
        AudioSourceView::Microphone(id) => plan matches Some(AudioPlan::Microphone(device))
            && text::view_option(device) == id,
        AudioSourceView::System => plan matches Some(AudioPlan::System),
        AudioSourceView::Test(TestTone::Beeps) => plan == Some(
            AudioPlan::Beeps { rate: TEST_TONE_RATE, channels: TEST_TONE_CHANNELS },
        ),
        AudioSourceView::Test(TestTone::Tone) => plan == Some(
            AudioPlan::Tone {
                hz: TEST_TONE_HZ,
                rate: TEST_TONE_RATE,
                channels: TEST_TONE_CHANNELS,
            },
        ),
        AudioSourceView::File { path, looping } => plan matches Some(
            AudioPlan::File { path: file, looping: again },
        ) && file@ == path && again == looping,
    }
}

/// The audio source a specifier names, or `None` for no audio.
pub fn audio_source(spec: &AudioSourceSpec) -> (r: Option<AudioPlan>)
    ensures
        audio_plan_of(spec@, r),
        *spec is Nothing <==> r is None,
        *spec matches AudioSourceSpec::Microphone(id) ==> {
            &&& r matches Some(AudioPlan::Microphone(device))
            &&& device is Some <==> id is Some
            &&& id is Some ==> device->0@ == id->0@
        },
        *spec is System ==> r matches Some(AudioPlan::System),
        *spec matches AudioSourceSpec::Test(TestTone::Beeps) ==> r == Some(
            AudioPlan::Beeps { rate: 48_000, channels: 2 },
        ),
        *spec matches AudioSourceSpec::Test(TestTone::Tone) ==> r == Some(
            AudioPlan::Tone { hz: 440, rate: 48_000, channels: 2 },
        ),
        *spec matches AudioSourceSpec::File { path, looping } ==> {
            &&& r matches Some(AudioPlan::File { path: file, looping: again })
            &&& file@ == path@
            &&& again == looping
        },
{
    match spec {
        AudioSourceSpec::Nothing => None,
        AudioSourceSpec::Microphone(id) => Some(AudioPlan::Microphone(text::clone_option(id))),
        AudioSourceSpec::System => Some(AudioPlan::System),
        AudioSourceSpec::Test(TestTone::Beeps) => Some(
            AudioPlan::Beeps { rate: TEST_TONE_RATE, channels: TEST_TONE_CHANNELS },
        ),
        AudioSourceSpec::Test(TestTone::Tone) => Some(
            AudioPlan::Tone {
                hz: TEST_TONE_HZ,
                rate: TEST_TONE_RATE,
                channels: TEST_TONE_CHANNELS,
            },
        ),
        AudioSourceSpec::File { path, looping } => Some(
            AudioPlan::File { path: path.clone(), looping: *looping },
        ),
    }
}

/// The encoder options `--audio-codec` and `--audio-bitrate` imply.
///
/// The bitrate of PCM follows from its sample rate and channel count, and the
/// encoder rejects an explicit one, so only Opus takes the flag.
pub fn audio_options(args: &CaptureArgs) -> (r: AudioOptions)
    ensures
        r.codec == args.audio_codec,
        r.bitrate == (match args.audio_codec {
            AudioCodecArg::Opus => args.audio_bitrate,
            AudioCodecArg::Pcm => None,
        }),
{
    let bitrate = match args.audio_codec {
        AudioCodecArg::Opus => args.audio_bitrate,
        AudioCodecArg::Pcm => None,
    };
    AudioOptions { codec: args.audio_codec, bitrate }
}

} // verus!
