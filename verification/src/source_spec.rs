//! Parsing for the `--video` and `--audio` source specifiers.
//!
//! A specifier names a kind of source and, optionally, which device of that
//! kind: `cam`, `cam:2`, `screen`, `window:1042`, `file:clip.mp4`.

use vstd::prelude::*;
use vstd::string::*;

use crate::features::Features;
use crate::text;

verus! {

/// A parsed `--video` specifier.
#[derive(Debug, PartialEq, Eq)]
pub enum VideoSourceSpec {
    /// A camera, by its id. `None` opens the default.
    Camera(Option<String>),
    /// A whole display. `None` opens the main one.
    Display(Option<String>),
    /// A single window, by id. macOS only.
    Window(String),
    /// Every window of one application, by bundle id. macOS only.
    App(String),
    /// The Raspberry Pi camera, driven through `rpicam-vid`.
    Rpicam(RpicamMode),
    /// A generated picture, for publishing without a camera.
    Test(TestPattern),
    /// A media file, imported rather than encoded.
    File {
        /// Path to the file.
        path: String,
        /// Restart at the beginning on end of file.
        looping: bool,
    },
    /// Publish no video.
    Nothing,
}

/// Which generated picture `test` and `test:<name>` publish.
#[derive(Debug, Clone, Copy, PartialEq, Eq, Structural)]
pub enum TestPattern {
    /// A sweeping bar, vertical stripes, a frame counter, a clock, and a marker
    /// that flashes with the test tone's beep. The default.
    Timing,
    /// A moving gradient.
    Gradient,
}

/// What `rpicam-vid` hands over, which `rpicam` and `rpicam:raw` pick between.
#[derive(Debug, Clone, Copy, PartialEq, Eq, Structural)]
pub enum RpicamMode {
    /// The H.264 the Pi's hardware encoder produced, published unchanged.
    Encoded,
    /// Raw pictures, which are encoded here.
    Raw,
}

/// A parsed `--audio` specifier.
#[derive(Debug, PartialEq, Eq)]
pub enum AudioSourceSpec {
    /// An input device, by its id. `None` opens the default microphone.
    Microphone(Option<String>),
    /// Everything the machine is playing. macOS only.
    System,
    /// A generated tone, for publishing without a microphone.
    Test(TestTone),
    /// An audio file, decoded and encoded like any other source.
    File {
        /// Path to the file.
        path: String,
        /// Restart at the beginning on end of file.
        looping: bool,
    },
    /// Publish no audio.
    Nothing,
}

/// Which generated tone `test` and `test:<name>` publish.
#[derive(Debug, Clone, Copy, PartialEq, Eq, Structural)]
pub enum TestTone {
    /// A beep on every second, silent in between. The default.
    Beeps,
    /// An unbroken sine tone.
    Tone,
}

impl Default for TestPattern {
    fn default() -> (r: TestPattern)
        ensures
            r == TestPattern::Timing,
    {
        TestPattern::Timing
    }
}

impl Default for TestTone {
    fn default() -> (r: TestTone)
        ensures
            r == TestTone::Beeps,
    {
        TestTone::Beeps
    }
}

/// A [`VideoSourceSpec`], with its texts as sequences of characters.
pub enum VideoSourceView {
    /// A camera.
    Camera(Option<Seq<char>>),
    /// A display.
    Display(Option<Seq<char>>),
    /// A window.
    Window(Seq<char>),
    /// An application.
    App(Seq<char>),
    /// The Raspberry Pi camera.
    Rpicam(RpicamMode),
    /// A generated picture.
    Test(TestPattern),
    /// A media file.
    File {
        /// Path to the file.
        path: Seq<char>,
        /// Restart at the beginning on end of file.
        looping: bool,
    },
    /// No video.
    Nothing,
}

/// An [`AudioSourceSpec`], with its texts as sequences of characters.
pub enum AudioSourceView {
    /// An input device.
    Microphone(Option<Seq<char>>),
    /// Everything the machine is playing.
    System,
    /// A generated tone.
    Test(TestTone),
    /// An audio file.
    File {
        /// Path to the file.
        path: Seq<char>,
        /// Restart at the beginning on end of file.
        looping: bool,
    },
    /// No audio.
    Nothing,
}

impl View for VideoSourceSpec {
    type V = VideoSourceView;

    open spec fn view(&self) -> VideoSourceView {
        match *self {
            VideoSourceSpec::Camera(id) => VideoSourceView::Camera(text::view_option(id)),
            VideoSourceSpec::Display(id) => VideoSourceView::Display(text::view_option(id)),
            VideoSourceSpec::Window(id) => VideoSourceView::Window(id@),
            VideoSourceSpec::App(id) => VideoSourceView::App(id@),
            VideoSourceSpec::Rpicam(mode) => VideoSourceView::Rpicam(mode),
            VideoSourceSpec::Test(pattern) => VideoSourceView::Test(pattern),
            VideoSourceSpec::File { path, looping } => VideoSourceView::File {
                path: path@,
                looping,
            },
            VideoSourceSpec::Nothing => VideoSourceView::Nothing,
        }
    }
}

impl View for AudioSourceSpec {
    type V = AudioSourceView;

    open spec fn view(&self) -> AudioSourceView {
        match *self {
            AudioSourceSpec::Microphone(id) => AudioSourceView::Microphone(text::view_option(id)),
            AudioSourceSpec::System => AudioSourceView::System,
            AudioSourceSpec::Test(tone) => AudioSourceView::Test(tone),
            AudioSourceSpec::File { path, looping } => AudioSourceView::File {
                path: path@,
                looping,
            },
            AudioSourceSpec::Nothing => AudioSourceView::Nothing,
        }
    }
}

impl Clone for VideoSourceSpec {
    fn clone(&self) -> (r: VideoSourceSpec)
        ensures
            r@ == self@,
    {
        match self {
            VideoSourceSpec::Camera(id) => VideoSourceSpec::Camera(text::clone_option(id)),
            VideoSourceSpec::Display(id) => VideoSourceSpec::Display(text::clone_option(id)),
            VideoSourceSpec::Window(id) => VideoSourceSpec::Window(id.clone()),
            VideoSourceSpec::App(id) => VideoSourceSpec::App(id.clone()),
            VideoSourceSpec::Rpicam(mode) => VideoSourceSpec::Rpicam(*mode),
            VideoSourceSpec::Test(pattern) => VideoSourceSpec::Test(*pattern),
            VideoSourceSpec::File { path, looping } => VideoSourceSpec::File {
                path: path.clone(),
                looping: *looping,
            },
            VideoSourceSpec::Nothing => VideoSourceSpec::Nothing,
        }
    }
}

impl Clone for AudioSourceSpec {
    fn clone(&self) -> (r: AudioSourceSpec)
        ensures
            r@ == self@,
    {
        match self {
            AudioSourceSpec::Microphone(id) => AudioSourceSpec::Microphone(text::clone_option(id)),
            AudioSourceSpec::System => AudioSourceSpec::System,
            AudioSourceSpec::Test(tone) => AudioSourceSpec::Test(*tone),
            AudioSourceSpec::File { path, looping } => AudioSourceSpec::File {
                path: path.clone(),
                looping: *looping,
            },
            AudioSourceSpec::Nothing => AudioSourceSpec::Nothing,
        }
    }
}

/// The kind of a specifier: what stands before its first colon.
pub open spec fn kind_of(s: Seq<char>) -> Seq<char> {
    match text::split_at_first(s, ':') {
        Some((kind, _)) => kind,
        None => s,
    }
}

/// The rest of a specifier: what stands after its first colon, if it has one.
/// Device ids and paths carry colons of their own, which stay.
pub open spec fn rest_of(s: Seq<char>) -> Option<Seq<char>> {
    match text::split_at_first(s, ':') {
        Some((_, rest)) => Some(rest),
        None => None,
    }
}

/// Whether a path ends in `:loop`, in letters of either case.
pub open spec fn loops(rest: Seq<char>) -> bool {
    rest.len() >= 5 && text::ascii_lowercase(rest.skip(rest.len() - 5)) == ":loop"@
}

/// A path without the `:loop` that it may end in.
pub open spec fn without_loop(rest: Seq<char>) -> Seq<char> {
    if loops(rest) {
        rest.take(rest.len() - 5)
    } else {
        rest
    }
}

/// The identifier of a specifier that needs one: nothing is none.
pub open spec fn given(rest: Option<Seq<char>>) -> Option<Seq<char>> {
    match rest {
        Some(rest) if rest.len() > 0 => Some(rest),
        _ => None,
    }
}

/// The path of a `file` specifier and whether it loops, if there is a path.
pub open spec fn file_of(rest: Option<Seq<char>>) -> Option<(Seq<char>, bool)> {
    match rest {
        Some(rest) if without_loop(rest).len() > 0 => Some((without_loop(rest), loops(rest))),
        _ => None,
    }
}

/// The Raspberry Pi camera, if this build has it.
pub open spec fn rpicam_source(features: Features, mode: RpicamMode) -> Result<
    VideoSourceView,
    Seq<char>,
> {
    if features.rpicam {
        Ok(VideoSourceView::Rpicam(mode))
    } else {
        Err(
            "rpicam: this build has no Raspberry Pi camera source; it needs Linux and the 'rpicam' feature"@,
        )
    }
}

/// What a `--video` specifier means, or the message that refuses it.
pub open spec fn video_source(features: Features, s: Seq<char>) -> Result<
    VideoSourceView,
    Seq<char>,
> {
    let kind = text::lowercase(kind_of(s));
    let rest = rest_of(s);
    if kind == "cam"@ || kind == "camera"@ {
        Ok(VideoSourceView::Camera(rest))
    } else if kind == "screen"@ || kind == "display"@ {
        Ok(VideoSourceView::Display(rest))
    } else if kind == "window"@ {
        match given(rest) {
            Some(id) => Ok(VideoSourceView::Window(id)),
            None => Err("window: needs an id (e.g. window:1042)"@),
        }
    } else if kind == "app"@ {
        match given(rest) {
            Some(id) => Ok(VideoSourceView::App(id)),
            None => Err("app: needs a bundle id (e.g. app:com.apple.Safari)"@),
        }
    } else if kind == "rpicam"@ || kind == "picam"@ {
        match rest {
            None => rpicam_source(features, RpicamMode::Encoded),
            Some(rest) => if text::lowercase(rest) == "raw"@ {
                rpicam_source(features, RpicamMode::Raw)
            } else {
                Err(
                    "rpicam: takes no camera id, and the only suffix is ':raw' for uncompressed pictures; got '"@
                        + text::lowercase(rest) + "'"@,
                )
            },
        }
    } else if kind == "test"@ {
        match rest {
            None => Ok(VideoSourceView::Test(TestPattern::Timing)),
            Some(rest) => if text::lowercase(rest) == "timing"@ {
                Ok(VideoSourceView::Test(TestPattern::Timing))
            } else if text::lowercase(rest) == "gradient"@ {
                Ok(VideoSourceView::Test(TestPattern::Gradient))
            } else {
                Err(
                    "test: the patterns are 'timing' (the default) and 'gradient'; got '"@
                        + text::lowercase(rest) + "'"@,
                )
            },
        }
    } else if kind == "file"@ {
        match file_of(rest) {
            Some((path, looping)) => Ok(VideoSourceView::File { path, looping }),
            None => Err("file: needs a path (e.g. file:clip.mp4)"@),
        }
    } else if kind == "none"@ {
        Ok(VideoSourceView::Nothing)
    } else {
        Err(
            "unknown video source '"@ + kind
                + "': expected cam, screen, window, app, rpicam, rpicam:raw, file, test, or none"@,
        )
    }
}

/// What an `--audio` specifier means, or the message that refuses it.
///
/// An unrecognised one is a device name, so an ALSA-style `hw:0,1` reaches the
/// right device without quoting rules.
pub open spec fn audio_source(s: Seq<char>) -> Result<AudioSourceView, Seq<char>> {
    let kind = text::lowercase(kind_of(s));
    let rest = rest_of(s);
    if kind == "mic"@ || kind == "microphone"@ || kind == "default"@ {
        Ok(AudioSourceView::Microphone(rest))
    } else if kind == "system"@ || kind == "system-audio"@ {
        Ok(AudioSourceView::System)
    } else if kind == "test"@ {
        match rest {
            None => Ok(AudioSourceView::Test(TestTone::Beeps)),
            Some(rest) => if text::lowercase(rest) == "beeps"@ {
                Ok(AudioSourceView::Test(TestTone::Beeps))
            } else if text::lowercase(rest) == "tone"@ {
                Ok(AudioSourceView::Test(TestTone::Tone))
            } else {
                Err(
                    "test: the tones are 'beeps' (the default) and 'tone'; got '"@
                        + text::lowercase(rest) + "'"@,
                )
            },
        }
    } else if kind == "none"@ {
        Ok(AudioSourceView::Nothing)
    } else if kind == "file"@ {
        match file_of(rest) {
            Some((path, looping)) => Ok(AudioSourceView::File { path, looping }),
            None => Err("file: needs a path (e.g. file:music.mp3)"@),
        }
    } else {
        Ok(AudioSourceView::Microphone(Some(s)))
    }
}

impl VideoSourceSpec {
    /// Parses a `--video` specifier, for a build without the Raspberry Pi
    /// camera.
    ///
    /// # Errors
    ///
    /// Returns a message naming the accepted forms if `spec` is not one of
    /// them, or if a form that needs an identifier was given without one.
    pub fn parse(spec: &str) -> (r: Result<VideoSourceSpec, String>)
        ensures
            match r {
                Ok(v) => video_source(Features::stock(), spec@) == Ok::<VideoSourceView, Seq<char>>(
                    v@,
                ),
                Err(e) => video_source(Features::stock(), spec@) == Err::<
                    VideoSourceView,
                    Seq<char>,
                >(e@),
            },
    {
        VideoSourceSpec::parse_with(Features::default(), spec)
    }

    /// Parses a `--video` specifier, for a build with the given features.
    ///
    /// # Errors
    ///
    /// As for [`parse`](Self::parse).
    pub fn parse_with(features: Features, spec: &str) -> (r: Result<VideoSourceSpec, String>)
        ensures
            match r {
                Ok(v) => video_source(features, spec@) == Ok::<VideoSourceView, Seq<char>>(v@),
                Err(e) => video_source(features, spec@) == Err::<VideoSourceView, Seq<char>>(e@),
            },
            spec@ == "cam"@ ==> r matches Ok(VideoSourceSpec::Camera(None)),
            forall|id: Seq<char>|
                spec@ == #[trigger] ("cam:"@ + id) ==> (r matches Ok(
                    VideoSourceSpec::Camera(Some(device)),
                ) && device@ == id),
            spec@ == "screen"@ ==> r matches Ok(VideoSourceSpec::Display(None)),
            forall|id: Seq<char>|
                spec@ == #[trigger] ("screen:"@ + id) ==> (r matches Ok(
                    VideoSourceSpec::Display(Some(device)),
                ) && device@ == id),
            forall|id: Seq<char>|
                spec@ == #[trigger] ("window:"@ + id) && id.len() > 0 ==> (r matches Ok(
                    VideoSourceSpec::Window(device),
                ) && device@ == id),
            forall|id: Seq<char>|
                spec@ == #[trigger] ("app:"@ + id) && id.len() > 0 ==> (r matches Ok(
                    VideoSourceSpec::App(device),
                ) && device@ == id),
    {
        let (kind, rest) = split_once(spec);
        let kind = text::to_lowercase(kind);
        let kind = kind.as_str();
        let r = if text::same(kind, "cam") || text::same(kind, "camera") {
            Ok(VideoSourceSpec::Camera(text::owned_option(rest)))
        } else if text::same(kind, "screen") || text::same(kind, "display") {
            Ok(VideoSourceSpec::Display(text::owned_option(rest)))
        } else if text::same(kind, "window") {
            match identifier(rest) {
                Some(id) => Ok(VideoSourceSpec::Window(id.to_owned())),
                None => Err("window: needs an id (e.g. window:1042)".to_owned()),
            }
        } else if text::same(kind, "app") {
            match identifier(rest) {
                Some(id) => Ok(VideoSourceSpec::App(id.to_owned())),
                None => Err("app: needs a bundle id (e.g. app:com.apple.Safari)".to_owned()),
            }
        } else if text::same(kind, "rpicam") || text::same(kind, "picam") {
            match rest {
                None => rpicam(features, RpicamMode::Encoded),
                Some(rest) => {
                    let suffix = text::to_lowercase(rest);
                    if text::same(suffix.as_str(), "raw") {
                        rpicam(features, RpicamMode::Raw)
                    } else {
                        Err(
                            text::join3(
                                "rpicam: takes no camera id, and the only suffix is ':raw' for uncompressed pictures; got '",
                                suffix.as_str(),
                                "'",
                            ),
                        )
                    }
                },
            }
        } else if text::same(kind, "test") {
            match rest {
                None => Ok(VideoSourceSpec::Test(TestPattern::Timing)),
                Some(rest) => {
                    let name = text::to_lowercase(rest);
                    if text::same(name.as_str(), "timing") {
                        Ok(VideoSourceSpec::Test(TestPattern::Timing))
                    } else if text::same(name.as_str(), "gradient") {
                        Ok(VideoSourceSpec::Test(TestPattern::Gradient))
                    } else {
                        Err(
                            text::join3(
                                "test: the patterns are 'timing' (the default) and 'gradient'; got '",
                                name.as_str(),
                                "'",
                            ),
                        )
                    }
                },
            }
        } else if text::same(kind, "file") {
            match split_file(rest) {
                Some((path, looping)) => Ok(
                    VideoSourceSpec::File { path: path.to_owned(), looping },
                ),
                None => Err("file: needs a path (e.g. file:clip.mp4)".to_owned()),
            }
        } else if text::same(kind, "none") {
            Ok(VideoSourceSpec::Nothing)
        } else {
            Err(
                text::join3(
                    "unknown video source '",
                    kind,
                    "': expected cam, screen, window, app, rpicam, rpicam:raw, file, test, or none",
                ),
            )
        };
        proof {
            lemma_small_words();
            if spec@ == "cam"@ || spec@ == "screen"@ {
                video_devices_keep_their_ids(features, spec@, Seq::empty());
                identifiers_keep_their_colons(spec@, Seq::empty());
            }
            assert forall|id: Seq<char>| spec@ == #[trigger] ("cam:"@ + id) implies (r matches Ok(
                VideoSourceSpec::Camera(Some(device)),
            ) && device@ == id) by {
                assert("cam:"@ + id =~= "cam"@ + seq![':'] + id);
                identifiers_keep_their_colons("cam"@, id);
                video_devices_keep_their_ids(features, "cam"@, id);
            }
            assert forall|id: Seq<char>| spec@ == #[trigger] ("screen:"@ + id) implies (
            r matches Ok(VideoSourceSpec::Display(Some(device))) && device@ == id) by {
                assert("screen:"@ + id =~= "screen"@ + seq![':'] + id);
                identifiers_keep_their_colons("screen"@, id);
                video_devices_keep_their_ids(features, "screen"@, id);
            }
            assert forall|id: Seq<char>|
                spec@ == #[trigger] ("window:"@ + id) && id.len() > 0 implies (r matches Ok(
                VideoSourceSpec::Window(device),
            ) && device@ == id) by {
                assert("window:"@ + id =~= "window"@ + seq![':'] + id);
                identifiers_keep_their_colons("window"@, id);
                video_devices_keep_their_ids(features, "window"@, id);
            }
            assert forall|id: Seq<char>|
                spec@ == #[trigger] ("app:"@ + id) && id.len() > 0 implies (r matches Ok(
                VideoSourceSpec::App(device),
            ) && device@ == id) by {
                assert("app:"@ + id =~= "app"@ + seq![':'] + id);
                identifiers_keep_their_colons("app"@, id);
                video_devices_keep_their_ids(features, "app"@, id);
            }
        }
        r
    }
}

/// The Raspberry Pi camera specifier, for a build with the given features.
///
/// A build without the source does not call the specifier unknown: it is
/// spelled correctly and this build simply cannot serve it.
fn rpicam(features: Features, mode: RpicamMode) -> (r: Result<VideoSourceSpec, String>)
    ensures
        match r {
            Ok(v) => rpicam_source(features, mode) == Ok::<VideoSourceView, Seq<char>>(v@),
            Err(e) => rpicam_source(features, mode) == Err::<VideoSourceView, Seq<char>>(e@),
        },
{
    if features.rpicam {
        Ok(VideoSourceSpec::Rpicam(mode))
    } else {
        Err(
            "rpicam: this build has no Raspberry Pi camera source; it needs Linux and the 'rpicam' feature".to_owned(),
        )
    }
}

impl AudioSourceSpec {
    /// Parses an `--audio` specifier.
    ///
    /// An unrecognised specifier is taken as a device name, so an ALSA-style
    /// `hw:0,1` reaches the right device without quoting rules.
    ///
    /// # Errors
    ///
    /// Returns a message if `file:` was given without a path, or `test:` with
    /// an unknown tone.
    pub fn parse(spec: &str) -> (r: Result<AudioSourceSpec, String>)
        ensures
            match r {
                Ok(v) => audio_source(spec@) == Ok::<AudioSourceView, Seq<char>>(v@),
                Err(e) => audio_source(spec@) == Err::<AudioSourceView, Seq<char>>(e@),
            },
            spec@ == "mic"@ ==> r matches Ok(AudioSourceSpec::Microphone(None)),
            forall|id: Seq<char>|
                spec@ == #[trigger] ("mic:"@ + id) ==> (r matches Ok(
                    AudioSourceSpec::Microphone(Some(device)),
                ) && device@ == id),
    {
        let (kind, rest) = split_once(spec);
        let kind = text::to_lowercase(kind);
        let kind = kind.as_str();
        let r = if text::same(kind, "mic") || text::same(kind, "microphone") || text::same(
            kind,
            "default",
        ) {
            Ok(AudioSourceSpec::Microphone(text::owned_option(rest)))
        } else if text::same(kind, "system") || text::same(kind, "system-audio") {
            Ok(AudioSourceSpec::System)
        } else if text::same(kind, "test") {
            match rest {
                None => Ok(AudioSourceSpec::Test(TestTone::Beeps)),
                Some(rest) => {
                    let name = text::to_lowercase(rest);
                    if text::same(name.as_str(), "beeps") {
                        Ok(AudioSourceSpec::Test(TestTone::Beeps))
                    } else if text::same(name.as_str(), "tone") {
                        Ok(AudioSourceSpec::Test(TestTone::Tone))
                    } else {
                        Err(
                            text::join3(
                                "test: the tones are 'beeps' (the default) and 'tone'; got '",
                                name.as_str(),
                                "'",
                            ),
                        )
                    }
                },
            }
        } else if text::same(kind, "none") {
            Ok(AudioSourceSpec::Nothing)
        } else if text::same(kind, "file") {
            match split_file(rest) {
                Some((path, looping)) => Ok(
                    AudioSourceSpec::File { path: path.to_owned(), looping },
                ),
                None => Err("file: needs a path (e.g. file:music.mp3)".to_owned()),
            }
        } else {
            Ok(AudioSourceSpec::Microphone(Some(spec.to_owned())))
        };
        proof {
            lemma_small_words();
            if spec@ == "mic"@ {
                microphones_keep_their_ids("mic"@, Seq::empty());
                identifiers_keep_their_colons("mic"@, Seq::empty());
            }
            assert forall|id: Seq<char>| spec@ == #[trigger] ("mic:"@ + id) implies (r matches Ok(
                AudioSourceSpec::Microphone(Some(device)),
            ) && device@ == id) by {
                assert("mic:"@ + id =~= "mic"@ + seq![':'] + id);
                identifiers_keep_their_colons("mic"@, id);
                microphones_keep_their_ids("mic"@, id);
            }
        }
        r
    }
}

/// The identifier after a kind that needs one.
fn identifier<'a>(rest: Option<&'a str>) -> (r: Option<&'a str>)
    ensures
        text::view_str_option(r) == given(text::view_str_option(rest)),
{
    match rest {
        Some(id) if id.unicode_len() > 0 => Some(id),
        _ => None,
    }
}

/// The path after `file`, and whether it loops.
fn split_file<'a>(rest: Option<&'a str>) -> (r: Option<(&'a str, bool)>)
    ensures
        match r {
            Some((path, looping)) => file_of(text::view_str_option(rest)) == Some((path@, looping)),
            None => file_of(text::view_str_option(rest)) is None,
        },
{
    match rest {
        Some(rest) => {
            let (path, looping) = split_loop(rest);
            if path.unicode_len() > 0 {
                Some((path, looping))
            } else {
                None
            }
        },
        None => None,
    }
}

/// Splits the `:loop` suffix off a file path, if it carries one.
///
/// Both `--video` and `--audio` spell looping this way, so both parse it here.
pub fn split_loop<'a>(rest: &'a str) -> (r: (&'a str, bool))
    ensures
        r.0@ == without_loop(rest@),
        r.1 == loops(rest@),
{
    let len: usize = rest.unicode_len();
    proof {
        reveal_strlit(":loop");
    }
    if len < 5 {
        return (rest, false);
    }
    let suffix = rest.substring_char(len - 5, len);
    proof {
        assert(rest@.subrange(len - 5, len as int) =~= rest@.skip(len - 5));
        assert(text::ascii_lowercase(":loop"@) =~= ":loop"@);
        assert(rest@.subrange(0, len - 5) =~= rest@.take(len - 5));
    }
    if text::same_ignoring_case(suffix, ":loop") {
        (rest.substring_char(0, len - 5), true)
    } else {
        (rest, false)
    }
}

/// Splits a specifier into its kind and the identifier that follows.
///
/// Only the first colon separates: device ids and file paths carry their own
/// (`hw:0,1`, `C:\clips\demo.mp4`), so everything after it stays intact.
pub fn split_once<'a>(spec: &'a str) -> (r: (&'a str, Option<&'a str>))
    ensures
        r.0@ == kind_of(spec@),
        match r.1 {
            Some(rest) => rest_of(spec@) == Some(rest@),
            None => rest_of(spec@) is None,
        },
{
    match text::split_once(spec, ':') {
        Some((kind, rest)) => (kind, Some(rest)),
        None => (spec, None),
    }
}

/// A specifier without a colon is its own kind and has no identifier; joining a
/// kind without a colon to an identifier of any sort gives both back, colons in
/// the identifier included.
pub proof fn identifiers_keep_their_colons(kind: Seq<char>, id: Seq<char>)
    requires
        forall|i: int| 0 <= i < kind.len() ==> kind[i] != ':',
    ensures
        kind_of(kind) == kind,
        rest_of(kind) is None,
        kind_of(kind + seq![':'] + id) == kind,
        rest_of(kind + seq![':'] + id) == Some(id),
{
    text::lemma_split_joined(kind, ':', id);
    text::lemma_before(kind, ':', kind.len() as int);
}

/// Marking a path with `:loop` in any case loops it and leaves the path alone.
pub proof fn loop_suffix_comes_off(path: Seq<char>, suffix: Seq<char>)
    requires
        text::ascii_lowercase(suffix) == ":loop"@,
    ensures
        loops(path + suffix),
        without_loop(path + suffix) == path,
{
    reveal_strlit(":loop");
    assert(suffix.len() == text::ascii_lowercase(suffix).len());
    assert((path + suffix).skip(path.len() as int) =~= suffix);
    assert((path + suffix).take(path.len() as int) =~= path);
}

/// A video source that needs an identifier is refused without one, a path that is
/// only marked to loop included.
pub proof fn identifiers_are_asked_for(features: Features, s: Seq<char>)
    requires
        ({
            ||| text::lowercase(kind_of(s)) == "window"@ && given(rest_of(s)) is None
            ||| text::lowercase(kind_of(s)) == "app"@ && given(rest_of(s)) is None
            ||| text::lowercase(kind_of(s)) == "file"@ && file_of(rest_of(s)) is None
        }),
    ensures
        video_source(features, s) is Err,
{
    reveal_strlit("cam");
    reveal_strlit("camera");
    reveal_strlit("screen");
    reveal_strlit("display");
    reveal_strlit("window");
    reveal_strlit("app");
    reveal_strlit("rpicam");
    reveal_strlit("picam");
    reveal_strlit("test");
    reveal_strlit("file");
    let kind = text::lowercase(kind_of(s));
    assert(kind[0] == 'w' || kind[0] == 'a' || kind[0] == 'f');
}

/// Two sorts of audio specifiers are refused, and no others: a `file` without a
/// path, whether or not it is marked to loop, and a `test` with a tone that there
/// is not.
pub proof fn audio_refusals(s: Seq<char>)
    ensures
        audio_source(s) is Err <==> {
            ||| text::lowercase(kind_of(s)) == "file"@ && (rest_of(s) matches Some(rest)
                ==> without_loop(rest).len() == 0)
            ||| text::lowercase(kind_of(s)) == "test"@ && (rest_of(s) matches Some(rest)
                && text::lowercase(rest) != "beeps"@ && text::lowercase(rest) != "tone"@)
        },
{
    reveal_strlit("mic");
    reveal_strlit("microphone");
    reveal_strlit("default");
    reveal_strlit("system");
    reveal_strlit("system-audio");
    reveal_strlit("test");
    reveal_strlit("none");
    reveal_strlit("file");
    let kind = text::lowercase(kind_of(s));
    if kind == "test"@ || kind == "file"@ {
        assert(kind[0] == 't' || kind[0] == 'f');
    }
}

/// The words that specifiers start with are told apart.
proof fn lemma_words()
    ensures
        "cam"@.len() == 3 && "cam"@[0] == 'c' && "cam"@[1] == 'a' && "cam"@[2] == 'm',
        "camera"@.len() == 6 && "camera"@[0] == 'c',
        "screen"@.len() == 6 && "screen"@[0] == 's',
        "display"@.len() == 7 && "display"@[0] == 'd' && "display"@[1] == 'i',
        "window"@.len() == 6 && "window"@[0] == 'w',
        "app"@.len() == 3 && "app"@[0] == 'a',
        "rpicam"@.len() == 6 && "rpicam"@[0] == 'r',
        "picam"@.len() == 5 && "picam"@[0] == 'p',
        "test"@.len() == 4 && "test"@[0] == 't',
        "file"@.len() == 4 && "file"@[0] == 'f',
        "none"@.len() == 4 && "none"@[0] == 'n',
        "mic"@.len() == 3 && "mic"@[0] == 'm',
        "microphone"@.len() == 10 && "microphone"@[0] == 'm',
        "default"@.len() == 7 && "default"@[0] == 'd' && "default"@[1] == 'e',
        "system"@.len() == 6 && "system"@[0] == 's',
        "system-audio"@.len() == 12 && "system-audio"@[0] == 's',
        "raw"@.len() == 3 && "raw"@[0] == 'r',
        "timing"@.len() == 6 && "timing"@[0] == 't',
        "gradient"@.len() == 8 && "gradient"@[0] == 'g',
        "beeps"@.len() == 5 && "beeps"@[0] == 'b',
        "tone"@.len() == 4 && "tone"@[0] == 't' && "tone"@[1] == 'o',
{
    reveal_strlit("cam");
    reveal_strlit("camera");
    reveal_strlit("screen");
    reveal_strlit("display");
    reveal_strlit("window");
    reveal_strlit("app");
    reveal_strlit("rpicam");
    reveal_strlit("picam");
    reveal_strlit("test");
    reveal_strlit("file");
    reveal_strlit("none");
    reveal_strlit("mic");
    reveal_strlit("microphone");
    reveal_strlit("default");
    reveal_strlit("system");
    reveal_strlit("system-audio");
    reveal_strlit("raw");
    reveal_strlit("timing");
    reveal_strlit("gradient");
    reveal_strlit("beeps");
    reveal_strlit("tone");
}

/// The words that devices are listed under are small and hold no colon, and a colon
/// follows them there.
proof fn lemma_small_words()
    ensures
        text::all_ascii("mic"@) && text::ascii_lowercase("mic"@) == "mic"@,
        text::all_ascii("cam"@) && text::ascii_lowercase("cam"@) == "cam"@,
        text::all_ascii("screen"@) && text::ascii_lowercase("screen"@) == "screen"@,
        text::all_ascii("window"@) && text::ascii_lowercase("window"@) == "window"@,
        text::all_ascii("app"@) && text::ascii_lowercase("app"@) == "app"@,
        forall|i: int| 0 <= i < "mic"@.len() ==> "mic"@[i] != ':',
        forall|i: int| 0 <= i < "cam"@.len() ==> "cam"@[i] != ':',
        forall|i: int| 0 <= i < "screen"@.len() ==> "screen"@[i] != ':',
        forall|i: int| 0 <= i < "window"@.len() ==> "window"@[i] != ':',
        forall|i: int| 0 <= i < "app"@.len() ==> "app"@[i] != ':',
        "mic:"@ == "mic"@ + seq![':'],
        "cam:"@ == "cam"@ + seq![':'],
        "screen:"@ == "screen"@ + seq![':'],
        "window:"@ == "window"@ + seq![':'],
        "app:"@ == "app"@ + seq![':'],
{
    reveal_strlit("mic");
    reveal_strlit("cam");
    reveal_strlit("screen");
    reveal_strlit("window");
    reveal_strlit("app");
    reveal_strlit("mic:");
    reveal_strlit("cam:");
    reveal_strlit("screen:");
    reveal_strlit("window:");
    reveal_strlit("app:");
    assert(text::ascii_lowercase("mic"@) =~= "mic"@);
    assert(text::ascii_lowercase("cam"@) =~= "cam"@);
    assert(text::ascii_lowercase("screen"@) =~= "screen"@);
    assert(text::ascii_lowercase("window"@) =~= "window"@);
    assert(text::ascii_lowercase("app"@) =~= "app"@);
    assert("mic:"@ =~= "mic"@ + seq![':']);
    assert("cam:"@ =~= "cam"@ + seq![':']);
    assert("screen:"@ =~= "screen"@ + seq![':']);
    assert("window:"@ =~= "window"@ + seq![':']);
    assert("app:"@ =~= "app"@ + seq![':']);
}

/// A microphone keeps the id that it is named with, colons and all, and is the default
/// one where none is given; and what starts with no word that is known is itself the id
/// of a microphone.
pub proof fn microphones_keep_their_ids(kind: Seq<char>, id: Seq<char>)
    requires
        forall|i: int| 0 <= i < kind.len() ==> kind[i] != ':',
    ensures
        text::lowercase(kind) == "mic"@ || text::lowercase(kind) == "microphone"@
            || text::lowercase(kind) == "default"@ ==> {
            &&& audio_source(kind + seq![':'] + id) == Ok::<AudioSourceView, Seq<char>>(
                AudioSourceView::Microphone(Some(id)),
            )
            &&& audio_source(kind) == Ok::<AudioSourceView, Seq<char>>(
                AudioSourceView::Microphone(None),
            )
        },
        text::lowercase(kind) != "mic"@ && text::lowercase(kind) != "microphone"@
            && text::lowercase(kind) != "default"@ && text::lowercase(kind) != "system"@
            && text::lowercase(kind) != "system-audio"@ && text::lowercase(kind) != "test"@
            && text::lowercase(kind) != "none"@ && text::lowercase(kind) != "file"@ ==> {
            &&& audio_source(kind + seq![':'] + id) == Ok::<AudioSourceView, Seq<char>>(
                AudioSourceView::Microphone(Some(kind + seq![':'] + id)),
            )
            &&& audio_source(kind) == Ok::<AudioSourceView, Seq<char>>(
                AudioSourceView::Microphone(Some(kind)),
            )
        },
{
    identifiers_keep_their_colons(kind, id);
}

/// The audio sources without an id: what the machine plays, a generated tone, and
/// nothing.
pub proof fn other_audio_sources_read(kind: Seq<char>, rest: Seq<char>)
    requires
        forall|i: int| 0 <= i < kind.len() ==> kind[i] != ':',
    ensures
        text::lowercase(kind) == "system"@ || text::lowercase(kind) == "system-audio"@ ==> {
            &&& audio_source(kind) == Ok::<AudioSourceView, Seq<char>>(AudioSourceView::System)
            &&& audio_source(kind + seq![':'] + rest) == audio_source(kind)
        },
        text::lowercase(kind) == "none"@ ==> {
            &&& audio_source(kind) == Ok::<AudioSourceView, Seq<char>>(AudioSourceView::Nothing)
            &&& audio_source(kind + seq![':'] + rest) == audio_source(kind)
        },
        text::lowercase(kind) == "test"@ ==> {
            &&& audio_source(kind) == Ok::<AudioSourceView, Seq<char>>(
                AudioSourceView::Test(TestTone::Beeps),
            )
            &&& text::lowercase(rest) == "beeps"@ ==> audio_source(kind + seq![':'] + rest)
                == audio_source(kind)
            &&& text::lowercase(rest) == "tone"@ ==> audio_source(kind + seq![':'] + rest) == Ok::<
                AudioSourceView,
                Seq<char>,
            >(AudioSourceView::Test(TestTone::Tone))
            &&& text::lowercase(rest) != "beeps"@ && text::lowercase(rest) != "tone"@
                ==> audio_source(kind + seq![':'] + rest) is Err
        },
{
    identifiers_keep_their_colons(kind, rest);
    lemma_words();
}

/// A file is read by its path, as video and as audio, and starts over at its end where
/// the path is marked with `:loop`; without a path it is no source.
pub proof fn files_keep_their_paths(
    features: Features,
    kind: Seq<char>,
    path: Seq<char>,
    mark: Seq<char>,
)
    requires
        text::lowercase(kind) == "file"@,
        forall|i: int| 0 <= i < kind.len() ==> kind[i] != ':',
        text::ascii_lowercase(mark) == ":loop"@,
    ensures
        path.len() > 0 ==> {
            &&& audio_source(kind + seq![':'] + (path + mark)) == Ok::<AudioSourceView, Seq<char>>(
                AudioSourceView::File { path, looping: true },
            )
            &&& video_source(features, kind + seq![':'] + (path + mark)) == Ok::<
                VideoSourceView,
                Seq<char>,
            >(VideoSourceView::File { path, looping: true })
        },
        path.len() > 0 && !(path.len() >= 5 && text::ascii_lowercase(path.skip(path.len() - 5))
            == ":loop"@) ==> {
            &&& audio_source(kind + seq![':'] + path) == Ok::<AudioSourceView, Seq<char>>(
                AudioSourceView::File { path, looping: false },
            )
            &&& video_source(features, kind + seq![':'] + path) == Ok::<VideoSourceView, Seq<char>>(
                VideoSourceView::File { path, looping: false },
            )
        },
        audio_source(kind) is Err,
        video_source(features, kind) is Err,
        audio_source(kind + seq![':'] + mark) is Err,
        video_source(features, kind + seq![':'] + mark) is Err,
        audio_source(kind + seq![':'] + Seq::<char>::empty()) is Err,
        video_source(features, kind + seq![':'] + Seq::<char>::empty()) is Err,
{
    lemma_words();
    loop_suffix_comes_off(path, mark);
    loop_suffix_comes_off(Seq::empty(), mark);
    assert(Seq::<char>::empty() + mark =~= mark);
    identifiers_keep_their_colons(kind, path);
    identifiers_keep_their_colons(kind, path + mark);
    identifiers_keep_their_colons(kind, mark);
    identifiers_keep_their_colons(kind, Seq::empty());
    assert(text::lowercase(kind)[0] == 'f');
}

/// A camera or a display keeps the id that it is named with, and is the default one
/// where none is given; a window or an application keeps its id and needs one.
pub proof fn video_devices_keep_their_ids(features: Features, kind: Seq<char>, id: Seq<char>)
    requires
        forall|i: int| 0 <= i < kind.len() ==> kind[i] != ':',
    ensures
        text::lowercase(kind) == "cam"@ || text::lowercase(kind) == "camera"@ ==> {
            &&& video_source(features, kind + seq![':'] + id) == Ok::<VideoSourceView, Seq<char>>(
                VideoSourceView::Camera(Some(id)),
            )
            &&& video_source(features, kind) == Ok::<VideoSourceView, Seq<char>>(
                VideoSourceView::Camera(None),
            )
        },
        text::lowercase(kind) == "screen"@ || text::lowercase(kind) == "display"@ ==> {
            &&& video_source(features, kind + seq![':'] + id) == Ok::<VideoSourceView, Seq<char>>(
                VideoSourceView::Display(Some(id)),
            )
            &&& video_source(features, kind) == Ok::<VideoSourceView, Seq<char>>(
                VideoSourceView::Display(None),
            )
        },
        text::lowercase(kind) == "window"@ ==> {
            &&& id.len() > 0 ==> video_source(features, kind + seq![':'] + id) == Ok::<
                VideoSourceView,
                Seq<char>,
            >(VideoSourceView::Window(id))
            &&& video_source(features, kind) is Err
            &&& id.len() == 0 ==> video_source(features, kind + seq![':'] + id) is Err
        },
        text::lowercase(kind) == "app"@ ==> {
            &&& id.len() > 0 ==> video_source(features, kind + seq![':'] + id) == Ok::<
                VideoSourceView,
                Seq<char>,
            >(VideoSourceView::App(id))
            &&& video_source(features, kind) is Err
            &&& id.len() == 0 ==> video_source(features, kind + seq![':'] + id) is Err
        },
{
    lemma_words();
    identifiers_keep_their_colons(kind, id);
    let word = text::lowercase(kind);
    if word == "screen"@ || word == "display"@ || word == "window"@ || word == "app"@ {
        assert(word[0] != 'c');
    }
}

/// The Raspberry Pi camera is a source of the builds that have it, encoded or with
/// `:raw` as pictures, and takes no other suffix; the test pictures are `timing`, which
/// is the default, and `gradient`; and a word that is not known is refused.
pub proof fn other_video_sources_read(features: Features, kind: Seq<char>, rest: Seq<char>)
    requires
        forall|i: int| 0 <= i < kind.len() ==> kind[i] != ':',
    ensures
        text::lowercase(kind) == "rpicam"@ || text::lowercase(kind) == "picam"@ ==> {
            &&& features.rpicam ==> video_source(features, kind) == Ok::<VideoSourceView, Seq<char>>(
                VideoSourceView::Rpicam(RpicamMode::Encoded),
            )
            &&& features.rpicam && text::lowercase(rest) == "raw"@ ==> video_source(
                features,
                kind + seq![':'] + rest,
            ) == Ok::<VideoSourceView, Seq<char>>(VideoSourceView::Rpicam(RpicamMode::Raw))
            &&& !features.rpicam ==> video_source(features, kind) is Err
            &&& !features.rpicam || text::lowercase(rest) != "raw"@ ==> video_source(
                features,
                kind + seq![':'] + rest,
            ) is Err
        },
        text::lowercase(kind) == "test"@ ==> {
            &&& video_source(features, kind) == Ok::<VideoSourceView, Seq<char>>(
                VideoSourceView::Test(TestPattern::Timing),
            )
            &&& text::lowercase(rest) == "timing"@ ==> video_source(
                features,
                kind + seq![':'] + rest,
            ) == video_source(features, kind)
            &&& text::lowercase(rest) == "gradient"@ ==> video_source(
                features,
                kind + seq![':'] + rest,
            ) == Ok::<VideoSourceView, Seq<char>>(VideoSourceView::Test(TestPattern::Gradient))
            &&& text::lowercase(rest) != "timing"@ && text::lowercase(rest) != "gradient"@
                ==> video_source(features, kind + seq![':'] + rest) is Err
        },
        text::lowercase(kind) == "none"@ ==> {
            &&& video_source(features, kind) == Ok::<VideoSourceView, Seq<char>>(
                VideoSourceView::Nothing,
            )
            &&& video_source(features, kind + seq![':'] + rest) == video_source(features, kind)
        },
        text::lowercase(kind) != "cam"@ && text::lowercase(kind) != "camera"@ && text::lowercase(
            kind,
        ) != "screen"@ && text::lowercase(kind) != "display"@ && text::lowercase(kind)
            != "window"@ && text::lowercase(kind) != "app"@ && text::lowercase(kind) != "rpicam"@
            && text::lowercase(kind) != "picam"@ && text::lowercase(kind) != "test"@
            && text::lowercase(kind) != "file"@ && text::lowercase(kind) != "none"@ ==> {
            &&& video_source(features, kind) is Err
            &&& video_source(features, kind + seq![':'] + rest) is Err
        },
{
    lemma_words();
    identifiers_keep_their_colons(kind, rest);
    let word = text::lowercase(kind);
    if word == "rpicam"@ || word == "picam"@ || word == "test"@ || word == "none"@ {
        assert(word[0] == 'r' || word[0] == 'p' || word[0] == 't' || word[0] == 'n');
    }
}

/// A source is seen as what it is, with its id, its path and its mode.
pub proof fn sources_are_seen_whole(video: VideoSourceSpec, audio: AudioSourceSpec)
    ensures
        video matches VideoSourceSpec::Camera(id) ==> video@ == VideoSourceView::Camera(
            text::view_option(id),
        ),
        video matches VideoSourceSpec::Display(id) ==> video@ == VideoSourceView::Display(
            text::view_option(id),
        ),
        video matches VideoSourceSpec::Window(id) ==> video@ == VideoSourceView::Window(id@),
        video matches VideoSourceSpec::App(id) ==> video@ == VideoSourceView::App(id@),
        video matches VideoSourceSpec::Rpicam(mode) ==> video@ == VideoSourceView::Rpicam(mode),
        video matches VideoSourceSpec::Test(pattern) ==> video@ == VideoSourceView::Test(pattern),
        video matches VideoSourceSpec::File { path, looping } ==> video@ == (
        VideoSourceView::File { path: path@, looping }),
        video is Nothing <==> video@ is Nothing,
        audio matches AudioSourceSpec::Microphone(id) ==> audio@ == AudioSourceView::Microphone(
            text::view_option(id),
        ),
        audio is System <==> audio@ is System,
        audio matches AudioSourceSpec::Test(tone) ==> audio@ == AudioSourceView::Test(tone),
        audio matches AudioSourceSpec::File { path, looping } ==> audio@ == (
        AudioSourceView::File { path: path@, looping }),
        audio is Nothing <==> audio@ is Nothing,
{
}

/// What is said of a specifier that is refused: what its kind lacks, or which kinds
/// there are.
pub proof fn refused_video_is_told_why(features: Features, s: Seq<char>)
    requires
        video_source(features, s) is Err,
    ensures
        ({
            let kind = text::lowercase(
                match text::split_at_first(s, ':') {
                    Some((kind, _)) => kind,
                    None => s,
                },
            );
            let why = video_source(features, s)->Err_0;
            &&& kind == "window"@ ==> why == "window: needs an id (e.g. window:1042)"@
            &&& kind == "app"@ ==> why == "app: needs a bundle id (e.g. app:com.apple.Safari)"@
            &&& kind == "file"@ ==> why == "file: needs a path (e.g. file:clip.mp4)"@
            &&& kind == "rpicam"@ && text::split_at_first(s, ':') is None ==> why
                == "rpicam: this build has no Raspberry Pi camera source; it needs Linux and the 'rpicam' feature"@
                && !features.rpicam
            &&& kind != "cam"@ && kind != "camera"@ && kind != "screen"@ && kind != "display"@
                && kind != "none"@
            &&& kind != "window"@ && kind != "app"@ && kind != "file"@ && kind != "rpicam"@ && kind
                != "picam"@ && kind != "test"@ ==> why == "unknown video source '"@ + kind
                + "': expected cam, screen, window, app, rpicam, rpicam:raw, file, test, or none"@
        }),
{
    lemma_words();
}

/// What is said of a mode, a pattern or a tone that there is none of: which there are.
pub proof fn unknown_forms_are_told_what_there_is(features: Features, s: Seq<char>)
    ensures
        text::split_at_first(s, ':') matches Some((kind, rest)) ==> {
            let word = text::lowercase(kind);
            let form = text::lowercase(rest);
            &&& (word == "rpicam"@ || word == "picam"@) && form != "raw"@
                ==> video_source(features, s) == Err::<VideoSourceView, Seq<char>>(
                "rpicam: takes no camera id, and the only suffix is ':raw' for uncompressed pictures; got '"@
                    + form + "'"@,
            )
            &&& word == "test"@ && form != "timing"@ && form != "gradient"@
                ==> video_source(features, s) == Err::<VideoSourceView, Seq<char>>(
                "test: the patterns are 'timing' (the default) and 'gradient'; got '"@ + form
                    + "'"@,
            )
            &&& word == "test"@ && form != "beeps"@ && form != "tone"@
                ==> audio_source(s) == Err::<AudioSourceView, Seq<char>>(
                "test: the tones are 'beeps' (the default) and 'tone'; got '"@ + form + "'"@,
            )
            &&& word == "file"@ && rest.len() == 0 ==> audio_source(s) == Err::<
                AudioSourceView,
                Seq<char>,
            >("file: needs a path (e.g. file:music.mp3)"@)
        },
{
    lemma_words();
}

} // verus!
