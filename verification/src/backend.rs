//! Backend selection for `--encoder` and `--decoder`.
//!
//! Both flags name either a strategy (try everything, hardware only, software
//! only) or one backend and nothing else. Spelling the backends out is what
//! makes an unknown name a parse error, rather than a failure long after the
//! capture devices are open.

use vstd::prelude::*;
use vstd::string::*;

use crate::text;

verus! {

/// Whether a flag's value is the word `word`.
pub open spec fn matches_word(input: Seq<char>, word: Seq<char>, ignore_case: bool) -> bool {
    if ignore_case {
        text::ascii_lowercase(input) == text::ascii_lowercase(word)
    } else {
        input == word
    }
}

fn is_word(input: &str, word: &str, ignore_case: bool) -> (r: bool)
    ensures
        r == matches_word(input@, word@, ignore_case),
{
    if ignore_case {
        text::same_ignoring_case(input, word)
    } else {
        text::same(input, word)
    }
}

/// Which codec backends the media stack is to try.
#[derive(Debug, PartialEq, Eq)]
pub enum Kind {
    /// Hardware in turn, then software.
    Auto,
    /// Hardware only.
    Hardware,
    /// Software only.
    Software,
    /// One backend, by its name.
    Named(String),
}

/// A [`Kind`], with its name as a sequence of characters.
pub enum KindView {
    /// Hardware in turn, then software.
    Auto,
    /// Hardware only.
    Hardware,
    /// Software only.
    Software,
    /// One backend, by its name.
    Named(Seq<char>),
}

impl View for Kind {
    type V = KindView;

    open spec fn view(&self) -> KindView {
        match *self {
            Kind::Auto => KindView::Auto,
            Kind::Hardware => KindView::Hardware,
            Kind::Software => KindView::Software,
            Kind::Named(name) => KindView::Named(name@),
        }
    }
}

impl Clone for Kind {
    fn clone(&self) -> (r: Kind)
        ensures
            r@ == self@,
    {
        match self {
            Kind::Auto => Kind::Auto,
            Kind::Hardware => Kind::Hardware,
            Kind::Software => Kind::Software,
            Kind::Named(name) => Kind::Named(name.clone()),
        }
    }
}

/// The video encoder `--encoder` selects.
#[derive(Debug, Clone, Copy, PartialEq, Eq, Structural)]
pub enum EncoderArg {
    /// Try the platform's hardware encoders in turn, then software.
    Auto,
    /// Hardware only: fail rather than fall back to the CPU.
    Hardware,
    /// Software only, which is openh264.
    Software,
    /// Apple VideoToolbox, on macOS.
    Videotoolbox,
    /// Media Foundation, on Windows.
    Mediafoundation,
    /// MediaCodec, on Android.
    Mediacodec,
    /// NVENC, on an NVIDIA GPU.
    Nvenc,
    /// VA-API, on an Intel or AMD GPU under Linux.
    Vaapi,
    /// A V4L2 memory-to-memory codec node, on an ARM SoC.
    V4l2,
    /// openh264, the software encoder, by name.
    Openh264,
}

impl Default for EncoderArg {
    fn default() -> (r: EncoderArg)
        ensures
            r == EncoderArg::Auto,
    {
        EncoderArg::Auto
    }
}

impl EncoderArg {
    /// The word the flag takes for this encoder.
    pub open spec fn spelled(self) -> Seq<char> {
        match self {
            EncoderArg::Auto => "auto"@,
            EncoderArg::Hardware => "hardware"@,
            EncoderArg::Software => "software"@,
            EncoderArg::Videotoolbox => "videotoolbox"@,
            EncoderArg::Mediafoundation => "mediafoundation"@,
            EncoderArg::Mediacodec => "mediacodec"@,
            EncoderArg::Nvenc => "nvenc"@,
            EncoderArg::Vaapi => "vaapi"@,
            EncoderArg::V4l2 => "v4l2"@,
            EncoderArg::Openh264 => "openh264"@,
        }
    }

    /// The encoder that the flag's value `input` names, if it names one.
    pub open spec fn named(input: Seq<char>, ignore_case: bool) -> Option<EncoderArg> {
        if matches_word(input, "auto"@, ignore_case) {
            Some(EncoderArg::Auto)
        } else if matches_word(input, "hardware"@, ignore_case) || matches_word(input, "hw"@, ignore_case) {
            Some(EncoderArg::Hardware)
        } else if matches_word(input, "software"@, ignore_case) || matches_word(input, "sw"@, ignore_case) {
            Some(EncoderArg::Software)
        } else if matches_word(input, "videotoolbox"@, ignore_case) {
            Some(EncoderArg::Videotoolbox)
        } else if matches_word(input, "mediafoundation"@, ignore_case) {
            Some(EncoderArg::Mediafoundation)
        } else if matches_word(input, "mediacodec"@, ignore_case) {
            Some(EncoderArg::Mediacodec)
        } else if matches_word(input, "nvenc"@, ignore_case) {
            Some(EncoderArg::Nvenc)
        } else if matches_word(input, "vaapi"@, ignore_case) {
            Some(EncoderArg::Vaapi)
        } else if matches_word(input, "v4l2"@, ignore_case) {
            Some(EncoderArg::V4l2)
        } else if matches_word(input, "openh264"@, ignore_case) {
            Some(EncoderArg::Openh264)
        } else {
            None
        }
    }

    /// The word the flag takes for this encoder.
    pub fn name(self) -> (r: &'static str)
        ensures
            r@ == self.spelled(),
            r@ == (match self {
                EncoderArg::Auto => "auto"@,
                EncoderArg::Hardware => "hardware"@,
                EncoderArg::Software => "software"@,
                EncoderArg::Videotoolbox => "videotoolbox"@,
                EncoderArg::Mediafoundation => "mediafoundation"@,
                EncoderArg::Mediacodec => "mediacodec"@,
                EncoderArg::Nvenc => "nvenc"@,
                EncoderArg::Vaapi => "vaapi"@,
                EncoderArg::V4l2 => "v4l2"@,
                EncoderArg::Openh264 => "openh264"@,
            }),
    {
        match self {
            EncoderArg::Auto => "auto",
            EncoderArg::Hardware => "hardware",
            EncoderArg::Software => "software",
            EncoderArg::Videotoolbox => "videotoolbox",
            EncoderArg::Mediafoundation => "mediafoundation",
            EncoderArg::Mediacodec => "mediacodec",
            EncoderArg::Nvenc => "nvenc",
            EncoderArg::Vaapi => "vaapi",
            EncoderArg::V4l2 => "v4l2",
            EncoderArg::Openh264 => "openh264",
        }
    }

    /// Every encoder, in the order the flag lists them.
    pub fn value_variants() -> (r: Vec<EncoderArg>)
        ensures
            r@ == seq![EncoderArg::Auto, EncoderArg::Hardware, EncoderArg::Software, EncoderArg::Videotoolbox, EncoderArg::Mediafoundation, EncoderArg::Mediacodec, EncoderArg::Nvenc, EncoderArg::Vaapi, EncoderArg::V4l2, EncoderArg::Openh264],
            forall|arg: EncoderArg| r@.contains(arg),
    {
        let r = vec![EncoderArg::Auto, EncoderArg::Hardware, EncoderArg::Software, EncoderArg::Videotoolbox, EncoderArg::Mediafoundation, EncoderArg::Mediacodec, EncoderArg::Nvenc, EncoderArg::Vaapi, EncoderArg::V4l2, EncoderArg::Openh264];
        proof {
            assert(r@ =~= seq![EncoderArg::Auto, EncoderArg::Hardware, EncoderArg::Software, EncoderArg::Videotoolbox, EncoderArg::Mediafoundation, EncoderArg::Mediacodec, EncoderArg::Nvenc, EncoderArg::Vaapi, EncoderArg::V4l2, EncoderArg::Openh264]);
            assert forall|arg: EncoderArg| r@.contains(arg) by {
                let at: int = match arg {
                    EncoderArg::Auto => 0,
                    EncoderArg::Hardware => 1,
                    EncoderArg::Software => 2,
                    EncoderArg::Videotoolbox => 3,
                    EncoderArg::Mediafoundation => 4,
                    EncoderArg::Mediacodec => 5,
                    EncoderArg::Nvenc => 6,
                    EncoderArg::Vaapi => 7,
                    EncoderArg::V4l2 => 8,
                    EncoderArg::Openh264 => 9,
                };
                assert(r@[at] == arg);
            }
        }
        r
    }

    /// Reads the flag's value, by its word or, for the two strategies, by the
    /// short spelling.
    ///
    /// # Errors
    ///
    /// Fails with the value if no encoder has that name.
    pub fn from_str(input: &str, ignore_case: bool) -> (r: Result<EncoderArg, String>)
        ensures
            match r {
                Ok(arg) => EncoderArg::named(input@, ignore_case) == Some(arg),
                Err(e) => EncoderArg::named(input@, ignore_case) is None && e@ == "invalid variant: "@
                    + input@,
            },
    {
        if is_word(input, "auto", ignore_case) {
            Ok(EncoderArg::Auto)
        } else if is_word(input, "hardware", ignore_case) || is_word(input, "hw", ignore_case) {
            Ok(EncoderArg::Hardware)
        } else if is_word(input, "software", ignore_case) || is_word(input, "sw", ignore_case) {
            Ok(EncoderArg::Software)
        } else if is_word(input, "videotoolbox", ignore_case) {
            Ok(EncoderArg::Videotoolbox)
        } else if is_word(input, "mediafoundation", ignore_case) {
            Ok(EncoderArg::Mediafoundation)
        } else if is_word(input, "mediacodec", ignore_case) {
            Ok(EncoderArg::Mediacodec)
        } else if is_word(input, "nvenc", ignore_case) {
            Ok(EncoderArg::Nvenc)
        } else if is_word(input, "vaapi", ignore_case) {
            Ok(EncoderArg::Vaapi)
        } else if is_word(input, "v4l2", ignore_case) {
            Ok(EncoderArg::V4l2)
        } else if is_word(input, "openh264", ignore_case) {
            Ok(EncoderArg::Openh264)
        } else {
            Err(text::join2("invalid variant: ", input))
        }
    }

    /// What the encoder selection asks of the media stack.
    pub open spec fn kind_view(self) -> KindView {
        match self {
            EncoderArg::Auto => KindView::Auto,
            EncoderArg::Hardware => KindView::Hardware,
            EncoderArg::Software => KindView::Software,
            named => KindView::Named(named.spelled()),
        }
    }

    /// What the encoder selection asks of the media stack: a strategy for a
    /// strategy, and a backend by its name.
    pub fn kind(self) -> (r: Kind)
        ensures
            r@ == self.kind_view(),
    {
        match self {
            EncoderArg::Auto => Kind::Auto,
            EncoderArg::Hardware => Kind::Hardware,
            EncoderArg::Software => Kind::Software,
            named => Kind::Named(named.name().to_owned()),
        }
    }
}

/// The video decoder `--decoder` selects.
#[derive(Debug, Clone, Copy, PartialEq, Eq, Structural)]
pub enum DecoderArg {
    /// Try the platform's hardware decoders in turn, then software.
    Auto,
    /// Hardware only: fail rather than fall back to the CPU.
    Hardware,
    /// Software only, which is openh264.
    Software,
    /// Apple VideoToolbox, on macOS.
    Videotoolbox,
    /// Media Foundation, on Windows.
    Mediafoundation,
    /// MediaCodec, on Android.
    Mediacodec,
    /// NVDEC, on an NVIDIA GPU.
    Nvdec,
    /// VA-API, on an Intel or AMD GPU under Linux.
    Vaapi,
    /// A V4L2 memory-to-memory codec node, on an ARM SoC.
    V4l2,
    /// openh264, the software decoder, by name.
    Openh264,
}

impl Default for DecoderArg {
    fn default() -> (r: DecoderArg)
        ensures
            r == DecoderArg::Auto,
    {
        DecoderArg::Auto
    }
}

impl DecoderArg {
    /// The word the flag takes for this decoder.
    pub open spec fn spelled(self) -> Seq<char> {
        match self {
            DecoderArg::Auto => "auto"@,
            DecoderArg::Hardware => "hardware"@,
            DecoderArg::Software => "software"@,
            DecoderArg::Videotoolbox => "videotoolbox"@,
            DecoderArg::Mediafoundation => "mediafoundation"@,
            DecoderArg::Mediacodec => "mediacodec"@,
            DecoderArg::Nvdec => "nvdec"@,
            DecoderArg::Vaapi => "vaapi"@,
            DecoderArg::V4l2 => "v4l2"@,
            DecoderArg::Openh264 => "openh264"@,
        }
    }

    /// The decoder that the flag's value `input` names, if it names one.
    pub open spec fn named(input: Seq<char>, ignore_case: bool) -> Option<DecoderArg> {
        if matches_word(input, "auto"@, ignore_case) {
            Some(DecoderArg::Auto)
        } else if matches_word(input, "hardware"@, ignore_case) || matches_word(input, "hw"@, ignore_case) {
            Some(DecoderArg::Hardware)
        } else if matches_word(input, "software"@, ignore_case) || matches_word(input, "sw"@, ignore_case) {
            Some(DecoderArg::Software)
        } else if matches_word(input, "videotoolbox"@, ignore_case) {
            Some(DecoderArg::Videotoolbox)
        } else if matches_word(input, "mediafoundation"@, ignore_case) {
            Some(DecoderArg::Mediafoundation)
        } else if matches_word(input, "mediacodec"@, ignore_case) {
            Some(DecoderArg::Mediacodec)
        } else if matches_word(input, "nvdec"@, ignore_case) {
            Some(DecoderArg::Nvdec)
        } else if matches_word(input, "vaapi"@, ignore_case) {
            Some(DecoderArg::Vaapi)
        } else if matches_word(input, "v4l2"@, ignore_case) {
            Some(DecoderArg::V4l2)
        } else if matches_word(input, "openh264"@, ignore_case) {
            Some(DecoderArg::Openh264)
        } else {
            None
        }
    }

    /// The word the flag takes for this decoder.
    pub fn name(self) -> (r: &'static str)
        ensures
            r@ == self.spelled(),
            r@ == (match self {
                DecoderArg::Auto => "auto"@,
                DecoderArg::Hardware => "hardware"@,
                DecoderArg::Software => "software"@,
                DecoderArg::Videotoolbox => "videotoolbox"@,
                DecoderArg::Mediafoundation => "mediafoundation"@,
                DecoderArg::Mediacodec => "mediacodec"@,
                DecoderArg::Nvdec => "nvdec"@,
                DecoderArg::Vaapi => "vaapi"@,
                DecoderArg::V4l2 => "v4l2"@,
                DecoderArg::Openh264 => "openh264"@,
            }),
    {
        match self {
            DecoderArg::Auto => "auto",
            DecoderArg::Hardware => "hardware",
            DecoderArg::Software => "software",
            DecoderArg::Videotoolbox => "videotoolbox",
            DecoderArg::Mediafoundation => "mediafoundation",
            DecoderArg::Mediacodec => "mediacodec",
            DecoderArg::Nvdec => "nvdec",
            DecoderArg::Vaapi => "vaapi",
            DecoderArg::V4l2 => "v4l2",
            DecoderArg::Openh264 => "openh264",
        }
    }

    /// Every value the flag takes, in the order it lists them.
    pub open spec fn variants() -> Seq<DecoderArg> {
        seq![
            DecoderArg::Auto,
            DecoderArg::Hardware,
            DecoderArg::Software,
            DecoderArg::Videotoolbox,
            DecoderArg::Mediafoundation,
            DecoderArg::Mediacodec,
            DecoderArg::Nvdec,
            DecoderArg::Vaapi,
            DecoderArg::V4l2,
            DecoderArg::Openh264,
        ]
    }

    /// Every decoder, in the order the flag lists them.
    pub fn value_variants() -> (r: Vec<DecoderArg>)
        ensures
            r@ == DecoderArg::variants(),
            r@ == seq![DecoderArg::Auto, DecoderArg::Hardware, DecoderArg::Software, DecoderArg::Videotoolbox, DecoderArg::Mediafoundation, DecoderArg::Mediacodec, DecoderArg::Nvdec, DecoderArg::Vaapi, DecoderArg::V4l2, DecoderArg::Openh264],
            forall|arg: DecoderArg| r@.contains(arg),
    {
        let r = vec![DecoderArg::Auto, DecoderArg::Hardware, DecoderArg::Software, DecoderArg::Videotoolbox, DecoderArg::Mediafoundation, DecoderArg::Mediacodec, DecoderArg::Nvdec, DecoderArg::Vaapi, DecoderArg::V4l2, DecoderArg::Openh264];
        proof {
            assert(r@ =~= seq![DecoderArg::Auto, DecoderArg::Hardware, DecoderArg::Software, DecoderArg::Videotoolbox, DecoderArg::Mediafoundation, DecoderArg::Mediacodec, DecoderArg::Nvdec, DecoderArg::Vaapi, DecoderArg::V4l2, DecoderArg::Openh264]);
            assert forall|arg: DecoderArg| r@.contains(arg) by {
                let at: int = match arg {
                    DecoderArg::Auto => 0,
                    DecoderArg::Hardware => 1,
                    DecoderArg::Software => 2,
                    DecoderArg::Videotoolbox => 3,
                    DecoderArg::Mediafoundation => 4,
                    DecoderArg::Mediacodec => 5,
                    DecoderArg::Nvdec => 6,
                    DecoderArg::Vaapi => 7,
                    DecoderArg::V4l2 => 8,
                    DecoderArg::Openh264 => 9,
                };
                assert(r@[at] == arg);
            }
        }
        r
    }

    /// Reads the flag's value, by its word or, for the two strategies, by the
    /// short spelling.
    ///
    /// # Errors
    ///
    /// Fails with the value if no decoder has that name.
    pub fn from_str(input: &str, ignore_case: bool) -> (r: Result<DecoderArg, String>)
        ensures
            match r {
                Ok(arg) => DecoderArg::named(input@, ignore_case) == Some(arg),
                Err(e) => DecoderArg::named(input@, ignore_case) is None && e@ == "invalid variant: "@
                    + input@,
            },
    {
        if is_word(input, "auto", ignore_case) {
            Ok(DecoderArg::Auto)
        } else if is_word(input, "hardware", ignore_case) || is_word(input, "hw", ignore_case) {
            Ok(DecoderArg::Hardware)
        } else if is_word(input, "software", ignore_case) || is_word(input, "sw", ignore_case) {
            Ok(DecoderArg::Software)
        } else if is_word(input, "videotoolbox", ignore_case) {
            Ok(DecoderArg::Videotoolbox)
        } else if is_word(input, "mediafoundation", ignore_case) {
            Ok(DecoderArg::Mediafoundation)
        } else if is_word(input, "mediacodec", ignore_case) {
            Ok(DecoderArg::Mediacodec)
        } else if is_word(input, "nvdec", ignore_case) {
            Ok(DecoderArg::Nvdec)
        } else if is_word(input, "vaapi", ignore_case) {
            Ok(DecoderArg::Vaapi)
        } else if is_word(input, "v4l2", ignore_case) {
            Ok(DecoderArg::V4l2)
        } else if is_word(input, "openh264", ignore_case) {
            Ok(DecoderArg::Openh264)
        } else {
            Err(text::join2("invalid variant: ", input))
        }
    }

    /// What the decoder selection asks of the media stack.
    pub open spec fn kind_view(self) -> KindView {
        match self {
            DecoderArg::Auto => KindView::Auto,
            DecoderArg::Hardware => KindView::Hardware,
            DecoderArg::Software => KindView::Software,
            named => KindView::Named(named.spelled()),
        }
    }

    /// What the decoder selection asks of the media stack: a strategy for a
    /// strategy, and a backend by its name.
    pub fn kind(self) -> (r: Kind)
        ensures
            r@ == self.kind_view(),
    {
        match self {
            DecoderArg::Auto => Kind::Auto,
            DecoderArg::Hardware => Kind::Hardware,
            DecoderArg::Software => Kind::Software,
            named => Kind::Named(named.name().to_owned()),
        }
    }
}

impl DecoderArg {
    /// The selection that `kind` stands for, and [`Auto`](Self::Auto) for
    /// anything the flag cannot spell.
    pub open spec fn of_kind(kind: KindView) -> DecoderArg {
        match kind {
            KindView::Hardware => DecoderArg::Hardware,
            KindView::Software => DecoderArg::Software,
            KindView::Named(name) => match DecoderArg::named(name, true) {
                Some(arg) => arg,
                None => DecoderArg::Auto,
            },
            KindView::Auto => DecoderArg::Auto,
        }
    }

    /// The selection `kind` stands for, or [`Auto`](Self::Auto) for anything
    /// this flag cannot spell.
    ///
    /// Reads back what [`kind`](Self::kind) wrote, so a window can seed its
    /// picker from the policy the broadcast is already playing under.
    pub fn from_kind(kind: &Kind) -> (r: DecoderArg)
        ensures
            r == DecoderArg::of_kind(kind@),
    {
        match kind {
            Kind::Hardware => DecoderArg::Hardware,
            Kind::Software => DecoderArg::Software,
            Kind::Named(name) => match DecoderArg::from_str(name.as_str(), true) {
                Ok(arg) => arg,
                Err(_) => DecoderArg::Auto,
            },
            Kind::Auto => DecoderArg::Auto,
        }
    }
}

/// The words of the two flags differ in length or in one of their first two
/// letters, all of which are small.
proof fn lemma_words_apart(a: Seq<char>, b: Seq<char>)
    requires
        a.len() >= 2,
        b.len() >= 2,
        a.len() != b.len() || text::ascii_lower(a[0]) != text::ascii_lower(b[0])
            || text::ascii_lower(a[1]) != text::ascii_lower(b[1]) || text::ascii_lower(a[2])
            != text::ascii_lower(b[2]) && a.len() > 2,
    ensures
        !matches_word(a, b, true),
        !matches_word(a, b, false),
{
    let x = text::ascii_lowercase(a);
    let y = text::ascii_lowercase(b);
    assert(x.len() == a.len() && y.len() == b.len());
    assert(x[0] == text::ascii_lower(a[0]) && x[1] == text::ascii_lower(a[1]));
    if x == y {
        assert(y[0] == text::ascii_lower(b[0]) && y[1] == text::ascii_lower(b[1]));
        if a.len() > 2 {
            assert(x[2] == text::ascii_lower(a[2]));
            assert(y[2] == text::ascii_lower(b[2]));
        }
    }
}

/// Every encoder is read back from its own word, in either case mode.
pub proof fn encoder_names_read_back(arg: EncoderArg, ignore_case: bool)
    ensures
        EncoderArg::named(arg.spelled(), ignore_case) == Some(arg),
{
    reveal_strlit("auto");
    reveal_strlit("hardware");
    reveal_strlit("software");
    reveal_strlit("videotoolbox");
    reveal_strlit("mediafoundation");
    reveal_strlit("mediacodec");
    reveal_strlit("nvenc");
    reveal_strlit("vaapi");
    reveal_strlit("v4l2");
    reveal_strlit("openh264");
    reveal_strlit("hw");
    reveal_strlit("sw");
    let word = arg.spelled();
    match arg {
        EncoderArg::Auto => {
        },
        EncoderArg::Hardware => {
            lemma_words_apart(word, "auto"@);
        },
        EncoderArg::Software => {
            lemma_words_apart(word, "auto"@);
            lemma_words_apart(word, "hardware"@);
            lemma_words_apart(word, "hw"@);
        },
        EncoderArg::Videotoolbox => {
            lemma_words_apart(word, "auto"@);
            lemma_words_apart(word, "hardware"@);
            lemma_words_apart(word, "hw"@);
            lemma_words_apart(word, "software"@);
            lemma_words_apart(word, "sw"@);
        },
        EncoderArg::Mediafoundation => {
            lemma_words_apart(word, "auto"@);
            lemma_words_apart(word, "hardware"@);
            lemma_words_apart(word, "hw"@);
            lemma_words_apart(word, "software"@);
            lemma_words_apart(word, "sw"@);
            lemma_words_apart(word, "videotoolbox"@);
        },
        EncoderArg::Mediacodec => {
            lemma_words_apart(word, "auto"@);
            lemma_words_apart(word, "hardware"@);
            lemma_words_apart(word, "hw"@);
            lemma_words_apart(word, "software"@);
            lemma_words_apart(word, "sw"@);
            lemma_words_apart(word, "videotoolbox"@);
            lemma_words_apart(word, "mediafoundation"@);
        },
        EncoderArg::Nvenc => {
            lemma_words_apart(word, "auto"@);
            lemma_words_apart(word, "hardware"@);
            lemma_words_apart(word, "hw"@);
            lemma_words_apart(word, "software"@);
            lemma_words_apart(word, "sw"@);
            lemma_words_apart(word, "videotoolbox"@);
            lemma_words_apart(word, "mediafoundation"@);
            lemma_words_apart(word, "mediacodec"@);
        },
        EncoderArg::Vaapi => {
            lemma_words_apart(word, "auto"@);
            lemma_words_apart(word, "hardware"@);
            lemma_words_apart(word, "hw"@);
            lemma_words_apart(word, "software"@);
            lemma_words_apart(word, "sw"@);
            lemma_words_apart(word, "videotoolbox"@);
            lemma_words_apart(word, "mediafoundation"@);
            lemma_words_apart(word, "mediacodec"@);
            lemma_words_apart(word, "nvenc"@);
        },
        EncoderArg::V4l2 => {
            lemma_words_apart(word, "auto"@);
            lemma_words_apart(word, "hardware"@);
            lemma_words_apart(word, "hw"@);
            lemma_words_apart(word, "software"@);
            lemma_words_apart(word, "sw"@);
            lemma_words_apart(word, "videotoolbox"@);
            lemma_words_apart(word, "mediafoundation"@);
            lemma_words_apart(word, "mediacodec"@);
            lemma_words_apart(word, "nvenc"@);
            lemma_words_apart(word, "vaapi"@);
        },
        EncoderArg::Openh264 => {
            lemma_words_apart(word, "auto"@);
            lemma_words_apart(word, "hardware"@);
            lemma_words_apart(word, "hw"@);
            lemma_words_apart(word, "software"@);
            lemma_words_apart(word, "sw"@);
            lemma_words_apart(word, "videotoolbox"@);
            lemma_words_apart(word, "mediafoundation"@);
            lemma_words_apart(word, "mediacodec"@);
            lemma_words_apart(word, "nvenc"@);
            lemma_words_apart(word, "vaapi"@);
            lemma_words_apart(word, "v4l2"@);
        },
    }
}

/// Every decoder is read back from its own word, in either case mode.
pub proof fn decoder_names_read_back(arg: DecoderArg, ignore_case: bool)
    ensures
        DecoderArg::named(arg.spelled(), ignore_case) == Some(arg),
{
    reveal_strlit("auto");
    reveal_strlit("hardware");
    reveal_strlit("software");
    reveal_strlit("videotoolbox");
    reveal_strlit("mediafoundation");
    reveal_strlit("mediacodec");
    reveal_strlit("nvdec");
    reveal_strlit("vaapi");
    reveal_strlit("v4l2");
    reveal_strlit("openh264");
    reveal_strlit("hw");
    reveal_strlit("sw");
    let word = arg.spelled();
    match arg {
        DecoderArg::Auto => {
        },
        DecoderArg::Hardware => {
            lemma_words_apart(word, "auto"@);
        },
        DecoderArg::Software => {
            lemma_words_apart(word, "auto"@);
            lemma_words_apart(word, "hardware"@);
            lemma_words_apart(word, "hw"@);
        },
        DecoderArg::Videotoolbox => {
            lemma_words_apart(word, "auto"@);
            lemma_words_apart(word, "hardware"@);
            lemma_words_apart(word, "hw"@);
            lemma_words_apart(word, "software"@);
            lemma_words_apart(word, "sw"@);
        },
        DecoderArg::Mediafoundation => {
            lemma_words_apart(word, "auto"@);
            lemma_words_apart(word, "hardware"@);
            lemma_words_apart(word, "hw"@);
            lemma_words_apart(word, "software"@);
            lemma_words_apart(word, "sw"@);
            lemma_words_apart(word, "videotoolbox"@);
        },
        DecoderArg::Mediacodec => {
            lemma_words_apart(word, "auto"@);
            lemma_words_apart(word, "hardware"@);
            lemma_words_apart(word, "hw"@);
            lemma_words_apart(word, "software"@);
            lemma_words_apart(word, "sw"@);
            lemma_words_apart(word, "videotoolbox"@);
            lemma_words_apart(word, "mediafoundation"@);
        },
        DecoderArg::Nvdec => {
            lemma_words_apart(word, "auto"@);
            lemma_words_apart(word, "hardware"@);
            lemma_words_apart(word, "hw"@);
            lemma_words_apart(word, "software"@);
            lemma_words_apart(word, "sw"@);
            lemma_words_apart(word, "videotoolbox"@);
            lemma_words_apart(word, "mediafoundation"@);
            lemma_words_apart(word, "mediacodec"@);
        },
        DecoderArg::Vaapi => {
            lemma_words_apart(word, "auto"@);
            lemma_words_apart(word, "hardware"@);
            lemma_words_apart(word, "hw"@);
            lemma_words_apart(word, "software"@);
            lemma_words_apart(word, "sw"@);
            lemma_words_apart(word, "videotoolbox"@);
            lemma_words_apart(word, "mediafoundation"@);
            lemma_words_apart(word, "mediacodec"@);
            lemma_words_apart(word, "nvdec"@);
        },
        DecoderArg::V4l2 => {
            lemma_words_apart(word, "auto"@);
            lemma_words_apart(word, "hardware"@);
            lemma_words_apart(word, "hw"@);
            lemma_words_apart(word, "software"@);
            lemma_words_apart(word, "sw"@);
            lemma_words_apart(word, "videotoolbox"@);
            lemma_words_apart(word, "mediafoundation"@);
            lemma_words_apart(word, "mediacodec"@);
            lemma_words_apart(word, "nvdec"@);
            lemma_words_apart(word, "vaapi"@);
        },
        DecoderArg::Openh264 => {
            lemma_words_apart(word, "auto"@);
            lemma_words_apart(word, "hardware"@);
            lemma_words_apart(word, "hw"@);
            lemma_words_apart(word, "software"@);
            lemma_words_apart(word, "sw"@);
            lemma_words_apart(word, "videotoolbox"@);
            lemma_words_apart(word, "mediafoundation"@);
            lemma_words_apart(word, "mediacodec"@);
            lemma_words_apart(word, "nvdec"@);
            lemma_words_apart(word, "vaapi"@);
            lemma_words_apart(word, "v4l2"@);
        },
    }
}

/// A decoder selection survives the trip through what the media stack is asked
/// for.
pub proof fn decoder_selection_survives_the_round_trip(arg: DecoderArg)
    ensures
        DecoderArg::of_kind(arg.kind_view()) == arg,
{
    decoder_names_read_back(arg, true);
}

/// The two strategies have a short spelling each, `hw` and `sw`, for encoders and for
/// decoders; and a backend is asked for by its own word and nothing else.
pub proof fn strategies_have_short_spellings(ignore_case: bool)
    ensures
        EncoderArg::named("hw"@, ignore_case) == Some(EncoderArg::Hardware),
        EncoderArg::named("sw"@, ignore_case) == Some(EncoderArg::Software),
        DecoderArg::named("hw"@, ignore_case) == Some(DecoderArg::Hardware),
        DecoderArg::named("sw"@, ignore_case) == Some(DecoderArg::Software),
{
    reveal_strlit("auto");
    reveal_strlit("hardware");
    reveal_strlit("software");
    reveal_strlit("hw");
    reveal_strlit("sw");
    assert("hw"@.len() == 2 && "sw"@.len() == 2);
    assert(text::ascii_lowercase("hw"@).len() == 2 && text::ascii_lowercase("sw"@).len() == 2);
    assert(text::ascii_lowercase("auto"@).len() == 4);
    assert(text::ascii_lowercase("hardware"@).len() == 8);
    assert(text::ascii_lowercase("software"@).len() == 8);
    assert(text::ascii_lowercase("sw"@)[0] == 's');
    assert(text::ascii_lowercase("hw"@)[0] == 'h');
}

/// A strategy asks the media stack for a strategy, and any other choice for the backend
/// that its word names.
pub proof fn backends_are_asked_for_by_name(encoder: EncoderArg, decoder: DecoderArg)
    ensures
        encoder.kind_view() == (match encoder {
            EncoderArg::Auto => KindView::Auto,
            EncoderArg::Hardware => KindView::Hardware,
            EncoderArg::Software => KindView::Software,
            EncoderArg::Videotoolbox => KindView::Named("videotoolbox"@),
            EncoderArg::Mediafoundation => KindView::Named("mediafoundation"@),
            EncoderArg::Mediacodec => KindView::Named("mediacodec"@),
            EncoderArg::Nvenc => KindView::Named("nvenc"@),
            EncoderArg::Vaapi => KindView::Named("vaapi"@),
            EncoderArg::V4l2 => KindView::Named("v4l2"@),
            EncoderArg::Openh264 => KindView::Named("openh264"@),
        }),
        decoder.kind_view() == (match decoder {
            DecoderArg::Auto => KindView::Auto,
            DecoderArg::Hardware => KindView::Hardware,
            DecoderArg::Software => KindView::Software,
            DecoderArg::Videotoolbox => KindView::Named("videotoolbox"@),
            DecoderArg::Mediafoundation => KindView::Named("mediafoundation"@),
            DecoderArg::Mediacodec => KindView::Named("mediacodec"@),
            DecoderArg::Nvdec => KindView::Named("nvdec"@),
            DecoderArg::Vaapi => KindView::Named("vaapi"@),
            DecoderArg::V4l2 => KindView::Named("v4l2"@),
            DecoderArg::Openh264 => KindView::Named("openh264"@),
        }),
{
}

/// Whatever a flag's value names, it is the word of what it names or its short
/// spelling, up to the case of its letters where that is ignored.
pub proof fn values_are_words(input: Seq<char>, ignore_case: bool)
    ensures
        EncoderArg::named(input, ignore_case) matches Some(arg) ==> {
            ||| matches_word(input, arg.spelled(), ignore_case)
            ||| arg == EncoderArg::Hardware && matches_word(input, "hw"@, ignore_case)
            ||| arg == EncoderArg::Software && matches_word(input, "sw"@, ignore_case)
        },
        DecoderArg::named(input, ignore_case) matches Some(arg) ==> {
            ||| matches_word(input, arg.spelled(), ignore_case)
            ||| arg == DecoderArg::Hardware && matches_word(input, "hw"@, ignore_case)
            ||| arg == DecoderArg::Software && matches_word(input, "sw"@, ignore_case)
        },
        matches_word(input, input, ignore_case),
        forall|word: Seq<char>|
            #[trigger] matches_word(input, word, false) <==> input == word,
        forall|word: Seq<char>|
            #[trigger] matches_word(input, word, true) <==> text::ascii_lowercase(input)
                == text::ascii_lowercase(word),
{
}

/// A kind that the flag cannot spell is played as the default, and the strategies as
/// themselves.
pub proof fn kinds_are_selections(name: Seq<char>)
    ensures
        DecoderArg::of_kind(KindView::Auto) == DecoderArg::Auto,
        DecoderArg::of_kind(KindView::Hardware) == DecoderArg::Hardware,
        DecoderArg::of_kind(KindView::Software) == DecoderArg::Software,
        DecoderArg::named(name, true) is None ==> DecoderArg::of_kind(KindView::Named(name))
            == DecoderArg::Auto,
        DecoderArg::named(name, true) matches Some(arg) ==> DecoderArg::of_kind(
            KindView::Named(name),
        ) == arg,
{
}

/// A selection is seen as what it is.
pub proof fn kinds_are_seen_whole(kind: Kind)
    ensures
        kind is Auto <==> kind@ is Auto,
        kind is Hardware <==> kind@ is Hardware,
        kind is Software <==> kind@ is Software,
        kind matches Kind::Named(name) ==> kind@ == KindView::Named(name@),
{
}

} // verus!
