//! The `--renditions` grammar, and the capture frame rate it settles.
//!
//! A rung is `[<name>:]<geometry>[@<fps>]`, so `720p`, `low:640x360` and
//! `high:1280x720@60` are all rungs. The geometry is `<height>p` or
//! `<width>x<height>`; a rung with no geometry at all is a name standing for the
//! source's own resolution.
//!
//! `@<fps>` names a capture rate rather than a per-rung encode rate: every rung
//! of a ladder is fed the same pictures, so the rung that asks for the most
//! frames sets the rate all of them are captured at. `--fps` says the same thing
//! about the whole publish and wins where the two disagree.

use vstd::prelude::*;
use vstd::string::*;

use crate::args::{CaptureArgs, VideoCodecArg};
use crate::backend::{EncoderArg, Kind, KindView};
use crate::features::Features;
use crate::source_spec::VideoSourceSpec;
use crate::text;
use crate::time::Duration;

verus! {

/// The capture frame rate when nothing asks for one.
pub const DEFAULT_FRAMERATE: u32 = 30;

/// The highest frame rate `--fps` or an `@<fps>` suffix may name. A larger
/// number is a typo.
pub const MAX_FRAMERATE: u32 = 1_000;

/// Below this bitrate a rung is unusable however small it is.
pub const BITRATE_FLOOR: u64 = 64_000;

/// The size of a picture in pixels.
#[derive(Debug, Clone, Copy, PartialEq, Eq, Structural)]
pub struct Size {
    /// Pixels across.
    pub width: u32,
    /// Pixels down.
    pub height: u32,
}

impl Size {
    /// How many pixels a picture of this size has.
    pub open spec fn area(self) -> int {
        self.width * self.height
    }

    /// A size from its two sides.
    pub fn new(width: u32, height: u32) -> (r: Size)
        ensures
            r.width == width,
            r.height == height,
    {
        Size { width, height }
    }

    /// How many pixels a picture of this size has.
    pub fn pixels(&self) -> (r: u64)
        ensures
            r == self.area(),
    {
        assert(self.width * self.height <= u32::MAX * u32::MAX) by (nonlinear_arith)
            requires
                self.width <= u32::MAX,
                self.height <= u32::MAX,
        ;
        self.width as u64 * self.height as u64
    }
}

/// The capture frame rate a publish runs at.
#[derive(Debug, Clone, Copy, PartialEq, Eq, Structural)]
pub enum CaptureFramerate {
    /// The rate the backend is asked for. A device that cannot reach it
    /// substitutes the nearest rate it has.
    Requested {
        /// Frames per second.
        fps: u32,
        /// What settled the number.
        origin: FramerateOrigin,
    },
    /// Nothing is asked of the backend, which runs at its own rate.
    Device,
}

/// What settled a requested capture frame rate.
#[derive(Debug, Clone, Copy, PartialEq, Eq, Structural)]
pub enum FramerateOrigin {
    /// `--fps` named it.
    Flag,
    /// The highest `@<fps>` in `--renditions` named it.
    Renditions,
    /// A rung asked for more than `--fps` allows, so `--fps` settled it.
    Capped,
    /// Nothing named a rate, so [`DEFAULT_FRAMERATE`] applies.
    Default,
}

impl CaptureFramerate {
    /// The rate that is asked for, if one is.
    pub open spec fn asked(self) -> Option<u32> {
        match self {
            CaptureFramerate::Requested { fps, .. } => Some(fps),
            CaptureFramerate::Device => None,
        }
    }

    /// Returns the rate to put in a capture config, or `None` to leave it to
    /// the backend.
    pub fn request(self) -> (r: Option<u32>)
        ensures
            r == self.asked(),
    {
        match self {
            CaptureFramerate::Requested { fps, .. } => Some(fps),
            CaptureFramerate::Device => None,
        }
    }

    /// Returns the rate a source that produces its own frames should run at.
    ///
    /// Such a source delivers exactly the rate it is given, so there is no
    /// device mode to defer to and [`DEFAULT_FRAMERATE`] stands in for one.
    pub fn generated(self) -> (r: u32)
        ensures
            r == (match self.asked() {
                Some(fps) => fps,
                None => DEFAULT_FRAMERATE,
            }),
    {
        match self.request() {
            Some(fps) => fps,
            None => DEFAULT_FRAMERATE,
        }
    }
}

impl FramerateOrigin {
    /// Returns the word the report of a rate carries.
    pub fn label(self) -> (r: &'static str)
        ensures
            r@ == (match self {
                FramerateOrigin::Flag => "--fps"@,
                FramerateOrigin::Renditions => "--renditions"@,
                FramerateOrigin::Capped => "--fps, capping the ladder"@,
                FramerateOrigin::Default => "default"@,
            }),
    {
        match self {
            FramerateOrigin::Flag => "--fps",
            FramerateOrigin::Renditions => "--renditions",
            FramerateOrigin::Capped => "--fps, capping the ladder",
            FramerateOrigin::Default => "default",
        }
    }
}

/// A rung that asked for a frame rate the capture does not run at.
#[derive(Debug, PartialEq, Eq)]
pub struct UnmetRate {
    /// The rendition name, as the catalog has it.
    pub name: String,
    /// The rate the rung's `@<fps>` asked for.
    pub asked: u32,
}

/// One rung of `--renditions`, as it was typed.
#[derive(Debug, PartialEq, Eq)]
pub struct Rung {
    /// The catalog name for this rendition.
    pub name: String,
    /// The encoded size, or `None` for the source's own resolution.
    pub size: Option<Size>,
    /// What the rung's `@<fps>` asked for, if it carried one.
    pub framerate: Option<u32>,
}

/// One rendition an encoder is set up for.
#[derive(Debug, PartialEq, Eq)]
pub struct VideoRendition {
    /// The catalog name.
    pub name: String,
    /// The codec.
    pub codec: VideoCodecArg,
    /// Which encoders to try.
    pub kind: Kind,
    /// The encoded size, or `None` for the source's own.
    pub size: Option<Size>,
    /// How often to insert a keyframe.
    pub keyframe_interval: Option<Duration>,
    /// The target bitrate in bits per second.
    pub bitrate: Option<u64>,
}

/// The simulcast ladder `--renditions` describes, and the capture frame rate it
/// settles.
#[derive(Debug)]
pub struct Ladder {
    /// The rungs, ready for the encoders.
    pub renditions: Vec<VideoRendition>,
    /// The rate the capture backend is asked for.
    pub framerate: CaptureFramerate,
    /// The rungs whose `@<fps>` is not the rate the ladder is captured at.
    pub unmet: Vec<UnmetRate>,
}

/// A line of a ladder's report.
#[derive(Debug, PartialEq, Eq)]
pub enum LadderReport {
    /// A capture rate was requested, for this reason.
    Requested {
        /// Frames per second.
        fps: u32,
        /// What settled the number, in words.
        origin: &'static str,
    },
    /// The capture rate was left to the device.
    Device,
    /// A rung encodes at the capture rate rather than the rate it asked for.
    Unmet {
        /// The rendition.
        rendition: String,
        /// What it asked for.
        asked: u32,
        /// What it gets.
        fps: u32,
    },
}

/// A [`Rung`], with its name as a sequence of characters.
pub struct RungView {
    /// The catalog name.
    pub name: Seq<char>,
    /// The encoded size.
    pub size: Option<Size>,
    /// The frame rate it asked for.
    pub framerate: Option<u32>,
}

/// A [`VideoRendition`], with its texts as sequences of characters.
pub struct RenditionView {
    /// The catalog name.
    pub name: Seq<char>,
    /// The codec.
    pub codec: VideoCodecArg,
    /// Which encoders to try.
    pub kind: KindView,
    /// The encoded size.
    pub size: Option<Size>,
    /// How often to insert a keyframe.
    pub keyframe_interval: Option<Duration>,
    /// The target bitrate.
    pub bitrate: Option<u64>,
}

/// An [`UnmetRate`], with its name as a sequence of characters.
pub struct UnmetView {
    /// The rendition name.
    pub name: Seq<char>,
    /// The rate the rung asked for.
    pub asked: u32,
}

impl View for Rung {
    type V = RungView;

    open spec fn view(&self) -> RungView {
        RungView { name: self.name@, size: self.size, framerate: self.framerate }
    }
}

impl View for VideoRendition {
    type V = RenditionView;

    open spec fn view(&self) -> RenditionView {
        RenditionView {
            name: self.name@,
            codec: self.codec,
            kind: self.kind@,
            size: self.size,
            keyframe_interval: self.keyframe_interval,
            bitrate: self.bitrate,
        }
    }
}

impl View for UnmetRate {
    type V = UnmetView;

    open spec fn view(&self) -> UnmetView {
        UnmetView { name: self.name@, asked: self.asked }
    }
}

/// The rungs as they are seen from outside.
pub open spec fn rung_views(rungs: Seq<Rung>) -> Seq<RungView> {
    Seq::new(rungs.len(), |i: int| rungs[i]@)
}

/// The renditions as they are seen from outside.
pub open spec fn rendition_views(renditions: Seq<VideoRendition>) -> Seq<RenditionView> {
    Seq::new(renditions.len(), |i: int| renditions[i]@)
}

/// The unmet rates as they are seen from outside.
pub open spec fn unmet_views(unmet: Seq<UnmetRate>) -> Seq<UnmetView> {
    Seq::new(unmet.len(), |i: int| unmet[i]@)
}

/// The next even number that is not below `n`.
pub open spec fn rounded_even(n: int) -> int {
    n + n % 2
}

/// Rounds up to the next even number.
pub fn even(value: u32) -> (r: u32)
    requires
        value < u32::MAX,
    ensures
        r == rounded_even(value as int),
        r % 2 == 0,
        value <= r <= value + 1,
{
    value + (value % 2)
}

/// A size with both sides rounded up to even numbers, if they still fit.
pub open spec fn even_size(width: int, height: int) -> Option<Size> {
    if rounded_even(width) <= u32::MAX && rounded_even(height) <= u32::MAX {
        Some(Size { width: rounded_even(width) as u32, height: rounded_even(height) as u32 })
    } else {
        None
    }
}

/// Where the cross between width and height stands; at the end when there is
/// none.
pub open spec fn cross_at(s: Seq<char>) -> nat {
    if text::before(s, 'x') < text::before(s, 'X') {
        text::before(s, 'x')
    } else {
        text::before(s, 'X')
    }
}

/// The size that `<height>p` or `<width>x<height>` names.
///
/// The shorthand assumes 16:9. Both sides are rounded up to even numbers, since
/// chroma is subsampled two by two.
pub open spec fn size_of(s: Seq<char>) -> Option<Size> {
    let cross = cross_at(s) as int;
    if cross < s.len() {
        match (text::number(s.take(cross)), text::number(s.skip(cross + 1))) {
            (Some(width), Some(height)) => even_size(width as int, height as int),
            _ => None,
        }
    } else if s.len() > 0 && (s.last() == 'p' || s.last() == 'P') {
        match text::number(s.drop_last()) {
            Some(height) => if (height * 16 + 4) / 9 <= u32::MAX {
                even_size(((height * 16 + 4) / 9) as int, height as int)
            } else {
                None
            },
            None => None,
        }
    } else {
        None
    }
}

fn make_even_size(width: u32, height: u32) -> (r: Option<Size>)
    ensures
        r == even_size(width as int, height as int),
{
    if width < u32::MAX && height < u32::MAX {
        Some(Size::new(even(width), even(height)))
    } else {
        None
    }
}

/// Parses `<height>p` or `<width>x<height>`.
///
/// Both dimensions are rounded up to the next even number; one that has no even
/// number above it is no size. The `<height>p` shorthand assumes 16:9.
pub fn parse_size(spec: &str) -> (r: Option<Size>)
    ensures
        r == size_of(spec@),
{
    let len: usize = spec.unicode_len();
    let mut at: usize = 0;
    while at < len && spec.get_char(at) != 'x' && spec.get_char(at) != 'X'
        invariant
            len == spec@.len(),
            at <= len,
            forall|i: int| 0 <= i < at ==> spec@[i] != 'x' && spec@[i] != 'X',
        ensures
            at <= len,
            forall|i: int| 0 <= i < at ==> spec@[i] != 'x' && spec@[i] != 'X',
            at < len ==> spec@[at as int] == 'x' || spec@[at as int] == 'X',
        decreases len - at,
    {
        at = at + 1;
    }
    proof {
        lemma_cross_at(spec@, at as int);
    }
    if at < len {
        proof {
            assert(spec@.subrange(0, at as int) =~= spec@.take(at as int));
            assert(spec@.subrange(at + 1, len as int) =~= spec@.skip(at + 1));
        }
        let width = text::parse_u32(spec.substring_char(0, at));
        let height = text::parse_u32(spec.substring_char(at + 1, len));
        return match (width, height) {
            (Some(width), Some(height)) => make_even_size(width, height),
            _ => None,
        };
    }
    if len == 0 {
        return None;
    }
    let last = spec.get_char(len - 1);
    if last != 'p' && last != 'P' {
        return None;
    }
    assert(spec@.subrange(0, len - 1) =~= spec@.drop_last());
    match text::parse_u32(spec.substring_char(0, len - 1)) {
        Some(height) => {
            let width: u64 = (height as u64 * 16 + 4) / 9;
            if width <= u32::MAX as u64 {
                make_even_size(width as u32, height)
            } else {
                None
            }
        },
        None => None,
    }
}

/// The cross stands where the first `x` of either case does.
proof fn lemma_cross_at(s: Seq<char>, n: int)
    requires
        0 <= n <= s.len(),
        forall|i: int| 0 <= i < n ==> s[i] != 'x' && s[i] != 'X',
        n < s.len() ==> s[n] == 'x' || s[n] == 'X',
    ensures
        cross_at(s) == n,
{
    lemma_before_at_least(s, 'x', n);
    lemma_before_at_least(s, 'X', n);
    if n == s.len() {
        text::lemma_before(s, 'x', n);
        text::lemma_before(s, 'X', n);
    } else if s[n] == 'x' {
        text::lemma_before(s, 'x', n);
    } else {
        text::lemma_before(s, 'X', n);
    }
}

/// No `c` among the first `n` characters means that at least `n` stand before
/// the first one.
proof fn lemma_before_at_least(s: Seq<char>, c: char, n: int)
    requires
        0 <= n <= s.len(),
        forall|i: int| 0 <= i < n ==> s[i] != c,
    ensures
        text::before(s, c) >= n,
    decreases n,
{
    if n > 0 {
        let t = s.drop_first();
        assert forall|i: int| 0 <= i < n - 1 implies t[i] != c by {
            assert(t[i] == s[i + 1]);
        }
        lemma_before_at_least(t, c, n - 1);
    }
}

/// A dimension that was named is given in full or rounded up by one, and both
/// sides of every parsed size are even.
pub proof fn sizes_are_even(s: Seq<char>)
    ensures
        size_of(s) matches Some(size) ==> size.width % 2 == 0 && size.height % 2 == 0,
{
}

/// The rate that the `@<fps>` suffix of `spec` names, or the message that
/// refuses it.
pub open spec fn suffix_rate(spec: Seq<char>, value: Seq<char>) -> Result<u32, Seq<char>> {
    match text::number(value) {
        None => Err("rendition '"@ + spec + "': '"@ + value + "' is not a frame rate"@),
        Some(fps) => if 1 <= fps <= MAX_FRAMERATE {
            Ok(fps as u32)
        } else {
            Err(
                "rendition '"@ + spec + "': "@ + text::decimal(fps)
                    + " frames per second is outside the 1 to 1000 a capture backend accepts"@,
            )
        },
    }
}

/// Parses the `@<fps>` suffix of `spec`.
fn rung_framerate(spec: &str, value: &str) -> (r: Result<u32, String>)
    ensures
        match r {
            Ok(fps) => suffix_rate(spec@, value@) == Ok::<u32, Seq<char>>(fps),
            Err(e) => suffix_rate(spec@, value@) == Err::<u32, Seq<char>>(e@),
        },
{
    match text::parse_u32(value) {
        None => Err(text::join5("rendition '", spec, "': '", value, "' is not a frame rate")),
        Some(fps) => if 1 <= fps && fps <= MAX_FRAMERATE {
            Ok(fps)
        } else {
            Err(
                text::join5(
                    "rendition '",
                    spec,
                    "': ",
                    text::decimal_text(fps as u64).as_str(),
                    " frames per second is outside the 1 to 1000 a capture backend accepts",
                ),
            )
        },
    }
}

/// What stands before the rate of a rung.
pub open spec fn geometry_of(s: Seq<char>) -> Seq<char> {
    match text::split_at_first(s, '@') {
        Some((geometry, _)) => geometry,
        None => s,
    }
}

/// The rate that a rung asks for, if it carries one, or the message that
/// refuses it. The first `@` separates.
pub open spec fn rate_of(s: Seq<char>) -> Result<Option<u32>, Seq<char>> {
    match text::split_at_first(s, '@') {
        Some((_, fps)) => match suffix_rate(s, fps) {
            Ok(fps) => Ok(Some(fps)),
            Err(e) => Err(e),
        },
        None => Ok(None),
    }
}

/// The name and size of a rung, or the message that refuses it. A rung without
/// a colon is a size that names itself, or a name that stands for the source's
/// own resolution.
pub open spec fn name_and_size(s: Seq<char>) -> Result<(Seq<char>, Option<Size>), Seq<char>> {
    match text::split_at_first(geometry_of(s), ':') {
        Some((name, size)) => match size_of(size) {
            Some(parsed) => Ok((name, Some(parsed))),
            None => Err(
                "rendition '"@ + s + "': '"@ + size + "' is not <height>p or <width>x<height>"@,
            ),
        },
        None => Ok((geometry_of(s), size_of(geometry_of(s)))),
    }
}

/// The rung that a text is, or the message that refuses it.
pub open spec fn rung_of(s: Seq<char>) -> Result<RungView, Seq<char>> {
    match rate_of(s) {
        Err(e) => Err(e),
        Ok(framerate) => match name_and_size(s) {
            Err(e) => Err(e),
            Ok((name, size)) => if name.len() == 0 {
                Err("rendition '"@ + s + "': a rung needs a name or a size of its own"@)
            } else {
                Ok(RungView { name, size, framerate })
            },
        },
    }
}

/// Parses one rung: `[<name>:]<geometry>[@<fps>]`.
///
/// # Errors
///
/// Fails with a message if the rate is not a usable one, if what follows the
/// colon is not a size, or if there is no name.
pub fn rung(spec: &str) -> (r: Result<Rung, String>)
    ensures
        match r {
            Ok(rung) => rung_of(spec@) == Ok::<RungView, Seq<char>>(rung@),
            Err(e) => rung_of(spec@) == Err::<RungView, Seq<char>>(e@),
        },
{
    let (geometry, framerate) = match text::split_once(spec, '@') {
        Some((geometry, fps)) => match rung_framerate(spec, fps) {
            Ok(fps) => (geometry, Some(fps)),
            Err(e) => return Err(e),
        },
        None => (spec, None),
    };
    let (name, size) = match text::split_once(geometry, ':') {
        Some((name, size)) => match parse_size(size) {
            Some(parsed) => (name, Some(parsed)),
            None => return Err(
                text::join5(
                    "rendition '",
                    spec,
                    "': '",
                    size,
                    "' is not <height>p or <width>x<height>",
                ),
            ),
        },
        None => (geometry, parse_size(geometry)),
    };
    if name.is_empty() {
        return Err(
            text::join3("rendition '", spec, "': a rung needs a name or a size of its own"),
        );
    }
    Ok(Rung { name: name.to_owned(), size, framerate })
}

/// The rungs that a list of texts is, or the message that refuses the first bad
/// one.
pub open spec fn all_rungs(list: Seq<Seq<char>>) -> Result<Seq<RungView>, Seq<char>>
    decreases list.len(),
{
    if list.len() == 0 {
        Ok(Seq::empty())
    } else {
        match all_rungs(list.drop_last()) {
            Err(e) => Err(e),
            Ok(rungs) => match rung_of(list.last()) {
                Err(e) => Err(e),
                Ok(rung) => Ok(rungs.push(rung)),
            },
        }
    }
}

/// The rungs of a publish: those of `--renditions`, or the single unscaled
/// rendition that the flag's absence stands for.
pub open spec fn rungs_of(list: Seq<Seq<char>>) -> Result<Seq<RungView>, Seq<char>> {
    if list.len() == 0 {
        Ok(seq![RungView { name: "video"@, size: None, framerate: None }])
    } else {
        all_rungs(list)
    }
}

/// A bad rung spoils every list that starts with it.
proof fn lemma_all_rungs_err(list: Seq<Seq<char>>, n: int, e: Seq<char>)
    requires
        0 <= n <= list.len(),
        all_rungs(list.take(n)) == Err::<Seq<RungView>, Seq<char>>(e),
    ensures
        all_rungs(list) == Err::<Seq<RungView>, Seq<char>>(e),
    decreases list.len(),
{
    if n == list.len() {
        assert(list.take(n) =~= list);
    } else {
        assert(list.drop_last().take(n) =~= list.take(n));
        lemma_all_rungs_err(list.drop_last(), n, e);
    }
}

/// Parses every rung of `--renditions`, or the single unscaled rendition the
/// flag's absence stands for.
fn rungs(list: &Vec<String>) -> (r: Result<Vec<Rung>, String>)
    ensures
        match r {
            Ok(rungs) => rungs_of(text::views(list@)) == Ok::<Seq<RungView>, Seq<char>>(
                rung_views(rungs@),
            ),
            Err(e) => rungs_of(text::views(list@)) == Err::<Seq<RungView>, Seq<char>>(e@),
        },
{
    let mut rungs: Vec<Rung> = Vec::new();
    let ghost texts = text::views(list@);
    if list.len() == 0 {
        rungs.push(Rung { name: "video".to_owned(), size: None, framerate: None });
        proof {
            assert(rung_views(rungs@) =~= seq![
                RungView { name: "video"@, size: None, framerate: None },
            ]);
        }
        return Ok(rungs);
    }
    let mut i: usize = 0;
    proof {
        assert(rung_views(rungs@) =~= Seq::empty());
    }
    while i < list.len()
        invariant
            texts == text::views(list@),
            list@.len() > 0,
            i <= list@.len(),
            all_rungs(texts.take(i as int)) == Ok::<Seq<RungView>, Seq<char>>(rung_views(rungs@)),
        decreases list@.len() - i,
    {
        proof {
            assert(texts.take(i + 1).drop_last() =~= texts.take(i as int));
            assert(texts.take(i + 1).last() == list@[i as int]@);
        }
        match rung(list[i].as_str()) {
            Ok(rung) => {
                let ghost before = rung_views(rungs@);
                rungs.push(rung);
                proof {
                    assert(rung_views(rungs@) =~= before.push(rung@));
                }
            },
            Err(e) => {
                proof {
                    lemma_all_rungs_err(texts, i + 1, e@);
                }
                return Err(e);
            },
        }
        i = i + 1;
    }
    proof {
        assert(texts.take(i as int) =~= texts);
    }
    Ok(rungs)
}

/// The highest rate that any rung asks for.
pub open spec fn highest(rungs: Seq<RungView>) -> Option<u32>
    decreases rungs.len(),
{
    if rungs.len() == 0 {
        None
    } else {
        match (highest(rungs.drop_last()), rungs.last().framerate) {
            (None, rate) => rate,
            (Some(high), Some(rate)) if rate > high => Some(rate),
            (high, _) => high,
        }
    }
}

/// The highest rate is asked for by some rung, and no rung asks for more; there
/// is none exactly when no rung asks for any.
pub proof fn highest_is_the_maximum(rungs: Seq<RungView>)
    ensures
        match highest(rungs) {
            Some(high) => {
                &&& exists|i: int|
                    0 <= i < rungs.len() && #[trigger] rungs[i].framerate == Some(high)
                &&& forall|i: int|
                    0 <= i < rungs.len() ==> (#[trigger] rungs[i].framerate matches Some(rate)
                        ==> rate <= high)
            },
            None => forall|i: int| 0 <= i < rungs.len() ==> #[trigger] rungs[i].framerate is None,
        },
    decreases rungs.len(),
{
    if rungs.len() > 0 {
        let front = rungs.drop_last();
        highest_is_the_maximum(front);
        match highest(front) {
            Some(high) => {
                let i = choose|i: int|
                    0 <= i < front.len() && #[trigger] front[i].framerate == Some(high);
                assert(rungs[i].framerate == Some(high));
                assert(rungs[rungs.len() - 1] == rungs.last());
                assert forall|j: int| 0 <= j < rungs.len() implies (
                #[trigger] rungs[j].framerate matches Some(rate) ==> rate <= highest(rungs)->0) by {
                    if j < front.len() {
                        assert(front[j] == rungs[j]);
                    }
                }
            },
            None => {
                assert(rungs[rungs.len() - 1] == rungs.last());
                assert forall|j: int| 0 <= j < rungs.len() - 1 implies
                    #[trigger] rungs[j].framerate is None by {
                    assert(front[j] == rungs[j]);
                }
            },
        }
    }
}

/// The rate that `--fps` names, or the message that refuses it.
pub open spec fn flag_rate(fps: u32) -> Result<u32, Seq<char>> {
    if 1 <= fps <= MAX_FRAMERATE {
        Ok(fps)
    } else {
        Err(
            "--fps "@ + text::decimal(fps as nat)
                + " is outside the 1 to 1000 a capture backend accepts"@,
        )
    }
}

/// Checks the rate `--fps` names.
fn flag_framerate(fps: u32) -> (r: Result<u32, String>)
    ensures
        match r {
            Ok(rate) => flag_rate(fps) == Ok::<u32, Seq<char>>(rate),
            Err(e) => flag_rate(fps) == Err::<u32, Seq<char>>(e@),
        },
{
    if 1 <= fps && fps <= MAX_FRAMERATE {
        Ok(fps)
    } else {
        Err(
            text::join3(
                "--fps ",
                text::decimal_text(fps as u64).as_str(),
                " is outside the 1 to 1000 a capture backend accepts",
            ),
        )
    }
}

/// Whether the backend behind a source acts on a requested frame rate: the
/// macOS camera does not.
pub open spec fn heeds_framerate(features: Features, spec: VideoSourceSpec) -> bool {
    !(features.macos && spec is Camera)
}

/// Whether the backend behind `spec` acts on a requested frame rate.
///
/// The macOS camera backend does not: it opens the device on its own mode, so
/// the default is withheld there and the device's own rate stands.
pub fn takes_framerate(features: Features, spec: &VideoSourceSpec) -> (r: bool)
    ensures
        r == heeds_framerate(features, *spec),
        r == !(features.macos && spec is Camera),
{
    !(features.macos && matches!(spec, VideoSourceSpec::Camera(_)))
}

/// The rate that a capture is asked for, or the message that refuses `--fps`.
///
/// `--fps` is the capture rate outright. Without it the highest rung decides,
/// and without that the default, where the backend heeds one.
pub open spec fn framerate_of(
    heeds: bool,
    flag: Option<u32>,
    asked: Option<u32>,
) -> Result<CaptureFramerate, Seq<char>> {
    match flag {
        Some(fps) => match flag_rate(fps) {
            Err(e) => Err(e),
            Ok(fps) => Ok(
                CaptureFramerate::Requested {
                    fps,
                    origin: if asked matches Some(asked) && asked > fps {
                        FramerateOrigin::Capped
                    } else {
                        FramerateOrigin::Flag
                    },
                },
            ),
        },
        None => match asked {
            Some(fps) => Ok(
                CaptureFramerate::Requested { fps, origin: FramerateOrigin::Renditions },
            ),
            None => if heeds {
                Ok(
                    CaptureFramerate::Requested {
                        fps: DEFAULT_FRAMERATE,
                        origin: FramerateOrigin::Default,
                    },
                )
            } else {
                Ok(CaptureFramerate::Device)
            },
        },
    }
}

fn highest_rate(rungs: &Vec<Rung>) -> (r: Option<u32>)
    ensures
        r == highest(rung_views(rungs@)),
{
    let ghost views = rung_views(rungs@);
    let mut high: Option<u32> = None;
    let mut i: usize = 0;
    while i < rungs.len()
        invariant
            views == rung_views(rungs@),
            i <= rungs@.len(),
            high == highest(views.take(i as int)),
        decreases rungs@.len() - i,
    {
        proof {
            assert(views.take(i + 1).drop_last() =~= views.take(i as int));
            assert(views.take(i + 1).last() == rungs@[i as int]@);
        }
        high = match (high, rungs[i].framerate) {
            (None, rate) => rate,
            (Some(high), Some(rate)) if rate > high => Some(rate),
            (high, _) => high,
        };
        i = i + 1;
    }
    proof {
        assert(views.take(i as int) =~= views);
    }
    high
}

/// The rate the capture is asked for, and what settled it.
fn capture_framerate(
    features: Features,
    spec: &VideoSourceSpec,
    fps: Option<u32>,
    rungs: &Vec<Rung>,
) -> (r: Result<CaptureFramerate, String>)
    ensures
        ({
            let framerate = framerate_of(
                heeds_framerate(features, *spec),
                fps,
                highest(rung_views(rungs@)),
            );
            match r {
                Ok(rate) => framerate == Ok::<CaptureFramerate, Seq<char>>(rate),
                Err(e) => framerate == Err::<CaptureFramerate, Seq<char>>(e@),
            }
        }),
{
    let asked = highest_rate(rungs);
    match fps {
        Some(fps) => match flag_framerate(fps) {
            Err(e) => Err(e),
            Ok(fps) => {
                let origin = match asked {
                    Some(asked) if asked > fps => FramerateOrigin::Capped,
                    _ => FramerateOrigin::Flag,
                };
                Ok(CaptureFramerate::Requested { fps, origin })
            },
        },
        None => match asked {
            Some(fps) => Ok(
                CaptureFramerate::Requested { fps, origin: FramerateOrigin::Renditions },
            ),
            None => if takes_framerate(features, spec) {
                Ok(
                    CaptureFramerate::Requested {
                        fps: DEFAULT_FRAMERATE,
                        origin: FramerateOrigin::Default,
                    },
                )
            } else {
                Ok(CaptureFramerate::Device)
            },
        },
    }
}

/// The rungs whose rate is not `fps`, in their order.
pub open spec fn unmet_at(rungs: Seq<RungView>, fps: u32) -> Seq<UnmetView>
    decreases rungs.len(),
{
    if rungs.len() == 0 {
        Seq::empty()
    } else {
        let front = unmet_at(rungs.drop_last(), fps);
        let last = rungs.last();
        match last.framerate {
            Some(asked) if asked != fps => front.push(UnmetView { name: last.name, asked }),
            _ => front,
        }
    }
}

/// The rungs whose rate is not the one that the ladder is captured at.
pub open spec fn unmet_of(rungs: Seq<RungView>, framerate: CaptureFramerate) -> Seq<UnmetView> {
    match framerate.asked() {
        Some(fps) => unmet_at(rungs, fps),
        None => Seq::empty(),
    }
}

/// The rungs whose `@<fps>` is not the rate the ladder is captured at.
fn unmet_rates(rungs: &Vec<Rung>, framerate: CaptureFramerate) -> (r: Vec<UnmetRate>)
    ensures
        unmet_views(r@) == unmet_of(rung_views(rungs@), framerate),
{
    let mut unmet: Vec<UnmetRate> = Vec::new();
    proof {
        assert(unmet_views(unmet@) =~= Seq::empty());
    }
    let fps: u32 = match framerate.request() {
        Some(fps) => fps,
        None => return unmet,
    };
    let ghost views = rung_views(rungs@);
    let mut i: usize = 0;
    while i < rungs.len()
        invariant
            views == rung_views(rungs@),
            i <= rungs@.len(),
            unmet_views(unmet@) == unmet_at(views.take(i as int), fps),
        decreases rungs@.len() - i,
    {
        proof {
            assert(views.take(i + 1).drop_last() =~= views.take(i as int));
            assert(views.take(i + 1).last() == rungs@[i as int]@);
        }
        let ghost before = unmet_views(unmet@);
        match rungs[i].framerate {
            Some(asked) if asked != fps => {
                unmet.push(UnmetRate { name: rungs[i].name.clone(), asked });
                proof {
                    assert(unmet_views(unmet@) =~= before.push(
                        UnmetView { name: rungs@[i as int].name@, asked },
                    ));
                }
            },
            _ => {},
        }
        i = i + 1;
    }
    proof {
        assert(views.take(i as int) =~= views);
    }
    unmet
}

/// The pixels of the largest rung, if every rung has a size. A rung without one
/// encodes at the source's resolution, so there is nothing to scale against.
pub open spec fn largest_area(rungs: Seq<RungView>) -> Option<int>
    decreases rungs.len(),
{
    if rungs.len() == 0 {
        None
    } else {
        match (largest_area(rungs.drop_last()), rungs.last().size) {
            (_, None) => None,
            (Some(area), Some(size)) => Some(
                if size.area() >= area {
                    size.area()
                } else {
                    area
                },
            ),
            (None, Some(size)) => if rungs.len() == 1 {
                Some(size.area())
            } else {
                None
            },
        }
    }
}

/// The share of `bitrate` that a rung gets: all of it for one as large as the
/// largest, and for another in proportion to its pixels, and never below the
/// floor. With nothing to scale against, all of it.
pub open spec fn share(bitrate: int, size: Option<Size>, largest: Option<int>) -> int {
    match (size, largest) {
        (Some(size), Some(largest)) if largest != 0 && size.area() != largest => {
            let scaled = bitrate * size.area() / largest;
            if scaled >= BITRATE_FLOOR {
                scaled
            } else {
                BITRATE_FLOOR as int
            }
        },
        _ => bitrate,
    }
}

/// The area of an optional size.
pub open spec fn area_of(size: Option<Size>) -> Option<int> {
    match size {
        Some(size) => Some(size.area()),
        None => None,
    }
}

/// A share of no more than the whole is no more than the whole.
proof fn lemma_share(bitrate: int, part: int, whole: int)
    by (nonlinear_arith)
    requires
        bitrate >= 0,
        0 <= part <= whole,
        whole > 0,
    ensures
        0 <= bitrate * part / whole <= bitrate,
{
}

/// Shares `bitrate` across a ladder in proportion to pixel count.
///
/// `bitrate` is the figure for the largest rung. A rung at a quarter of the
/// pixels gets a quarter of it, floored so a very small rung is still given
/// something an encoder can work with.
pub fn scaled_bitrate(bitrate: u64, size: Option<Size>, largest: Option<Size>) -> (r: u64)
    requires
        share(bitrate as int, size, area_of(largest)) <= u64::MAX,
    ensures
        r == share(bitrate as int, size, area_of(largest)),
        match (size, largest) {
            (Some(size), Some(largest)) if largest.width * largest.height != 0 && size.width
                * size.height != largest.width * largest.height => {
                let scaled = bitrate * (size.width * size.height) / (largest.width
                    * largest.height);
                r == (if scaled >= 64_000 {
                    scaled
                } else {
                    64_000
                })
            },
            _ => r == bitrate,
        },
{
    match (size, largest) {
        (Some(size), Some(largest)) => {
            let part: u64 = size.pixels();
            let total: u64 = largest.pixels();
            if total == 0 || part == total {
                return bitrate;
            }
            assert(bitrate * part <= u64::MAX * u64::MAX) by (nonlinear_arith)
                requires
                    bitrate <= u64::MAX,
                    part <= u64::MAX,
            ;
            assert(0 <= bitrate * part) by (nonlinear_arith)
                requires
                    0 <= bitrate,
                    0 <= part,
            ;
            let scaled: u128 = bitrate as u128 * part as u128 / total as u128;
            if scaled >= BITRATE_FLOOR as u128 {
                scaled as u64
            } else {
                BITRATE_FLOOR
            }
        },
        _ => bitrate,
    }
}

/// The largest rung keeps the bitrate it was given, and no smaller one gets less
/// than the floor. Of two smaller ones the one with more pixels gets at least as
/// much; and so does the largest beside any other, where the bitrate is not below
/// the floor.
pub proof fn bitrates_follow_pixel_count(bitrate: int, a: Size, b: Size, largest: int)
    requires
        bitrate >= 0,
        a.area() <= b.area() <= largest,
        largest > 0,
    ensures
        b.area() == largest ==> share(bitrate, Some(b), Some(largest)) == bitrate,
        b.area() < largest ==> BITRATE_FLOOR <= share(bitrate, Some(a), Some(largest)) <= share(
            bitrate,
            Some(b),
            Some(largest),
        ),
        bitrate >= BITRATE_FLOOR ==> BITRATE_FLOOR <= share(bitrate, Some(a), Some(largest))
            <= share(bitrate, Some(b), Some(largest)) <= bitrate,
{
    let x = a.area();
    let y = b.area();
    assert(0 <= x) by (nonlinear_arith)
        requires
            x == a.width * a.height,
            0 <= a.width,
            0 <= a.height,
    ;
    lemma_share(bitrate, y, largest);
    assert(bitrate * x / largest <= bitrate * y / largest) by (nonlinear_arith)
        requires
            bitrate >= 0,
            0 <= x <= y,
            largest > 0,
    ;
}

/// The rendition that a rung asks for.
pub open spec fn rendition_of(
    codec: VideoCodecArg,
    encoder: EncoderArg,
    keyframe_interval: Option<Duration>,
    bitrate: Option<u64>,
    largest: Option<int>,
    rung: RungView,
) -> RenditionView {
    RenditionView {
        name: rung.name,
        codec,
        kind: encoder.kind_view(),
        size: rung.size,
        keyframe_interval,
        bitrate: match bitrate {
            Some(bitrate) => Some(share(bitrate as int, rung.size, largest) as u64),
            None => None,
        },
    }
}

/// The renditions that a ladder asks for, one to a rung.
pub open spec fn renditions_of(args: CaptureArgs, rungs: Seq<RungView>) -> Seq<RenditionView> {
    Seq::new(
        rungs.len(),
        |i: int|
            rendition_of(
                args.codec,
                args.encoder,
                args.keyframe_interval,
                args.bitrate,
                largest_area(rungs),
                rungs[i],
            ),
    )
}

/// No rung of a ladder is larger than the largest.
proof fn lemma_largest_area(rungs: Seq<RungView>)
    ensures
        largest_area(rungs) matches Some(area) ==> forall|i: int|
            0 <= i < rungs.len() ==> (#[trigger] rungs[i].size matches Some(size)
                && size.area() <= area),
    decreases rungs.len(),
{
    if rungs.len() > 0 && largest_area(rungs) is Some {
        let front = rungs.drop_last();
        lemma_largest_area(front);
        assert forall|i: int| 0 <= i < rungs.len() implies (
        #[trigger] rungs[i].size matches Some(size) && size.area() <= largest_area(rungs)->0) by {
            if i < front.len() {
                assert(front[i] == rungs[i]);
            } else {
                assert(rungs[i] == rungs.last());
            }
        }
    }
}

/// The share of a rung of the ladder fits wherever the bitrate does.
proof fn lemma_share_fits(bitrate: u64, rungs: Seq<RungView>, i: int)
    requires
        0 <= i < rungs.len(),
    ensures
        share(bitrate as int, rungs[i].size, largest_area(rungs)) <= u64::MAX,
        0 <= share(bitrate as int, rungs[i].size, largest_area(rungs)),
{
    lemma_largest_area(rungs);
    match (rungs[i].size, largest_area(rungs)) {
        (Some(size), Some(largest)) => {
            if largest != 0 {
                let part = size.area();
                assert(0 <= part) by (nonlinear_arith)
                    requires
                        part == size.width * size.height,
                        0 <= size.width,
                        0 <= size.height,
                ;
                lemma_share(bitrate as int, part, largest);
            }
        },
        _ => {},
    }
}

/// The largest size of a ladder whose rungs all have one. Of equally large ones
/// the last.
fn largest_size(rungs: &Vec<Rung>) -> (r: Option<Size>)
    ensures
        area_of(r) == largest_area(rung_views(rungs@)),
{
    let ghost views = rung_views(rungs@);
    let mut largest: Option<Size> = None;
    let mut i: usize = 0;
    while i < rungs.len()
        invariant
            views == rung_views(rungs@),
            i <= rungs@.len(),
            area_of(largest) == largest_area(views.take(i as int)),
            i > 0 ==> largest is Some,
        decreases rungs@.len() - i,
    {
        proof {
            assert(views.take(i + 1).drop_last() =~= views.take(i as int));
            assert(views.take(i + 1).last() == rungs@[i as int]@);
        }
        match rungs[i].size {
            None => {
                proof {
                    lemma_unsized(views, i as int);
                }
                return None;
            },
            Some(size) => {
                largest = match largest {
                    Some(large) if size.pixels() < large.pixels() => Some(large),
                    _ => Some(size),
                };
            },
        }
        i = i + 1;
    }
    proof {
        assert(views.take(i as int) =~= views);
    }
    largest
}

/// One rung without a size leaves the whole ladder without a largest one.
proof fn lemma_unsized(rungs: Seq<RungView>, at: int)
    requires
        0 <= at < rungs.len(),
        rungs[at].size is None,
    ensures
        largest_area(rungs) is None,
{
    lemma_largest_area(rungs);
}

/// Turns parsed rungs into the renditions the encoders are set up for.
fn renditions(args: &CaptureArgs, rungs: &Vec<Rung>) -> (r: Vec<VideoRendition>)
    ensures
        rendition_views(r@) == renditions_of(*args, rung_views(rungs@)),
{
    let ghost views = rung_views(rungs@);
    let largest = largest_size(rungs);
    let mut renditions: Vec<VideoRendition> = Vec::new();
    let mut i: usize = 0;
    while i < rungs.len()
        invariant
            views == rung_views(rungs@),
            i <= rungs@.len(),
            area_of(largest) == largest_area(views),
            renditions@.len() == i,
            rendition_views(renditions@) == renditions_of(*args, views).take(i as int),
        decreases rungs@.len() - i,
    {
        let bitrate = match args.bitrate {
            Some(bitrate) => {
                proof {
                    lemma_share_fits(bitrate, views, i as int);
                }
                Some(scaled_bitrate(bitrate, rungs[i].size, largest))
            },
            None => None,
        };
        let ghost before = rendition_views(renditions@);
        renditions.push(
            VideoRendition {
                name: rungs[i].name.clone(),
                codec: args.codec,
                kind: args.encoder.kind(),
                size: rungs[i].size,
                keyframe_interval: args.keyframe_interval,
                bitrate,
            },
        );
        proof {
            assert(views[i as int] == rungs@[i as int]@);
            assert(renditions_of(*args, views)[i as int] == renditions@[i as int]@);
            assert(rendition_views(renditions@) =~= before.push(renditions@[i as int]@));
            assert(rendition_views(renditions@) =~= renditions_of(*args, views).take(i + 1));
        }
        i = i + 1;
    }
    proof {
        assert(renditions_of(*args, views).take(i as int) =~= renditions_of(*args, views));
    }
    renditions
}

/// Whether `ladder` is the one that `args` describe, or `Err` the message that
/// refuses them.
pub open spec fn describes(
    features: Features,
    spec: VideoSourceSpec,
    args: CaptureArgs,
    ladder: Result<Ladder, Seq<char>>,
) -> bool {
    match rungs_of(text::views(args.renditions@)) {
        Err(e) => ladder matches Err(message) && message == e,
        Ok(rungs) => match framerate_of(
            heeds_framerate(features, spec),
            args.fps,
            highest(rungs),
        ) {
            Err(e) => ladder matches Err(message) && message == e,
            Ok(framerate) => {
                &&& ladder matches Ok(ladder)
                &&& ladder.framerate == framerate
                &&& rendition_views(ladder.renditions@) == renditions_of(args, rungs)
                &&& unmet_views(ladder.unmet@) == unmet_of(rungs, framerate)
            },
        },
    }
}

/// The ladder and capture frame rate `args` describe for a source of kind
/// `spec`.
///
/// # Errors
///
/// Fails if a rung is not `[<name>:]<geometry>[@<fps>]`, or if `--fps` or an
/// `@<fps>` suffix names a rate no capture backend accepts.
pub fn ladder(features: Features, spec: &VideoSourceSpec, args: &CaptureArgs) -> (r: Result<
    Ladder,
    String,
>)
    ensures
        describes(
            features,
            *spec,
            *args,
            match r {
                Ok(ladder) => Ok(ladder),
                Err(e) => Err(e@),
            },
        ),
{
    let rungs = match rungs(&args.renditions) {
        Ok(rungs) => rungs,
        Err(e) => return Err(e),
    };
    let framerate = match capture_framerate(features, spec, args.fps, &rungs) {
        Ok(framerate) => framerate,
        Err(e) => return Err(e),
    };
    Ok(
        Ladder {
            renditions: renditions(args, &rungs),
            framerate,
            unmet: unmet_rates(&rungs, framerate),
        },
    )
}

/// Whether `line` says that `unmet` is captured at `fps`.
pub open spec fn says_unmet(line: LadderReport, unmet: UnmetRate, fps: u32) -> bool {
    &&& line matches LadderReport::Unmet { rendition, asked, fps: at }
    &&& rendition@ == unmet.name@
    &&& asked == unmet.asked
    &&& at == fps
}

impl Ladder {
    /// Reports the capture frame rate, where it came from, and every rung that
    /// asked for another one.
    ///
    /// Worth reading once the source is known to exist: a publish without
    /// pictures has no capture rate to report.
    pub fn report(&self) -> (r: Vec<LadderReport>)
        ensures
            match self.framerate {
                CaptureFramerate::Device => r@ == seq![LadderReport::Device],
                CaptureFramerate::Requested { fps, origin } => {
                    &&& r@.len() == self.unmet@.len() + 1
                    &&& r@[0] matches LadderReport::Requested { fps: at, origin: word }
                    &&& at == fps
                    &&& word@ == (match origin {
                        FramerateOrigin::Flag => "--fps"@,
                        FramerateOrigin::Renditions => "--renditions"@,
                        FramerateOrigin::Capped => "--fps, capping the ladder"@,
                        FramerateOrigin::Default => "default"@,
                    })
                    &&& forall|i: int|
                        0 <= i < self.unmet@.len() ==> says_unmet(
                            #[trigger] r@[i + 1],
                            self.unmet@[i],
                            fps,
                        )
                },
            },
    {
        let mut lines: Vec<LadderReport> = Vec::new();
        match self.framerate {
            CaptureFramerate::Device => {
                lines.push(LadderReport::Device);
                assert(lines@ =~= seq![LadderReport::Device]);
                lines
            },
            CaptureFramerate::Requested { fps, origin } => {
                lines.push(LadderReport::Requested { fps, origin: origin.label() });
                let ghost first = lines@[0];
                let mut i: usize = 0;
                while i < self.unmet.len()
                    invariant
                        i <= self.unmet@.len(),
                        lines@.len() == i + 1,
                        lines@[0] == first,
                        forall|j: int|
                            0 <= j < i ==> says_unmet(
                                #[trigger] lines@[j + 1],
                                self.unmet@[j],
                                fps,
                            ),
                    decreases self.unmet@.len() - i,
                {
                    lines.push(
                        LadderReport::Unmet {
                            rendition: self.unmet[i].name.clone(),
                            asked: self.unmet[i].asked,
                            fps,
                        },
                    );
                    assert(says_unmet(lines@[i + 1], self.unmet@[i as int], fps));
                    i = i + 1;
                }
                lines
            },
        }
    }
}

/// `--fps` is the capture rate whenever it is usable at all, whatever the rungs
/// ask for.
pub proof fn fps_flag_outranks_the_ladder(heeds: bool, fps: u32, asked: Option<u32>)
    ensures
        match framerate_of(heeds, Some(fps), asked) {
            Ok(rate) => rate.asked() == Some(fps) && 1 <= fps <= MAX_FRAMERATE,
            Err(_) => fps < 1 || fps > MAX_FRAMERATE,
        },
{
}

/// Without `--fps`, the capture runs at the highest rate any rung asks for, so
/// no rung is starved: each gets at least the rate that it asked for.
pub proof fn highest_rung_sets_the_rate(heeds: bool, rungs: Seq<RungView>, i: int)
    requires
        0 <= i < rungs.len(),
        rungs[i].framerate is Some,
    ensures
        framerate_of(heeds, None, highest(rungs)) matches Ok(
            CaptureFramerate::Requested { fps, origin },
        ) && origin == FramerateOrigin::Renditions && rungs[i].framerate->0 <= fps && exists|j: int|
            0 <= j < rungs.len() && #[trigger] rungs[j].framerate == Some(fps),
{
    highest_is_the_maximum(rungs);
    assert(rungs[i].framerate is Some);
}

/// The unmet rungs are exactly those that asked for a rate other than the one
/// the ladder is captured at.
pub proof fn unmet_rungs_are_the_others(rungs: Seq<RungView>, fps: u32, unmet: UnmetView)
    ensures
        unmet_at(rungs, fps).contains(unmet) <==> exists|i: int|
            0 <= i < rungs.len() && #[trigger] rungs[i].framerate == Some(unmet.asked)
                && rungs[i].name == unmet.name && unmet.asked != fps,
    decreases rungs.len(),
{
    if rungs.len() > 0 {
        let front = rungs.drop_last();
        let last = rungs.last();
        unmet_rungs_are_the_others(front, fps, unmet);
        assert(rungs[rungs.len() - 1] == last);
        if last.framerate is Some && last.framerate->0 != fps {
            let added = UnmetView { name: last.name, asked: last.framerate->0 };
            let before = unmet_at(front, fps);
            assert(unmet_at(rungs, fps) == before.push(added));
            assert(before.push(added)[before.len() as int] == added);
            if before.contains(unmet) {
                let k = before.index_of(unmet);
                assert(before.push(added)[k] == unmet);
            }
            assert(before.push(added).contains(unmet) <==> before.contains(unmet) || unmet
                == added);
        }
        if exists|i: int|
            0 <= i < rungs.len() && #[trigger] rungs[i].framerate == Some(unmet.asked)
                && rungs[i].name == unmet.name && unmet.asked != fps {
            let i = choose|i: int|
                0 <= i < rungs.len() && #[trigger] rungs[i].framerate == Some(unmet.asked)
                    && rungs[i].name == unmet.name && unmet.asked != fps;
            if i < front.len() {
                assert(front[i] == rungs[i]);
                assert(front[i].framerate == Some(unmet.asked));
            }
        }
        if exists|i: int|
            0 <= i < front.len() && #[trigger] front[i].framerate == Some(unmet.asked)
                && front[i].name == unmet.name && unmet.asked != fps {
            let i = choose|i: int|
                0 <= i < front.len() && #[trigger] front[i].framerate == Some(unmet.asked)
                    && front[i].name == unmet.name && unmet.asked != fps;
            assert(rungs[i].framerate == Some(unmet.asked));
        }
    }
}

/// A rate describes the capture and leaves the renditions alone: ladders that
/// differ in nothing but their rates are encoded the same.
pub proof fn rates_do_not_reach_the_renditions(
    args: CaptureArgs,
    a: Seq<RungView>,
    b: Seq<RungView>,
)
    requires
        a.len() == b.len(),
        forall|i: int|
            0 <= i < a.len() ==> #[trigger] a[i].name == b[i].name && a[i].size == b[i].size,
    ensures
        renditions_of(args, a) == renditions_of(args, b),
{
    lemma_same_largest(a, b);
    assert(renditions_of(args, a) =~= renditions_of(args, b)) by {
        assert forall|i: int| 0 <= i < a.len() implies renditions_of(args, a)[i] == renditions_of(
            args,
            b,
        )[i] by {
            assert(a[i].name == b[i].name);
        }
    }
}

/// The largest rung depends on the sizes alone.
proof fn lemma_same_largest(a: Seq<RungView>, b: Seq<RungView>)
    requires
        a.len() == b.len(),
        forall|i: int|
            0 <= i < a.len() ==> #[trigger] a[i].name == b[i].name && a[i].size == b[i].size,
    ensures
        largest_area(a) == largest_area(b),
    decreases a.len(),
{
    if a.len() > 0 {
        let x = a.drop_last();
        let y = b.drop_last();
        assert forall|i: int| 0 <= i < x.len() implies #[trigger] x[i].name == y[i].name
            && x[i].size == y[i].size by {
            assert(a[i].name == b[i].name);
        }
        assert(a[a.len() - 1].name == b[b.len() - 1].name);
        lemma_same_largest(x, y);
    }
}

/// What bitrates are scaled against: where every rung has a size, the pixels of some
/// rung, and no fewer than those of any; and nothing where a rung has none, or where
/// there is no rung.
pub proof fn the_largest_rung_has_the_most_pixels(rungs: Seq<RungView>)
    ensures
        rungs.len() > 0 && (forall|i: int| 0 <= i < rungs.len() ==> #[trigger] rungs[i].size is Some)
            ==> {
            &&& largest_area(rungs) matches Some(most)
            &&& exists|i: int|
                0 <= i < rungs.len() && (#[trigger] rungs[i].size)->0.width * (rungs[i].size)->0.height
                    == most
            &&& forall|i: int|
                0 <= i < rungs.len() ==> (#[trigger] rungs[i].size)->0.width
                    * (rungs[i].size)->0.height <= most
        },
        (exists|i: int| 0 <= i < rungs.len() && #[trigger] rungs[i].size is None) ==> largest_area(
            rungs,
        ) is None,
        rungs.len() == 0 ==> largest_area(rungs) is None,
    decreases rungs.len(),
{
    if exists|i: int| 0 <= i < rungs.len() && #[trigger] rungs[i].size is None {
        let i = choose|i: int| 0 <= i < rungs.len() && #[trigger] rungs[i].size is None;
        lemma_unsized(rungs, i);
    } else if rungs.len() > 0 {
        let front = rungs.drop_last();
        assert forall|i: int| 0 <= i < front.len() implies #[trigger] front[i].size is Some by {
            assert(rungs[i].size is Some);
        }
        the_largest_rung_has_the_most_pixels(front);
        let last = rungs.len() - 1;
        assert(rungs[last].size is Some);
        if front.len() > 0 {
            let most = largest_area(front)->0;
            let j = choose|j: int|
                0 <= j < front.len() && (#[trigger] front[j].size)->0.width
                    * (front[j].size)->0.height == most;
            assert(rungs[j].size == front[j].size);
            assert forall|i: int| 0 <= i < rungs.len() implies (#[trigger] rungs[i].size)->0.width
                * (rungs[i].size)->0.height <= largest_area(rungs)->0 by {
                if i < front.len() {
                    assert(rungs[i].size == front[i].size);
                }
            }
        }
    }
}

/// A list of rungs that reads is read rung by rung, and one that does not is refused
/// for its first bad rung.
pub proof fn rungs_are_read_one_by_one(list: Seq<Seq<char>>)
    ensures
        match all_rungs(list) {
            Ok(rungs) => rungs.len() == list.len() && forall|i: int|
                0 <= i < list.len() ==> #[trigger] rung_of(list[i]) == Ok::<RungView, Seq<char>>(
                    rungs[i],
                ),
            Err(e) => exists|n: int|
                {
                    &&& 0 <= n < list.len()
                    &&& #[trigger] rung_of(list[n]) == Err::<RungView, Seq<char>>(e)
                    &&& forall|i: int| 0 <= i < n ==> #[trigger] rung_of(list[i]) is Ok
                },
        },
    decreases list.len(),
{
    if list.len() > 0 {
        let front = list.drop_last();
        rungs_are_read_one_by_one(front);
        match all_rungs(front) {
            Ok(rungs) => {
                assert forall|i: int| 0 <= i < front.len() implies #[trigger] rung_of(list[i])
                    == Ok::<RungView, Seq<char>>(rungs[i]) by {
                    assert(front[i] == list[i]);
                    assert(rung_of(front[i]) is Ok);
                }
                assert(list[list.len() - 1] == list.last());
            },
            Err(e) => {
                let n = choose|n: int|
                    {
                        &&& 0 <= n < front.len()
                        &&& #[trigger] rung_of(front[n]) == Err::<RungView, Seq<char>>(e)
                        &&& forall|i: int| 0 <= i < n ==> #[trigger] rung_of(front[i]) is Ok
                    };
                assert(front[n] == list[n]);
                assert forall|i: int| 0 <= i < n implies #[trigger] rung_of(list[i]) is Ok by {
                    assert(front[i] == list[i]);
                    assert(rung_of(front[i]) is Ok);
                }
                assert(rung_of(list[n]) == Err::<RungView, Seq<char>>(e));
            },
        }
    }
}

/// A ladder has one rendition to a rung, with the rung's name and size and the codec,
/// encoders and keyframe interval that were asked for; without `--renditions` it has a
/// single one named `video` at the source's own size.
pub proof fn a_rendition_to_a_rung(
    features: Features,
    spec: VideoSourceSpec,
    args: CaptureArgs,
    ladder: Ladder,
    i: int,
)
    requires
        describes(features, spec, args, Ok(ladder)),
        0 <= i < ladder.renditions@.len(),
    ensures
        ({
            let rendition = ladder.renditions@[i];
            &&& rendition.codec == args.codec
            &&& rendition.kind@ == args.encoder.kind_view()
            &&& rendition.keyframe_interval == args.keyframe_interval
            &&& rendition.bitrate is Some <==> args.bitrate is Some
            &&& args.renditions@.len() == 0 ==> ladder.renditions@.len() == 1 && rendition.name@
                == "video"@ && rendition.size is None && rendition.bitrate == args.bitrate
            &&& args.renditions@.len() > 0 ==> ladder.renditions@.len() == args.renditions@.len()
                && (rung_of(args.renditions@[i]@) matches Ok(rung) && rendition.name@ == rung.name
                && rendition.size == rung.size)
        }),
{
    let list = text::views(args.renditions@);
    rungs_are_read_one_by_one(list);
    let rungs = rungs_of(list)->Ok_0;
    assert(rendition_views(ladder.renditions@).len() == ladder.renditions@.len());
    assert(renditions_of(args, rungs).len() == rungs.len());
    assert(rendition_views(ladder.renditions@)[i] == ladder.renditions@[i]@);
    assert(renditions_of(args, rungs)[i] == rendition_views(ladder.renditions@)[i]);
    if args.renditions@.len() > 0 {
        assert(list[i] == args.renditions@[i]@);
        assert(rung_of(list[i]) is Ok);
    }
}

/// The bitrates of a ladder: where every rendition has a size, the one with the most
/// pixels gets the whole figure and every other its share by pixels, or 64000 where
/// that is more; and where one has none, all get the whole figure.
pub proof fn ladders_share_the_bitrate(
    features: Features,
    spec: VideoSourceSpec,
    args: CaptureArgs,
    ladder: Ladder,
    top: int,
    i: int,
)
    requires
        describes(features, spec, args, Ok(ladder)),
        args.bitrate is Some,
        0 <= top < ladder.renditions@.len(),
        0 <= i < ladder.renditions@.len(),
    ensures
        ladder.renditions@[i].bitrate is Some,
        ({
            let bitrate = args.bitrate->0;
            let given = ladder.renditions@[i].bitrate->0;
            let sized = forall|j: int|
                0 <= j < ladder.renditions@.len() ==> #[trigger] ladder.renditions@[j].size is Some;
            let size = ladder.renditions@[i].size->0;
            let large = ladder.renditions@[top].size->0;
            let pixels = size.width * size.height;
            let most = large.width * large.height;
            let largest = forall|j: int|
                0 <= j < ladder.renditions@.len() ==> (#[trigger] ladder.renditions@[j].size)->0.width
                    * (ladder.renditions@[j].size)->0.height <= most;
            &&& !sized ==> given == bitrate
            &&& sized && largest && pixels == most ==> given == bitrate
            &&& sized && largest && pixels < most ==> given == (if bitrate * pixels / most
                >= 64_000 {
                bitrate * pixels / most
            } else {
                64_000
            })
        }),
{
    let list = text::views(args.renditions@);
    let rungs = rungs_of(list)->Ok_0;
    let renditions = ladder.renditions@;
    assert(rendition_views(renditions).len() == renditions.len());
    assert(renditions_of(args, rungs).len() == rungs.len());
    assert forall|j: int| 0 <= j < renditions.len() implies #[trigger] renditions[j].size
        == rungs[j].size && renditions[j]@ == renditions_of(args, rungs)[j] by {
        assert(rendition_views(renditions)[j] == renditions[j]@);
    }
    assert(renditions.len() == rungs.len());
    assert(renditions[i].size == rungs[i].size);
    assert(renditions[top].size == rungs[top].size);
    the_largest_rung_has_the_most_pixels(rungs);
    lemma_share_fits(args.bitrate->0, rungs, i);
    if forall|j: int| 0 <= j < renditions.len() ==> #[trigger] renditions[j].size is Some {
        assert forall|j: int| 0 <= j < rungs.len() implies #[trigger] rungs[j].size is Some by {
            assert(renditions[j].size == rungs[j].size);
        }
        let most = largest_area(rungs)->0;
        let j = choose|j: int|
            0 <= j < rungs.len() && (#[trigger] rungs[j].size)->0.width * (rungs[j].size)->0.height
                == most;
        assert(renditions[j].size == rungs[j].size);
        let large = renditions[top].size->0;
        assert(large.width * large.height <= most);
        let size = renditions[i].size->0;
        assert(size.width * size.height >= 0) by (nonlinear_arith)
            requires
                0 <= size.width,
                0 <= size.height,
        ;
    } else {
        let j = choose|j: int| 0 <= j < renditions.len() && #[trigger] renditions[j].size is None;
        assert(rungs[j].size is None);
    }
}

/// The rate that a ladder is captured at, and where it came from: `--fps` if it is
/// given; else the highest rate of a rung; else 30, except that a macOS camera is left
/// at its own.
pub proof fn ladders_settle_one_rate(
    features: Features,
    spec: VideoSourceSpec,
    args: CaptureArgs,
    ladder: Ladder,
    rungs: Seq<RungView>,
)
    requires
        describes(features, spec, args, Ok(ladder)),
        rungs_of(text::views(args.renditions@)) == Ok::<Seq<RungView>, Seq<char>>(rungs),
    ensures
        args.fps matches Some(fps) ==> {
            &&& 1 <= fps <= 1_000
            &&& ladder.framerate matches CaptureFramerate::Requested { fps: at, origin }
            &&& at == fps
            &&& origin == FramerateOrigin::Capped <==> exists|i: int|
                0 <= i < rungs.len() && (#[trigger] rungs[i].framerate matches Some(asked) && asked
                    > fps)
            &&& origin == FramerateOrigin::Capped || origin == FramerateOrigin::Flag
        },
        args.fps is None && (exists|i: int|
            0 <= i < rungs.len() && #[trigger] rungs[i].framerate is Some) ==> {
            &&& ladder.framerate matches CaptureFramerate::Requested { fps: at, origin }
            &&& origin == FramerateOrigin::Renditions
            &&& exists|i: int| 0 <= i < rungs.len() && #[trigger] rungs[i].framerate == Some(at)
            &&& forall|i: int|
                0 <= i < rungs.len() ==> (#[trigger] rungs[i].framerate matches Some(asked)
                    ==> asked <= at)
        },
        args.fps is None && (forall|i: int|
            0 <= i < rungs.len() ==> #[trigger] rungs[i].framerate is None) ==> {
            &&& features.macos && spec is Camera ==> ladder.framerate == CaptureFramerate::Device
            &&& !(features.macos && spec is Camera) ==> ladder.framerate == (
            CaptureFramerate::Requested { fps: 30, origin: FramerateOrigin::Default })
        },
{
    highest_is_the_maximum(rungs);
    if args.fps is Some {
        let fps = args.fps->0;
        if highest(rungs) matches Some(high) && high > fps {
            let i = choose|i: int| 0 <= i < rungs.len() && #[trigger] rungs[i].framerate == Some(
                highest(rungs)->0,
            );
            assert(rungs[i].framerate->0 > fps);
        }
    }
}

/// `--fps` is refused outside 1 to 1000 with a message that names it, whatever the
/// rungs, if those read.
pub proof fn unusable_rates_are_refused(
    features: Features,
    spec: VideoSourceSpec,
    args: CaptureArgs,
    ladder: Result<Ladder, Seq<char>>,
    rungs: Seq<RungView>,
)
    requires
        describes(features, spec, args, ladder),
        rungs_of(text::views(args.renditions@)) == Ok::<Seq<RungView>, Seq<char>>(rungs),
    ensures
        ladder is Err <==> (args.fps matches Some(fps) && (fps < 1 || fps > 1_000)),
        ladder matches Err(e) ==> e == "--fps "@ + text::decimal(args.fps->0 as nat)
            + " is outside the 1 to 1000 a capture backend accepts"@,
{
}

/// A rung is listed as unmet exactly where it asked for a rate that the ladder is not
/// captured at, and the list names what it asked for.
pub proof fn ladders_list_what_they_do_not_meet(
    features: Features,
    spec: VideoSourceSpec,
    args: CaptureArgs,
    ladder: Ladder,
    rungs: Seq<RungView>,
    unmet: UnmetView,
)
    requires
        describes(features, spec, args, Ok(ladder)),
        rungs_of(text::views(args.renditions@)) == Ok::<Seq<RungView>, Seq<char>>(rungs),
    ensures
        (exists|k: int|
            0 <= k < ladder.unmet@.len() && (#[trigger] ladder.unmet@[k]).name@ == unmet.name
                && ladder.unmet@[k].asked == unmet.asked) <==> exists|i: int|
            {
                &&& 0 <= i < rungs.len()
                &&& #[trigger] rungs[i].framerate == Some(unmet.asked)
                &&& rungs[i].name == unmet.name
                &&& ladder.framerate matches CaptureFramerate::Requested { fps, .. }
                &&& fps != unmet.asked
            },
        ladder.unmet@.len() <= rungs.len(),
{
    let views = unmet_views(ladder.unmet@);
    assert(views.len() == ladder.unmet@.len());
    if ladder.framerate is Requested {
        let fps = ladder.framerate->fps;
        unmet_rungs_are_the_others(rungs, fps, unmet);
        lemma_unmet_len(rungs, fps);
        if exists|k: int|
            0 <= k < ladder.unmet@.len() && (#[trigger] ladder.unmet@[k]).name@ == unmet.name
                && ladder.unmet@[k].asked == unmet.asked {
            let k = choose|k: int|
                0 <= k < ladder.unmet@.len() && (#[trigger] ladder.unmet@[k]).name@ == unmet.name
                    && ladder.unmet@[k].asked == unmet.asked;
            assert(views[k] == unmet);
            assert(views.contains(unmet));
        }
        if views.contains(unmet) {
            let k = views.index_of(unmet);
            assert(ladder.unmet@[k].name@ == unmet.name);
        }
    } else {
        assert(views.len() == 0);
    }
}

proof fn lemma_unmet_len(rungs: Seq<RungView>, fps: u32)
    ensures
        unmet_at(rungs, fps).len() <= rungs.len(),
    decreases rungs.len(),
{
    if rungs.len() > 0 {
        lemma_unmet_len(rungs.drop_last(), fps);
    }
}

/// Digits hold none of the marks of the rung grammar.
proof fn lemma_digits_lack(n: nat, c: char)
    requires
        !('0' <= c <= '9'),
    ensures
        text::decimal(n).len() > 0,
        forall|i: int| 0 <= i < text::decimal(n).len() ==> #[trigger] text::decimal(n)[i] != c,
{
    text::lemma_decimal(n);
}

/// A size reads as it is written: `<width>x<height>`, with both sides rounded up to even
/// ones.
pub proof fn sizes_read_as_written(width: u32, height: u32, cross: char)
    requires
        cross == 'x' || cross == 'X',
    ensures
        size_of(text::decimal(width as nat) + seq![cross] + text::decimal(height as nat)) == (if width
            < u32::MAX && height < u32::MAX {
            Some(
                Size { width: (width + width % 2) as u32, height: (height + height % 2) as u32 },
            )
        } else {
            None
        }),
{
    let w = text::decimal(width as nat);
    let h = text::decimal(height as nat);
    let s = w + seq![cross] + h;
    text::numbers_read_back(width as nat, u32::MAX as nat);
    text::numbers_read_back(height as nat, u32::MAX as nat);
    lemma_digits_lack(width as nat, 'x');
    lemma_digits_lack(width as nat, 'X');
    assert forall|i: int| 0 <= i < w.len() implies s[i] != 'x' && s[i] != 'X' by {
        assert(s[i] == w[i]);
    }
    lemma_cross_at(s, w.len() as int);
    assert(s.take(w.len() as int) =~= w);
    assert(s.skip(w.len() as int + 1) =~= h);
    assert(text::number(w) == Some(width as nat));
    assert(text::number(h) == Some(height as nat));
    assert(size_of(s) == even_size(width as int, height as int));
}

/// `<height>p` reads as that many lines at sixteen to nine, with both sides rounded up
/// to even ones.
pub proof fn heights_read_as_sixteen_to_nine(height: u32, p: char)
    requires
        p == 'p' || p == 'P',
    ensures
        size_of(text::decimal(height as nat).push(p)) == ({
            let across: int = (height * 16 + 4) / 9;
            if across + across % 2 <= u32::MAX && height < u32::MAX {
                Some(
                    Size {
                        width: (across + across % 2) as u32,
                        height: (height + height % 2) as u32,
                    },
                )
            } else {
                None
            }
        }),
{
    let h = text::decimal(height as nat);
    text::numbers_read_back(height as nat, u32::MAX as nat);
    lemma_digits_lack(height as nat, 'x');
    lemma_digits_lack(height as nat, 'X');
    let t = h.push(p);
    assert forall|i: int| 0 <= i < t.len() implies t[i] != 'x' && t[i] != 'X' by {
        if i < h.len() {
            assert(t[i] == h[i]);
        }
    }
    lemma_cross_at(t, t.len() as int);
    assert(t.drop_last() =~= h);
    assert(text::number(h) == Some(height as nat));
}

/// A rung reads as it is written: `<name>:<geometry>`, with or without `@<fps>`, is a
/// rung of that name, size and rate; and without a colon it is named by what stands
/// there, at the size that this spells, if it spells one.
pub proof fn rungs_read_as_written(name: Seq<char>, geometry: Seq<char>, fps: u32)
    requires
        name.len() > 0,
        forall|i: int| 0 <= i < name.len() ==> name[i] != ':' && name[i] != '@',
        forall|i: int| 0 <= i < geometry.len() ==> geometry[i] != '@',
        1 <= fps <= 1_000,
    ensures
        size_of(geometry) is Some ==> {
            &&& rung_of(name + seq![':'] + geometry) == Ok::<RungView, Seq<char>>(
                RungView { name, size: size_of(geometry), framerate: None },
            )
            &&& rung_of(name + seq![':'] + geometry + seq!['@'] + text::decimal(fps as nat)) == Ok::<
                RungView,
                Seq<char>,
            >(RungView { name, size: size_of(geometry), framerate: Some(fps) })
        },
        size_of(geometry) is None ==> rung_of(name + seq![':'] + geometry) is Err,
        rung_of(name) == Ok::<RungView, Seq<char>>(
            RungView { name, size: size_of(name), framerate: None },
        ),
        rung_of(name + seq!['@'] + text::decimal(fps as nat)) == Ok::<RungView, Seq<char>>(
            RungView { name, size: size_of(name), framerate: Some(fps) },
        ),
{
    let rate = text::decimal(fps as nat);
    text::numbers_read_back(fps as nat, u32::MAX as nat);
    let named = name + seq![':'] + geometry;
    assert forall|i: int| 0 <= i < named.len() implies named[i] != '@' by {
        if i < name.len() {
            assert(named[i] == name[i]);
        } else if i > name.len() {
            assert(named[i] == geometry[i - name.len() - 1]);
        }
    }
    text::lemma_split_joined(name, ':', geometry);
    text::lemma_split_joined(named, '@', rate);
    text::lemma_before(named, '@', named.len() as int);
    text::lemma_split_joined(name, '@', rate);
    text::lemma_before(name, '@', name.len() as int);
    text::lemma_before(name, ':', name.len() as int);
}

/// A rung is refused for a rate that is not a number from 1 to 1000, for a colon that
/// no size follows, and for want of a name; and for nothing else.
pub proof fn bad_rungs_are_refused(s: Seq<char>)
    ensures
        rung_of(s) is Err <==> {
            ||| text::split_at_first(s, '@') matches Some((_, fps)) && !(text::number(fps) matches Some(
                n,
            ) && 1 <= n <= 1_000)
            ||| text::split_at_first(
                match text::split_at_first(s, '@') {
                    Some((geometry, _)) => geometry,
                    None => s,
                },
                ':',
            ) matches Some((name, size)) && (name.len() == 0 || size_of(size) is None)
            ||| s.len() == 0
            ||| s.len() > 0 && s[0] == '@'
        },
{
    text::splits_are_at_the_first(s, '@');
    text::splits_are_at_the_first(geometry_of(s), ':');
    if text::split_at_first(s, '@') is Some {
        let (a, b) = text::split_at_first(s, '@')->0;
        if a.len() == 0 {
            assert(s[0] == '@');
        } else {
            assert(s[0] == a[0]);
        }
    }
}

/// Rungs, renditions and unmet rates are seen with all that they hold.
pub proof fn ladders_are_seen_whole(rung: Rung, rendition: VideoRendition, unmet: UnmetRate)
    ensures
        rung@.name == rung.name@ && rung@.size == rung.size && rung@.framerate == rung.framerate,
        rendition@.name == rendition.name@ && rendition@.codec == rendition.codec
            && rendition@.kind == rendition.kind@ && rendition@.size == rendition.size
            && rendition@.keyframe_interval == rendition.keyframe_interval && rendition@.bitrate
            == rendition.bitrate,
        unmet@.name == unmet.name@ && unmet@.asked == unmet.asked,
{
}

/// A rung that was not captured at the rate it asked for is reported by its name, with
/// the rate it asked for and the one it got.
pub proof fn unmet_rates_are_reported(line: LadderReport, unmet: UnmetRate, fps: u32)
    ensures
        says_unmet(line, unmet, fps) <==> (line matches LadderReport::Unmet {
            rendition,
            asked,
            fps: got,
        } && rendition@ == unmet.name@ && asked == unmet.asked && got == fps),
{
}

/// A rung is refused in so many words: for what should be a size, or for the lack of a
/// name.
pub proof fn refused_rungs_are_told_why(s: Seq<char>)
    requires
        text::split_at_first(s, '@') is None,
        rung_of(s) is Err,
    ensures
        match text::split_at_first(s, ':') {
            Some((name, size)) => rung_of(s) == Err::<RungView, Seq<char>>(
                if size_of(size) is None {
                    "rendition '"@ + s + "': '"@ + size
                        + "' is not <height>p or <width>x<height>"@
                } else {
                    "rendition '"@ + s + "': a rung needs a name or a size of its own"@
                },
            ),
            None => rung_of(s) == Err::<RungView, Seq<char>>(
                "rendition '"@ + s + "': a rung needs a name or a size of its own"@,
            ),
        },
{
}

/// A rate that is refused is refused in so many words: one that is no number, and one
/// that no capture runs at.
pub proof fn refused_rates_are_told_why(s: Seq<char>)
    ensures
        text::split_at_first(s, '@') matches Some((geometry, fps)) ==> {
            &&& text::number(fps) is None ==> rung_of(s) == Err::<RungView, Seq<char>>(
                "rendition '"@ + s + "': '"@ + fps + "' is not a frame rate"@,
            )
            &&& text::number(fps) matches Some(n) ==> (n == 0 || n > 1_000 ==> rung_of(s) == Err::<
                RungView,
                Seq<char>,
            >(
                "rendition '"@ + s + "': "@ + text::decimal(n)
                    + " frames per second is outside the 1 to 1000 a capture backend accepts"@,
            ))
        },
{
}

/// A ladder is seen rung by rung, in its order.
pub proof fn every_rung_is_seen(
    rungs: Seq<Rung>,
    renditions: Seq<VideoRendition>,
    unmet: Seq<UnmetRate>,
)
    ensures
        rung_views(rungs).len() == rungs.len(),
        forall|i: int| 0 <= i < rungs.len() ==> #[trigger] rung_views(rungs)[i] == rungs[i]@,
        rendition_views(renditions).len() == renditions.len(),
        forall|i: int|
            0 <= i < renditions.len() ==> #[trigger] rendition_views(renditions)[i]
                == renditions[i]@,
        unmet_views(unmet).len() == unmet.len(),
        forall|i: int| 0 <= i < unmet.len() ==> #[trigger] unmet_views(unmet)[i] == unmet[i]@,
{
}

} // verus!
