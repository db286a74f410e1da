//! Recording a broadcast: which container, which tracks, and what to say about
//! it.

use vstd::prelude::*;
use vstd::string::*;

use crate::args::{RecordArgs, RecordFormat};
use crate::text;
use crate::time;
use crate::time::{Duration, Instant};

verus! {

/// How often the progress of a recording is reported, in nanoseconds: every two
/// seconds.
pub const REPORT_INTERVAL: u128 = 2_000_000_000;

/// How long a stalled group is waited for before it is skipped, when no caller
/// says otherwise, in seconds.
pub const DEFAULT_LATENCY_SECS: u64 = 2;

/// What follows the last slash of a path, which is its file name where
/// [`names_a_file`] holds.
pub open spec fn file_name(path: Seq<char>) -> Seq<char> {
    text::after_last(path, '/')
}

/// Whether what follows the last slash of a path is a file name on every
/// platform: the path has no backslashes and does not start with two slashes, and
/// the name holds no drive and is not one of the two that stand for directories.
pub open spec fn names_a_file(path: Seq<char>) -> bool {
    let name = file_name(path);
    &&& forall|i: int| 0 <= i < path.len() ==> path[i] != '\\'
    &&& !(path.len() >= 2 && path[0] == '/' && path[1] == '/')
    &&& name.len() > 0
    &&& forall|i: int| 0 <= i < name.len() ==> name[i] != ':'
    &&& name != seq!['.']
    &&& name != seq!['.', '.']
}

/// What follows the last dot of a file name, if a dot comes after its first
/// character.
pub open spec fn extension_of_name(name: Seq<char>) -> Option<Seq<char>>
    decreases name.len(),
{
    if name.len() <= 1 {
        None
    } else if name.last() == '.' {
        Some(Seq::empty())
    } else {
        match extension_of_name(name.drop_last()) {
            Some(extension) => Some(extension.push(name.last())),
            None => None,
        }
    }
}

/// Reads the extension of a path with `std::path::Path::extension`.
///
/// It is what follows the last dot of the file name, unless that dot is the
/// name's first character, so it holds no dot of its own. Which part of a path
/// is its file name depends on the platform, so the exact result is claimed only
/// for a path whose file name is the same anywhere.
#[verifier::external_body]
fn path_extension(path: &str) -> (r: Option<String>)
    ensures
        r matches Some(extension) ==> forall|i: int|
            0 <= i < extension@.len() ==> extension@[i] != '.',
        names_a_file(path@) ==> text::view_option(r) == extension_of_name(file_name(path@)),
{
    std::path::Path::new(path).extension().and_then(|e| e.to_str()).map(|e| e.to_string())
}

/// The container that a file extension names, whatever its case.
pub open spec fn container_for(extension: Seq<char>) -> Option<RecordFormat> {
    let lower = text::lowercase(extension);
    if lower == "mp4"@ || lower == "m4v"@ || lower == "m4s"@ {
        Some(RecordFormat::Fmp4)
    } else if lower == "mkv"@ || lower == "webm"@ {
        Some(RecordFormat::Mkv)
    } else {
        None
    }
}

/// The container that an extension names, if it names one.
pub fn format_from_extension(extension: &str) -> (r: Option<RecordFormat>)
    ensures
        r == container_for(extension@),
{
    let lower = text::to_lowercase(extension);
    let lower = lower.as_str();
    if text::same(lower, "mp4") || text::same(lower, "m4v") || text::same(lower, "m4s") {
        Some(RecordFormat::Fmp4)
    } else if text::same(lower, "mkv") || text::same(lower, "webm") {
        Some(RecordFormat::Mkv)
    } else {
        None
    }
}

/// The container that a path's extension names, if it names one.
pub fn format_from_path(path: &str) -> (r: Option<RecordFormat>)
    ensures
        names_a_file(path@) ==> r == (match extension_of_name(file_name(path@)) {
            Some(extension) => container_for(extension),
            None => None,
        }),
{
    match path_extension(path) {
        Some(extension) => format_from_extension(extension.as_str()),
        None => None,
    }
}

/// Where a recording goes, and which of the broadcast's tracks it keeps.
#[derive(Debug)]
pub struct RecordOptions {
    /// The file to write.
    pub path: String,
    /// The container to write it in.
    pub format: RecordFormat,
    /// The one video rendition to keep, or every one the catalog offers.
    pub rendition: Option<String>,
    /// How long a stalled group is waited for before it is skipped.
    pub latency: Duration,
    /// How long to record for, or until interrupted.
    pub duration: Option<Duration>,
}

/// The message for a path whose extension names no container.
pub open spec fn unknown_extension(path: Seq<char>) -> Seq<char> {
    "cannot tell which container "@ + path
        + " should be, so pass --format fmp4 or --format mkv; the extensions recognised here are .mp4, .m4v, .m4s, .mkv, and .webm"@
}

/// Whether `options` record `path` in `format` and are otherwise the defaults.
pub open spec fn default_options(
    options: RecordOptions,
    path: Seq<char>,
    format: RecordFormat,
) -> bool {
    &&& options.path@ == path
    &&& options.format == format
    &&& options.rendition is None
    &&& options.latency.nanos == time::secs(2)
    &&& options.duration is None
}

impl RecordOptions {
    /// Records `path` in `format`, or in the container its extension names,
    /// keeping every rendition until the broadcast ends.
    ///
    /// # Errors
    ///
    /// Fails if neither `format` nor the extension names a container.
    pub fn new(path: &str, format: Option<RecordFormat>) -> (r: Result<RecordOptions, String>)
        ensures
            match r {
                Ok(options) => default_options(options, path@, options.format) && options.path@
                    == path@ && options.rendition is None && options.latency.nanos == 2_000_000_000
                    && options.duration is None,
                Err(e) => e@ == unknown_extension(path@) && format is None,
            },
            format matches Some(format) ==> r is Ok && r->Ok_0.format == format,
            format is None && names_a_file(path@) ==> match extension_of_name(file_name(path@)) {
                Some(extension) => match container_for(extension) {
                    Some(found) => r matches Ok(options) && options.format == found,
                    None => r is Err,
                },
                None => r is Err,
            },
    {
        let implied = match format {
            Some(_) => None,
            None => format_from_path(path),
        };
        RecordOptions::in_container(path, format, implied)
    }

    /// Records `path` in `format`, or in the container `implied` by its
    /// extension.
    ///
    /// # Errors
    ///
    /// Fails if there is neither.
    pub fn in_container(
        path: &str,
        format: Option<RecordFormat>,
        implied: Option<RecordFormat>,
    ) -> (r: Result<RecordOptions, String>)
        ensures
            match (format, implied) {
                (Some(format), _) => r matches Ok(options) && default_options(
                    options,
                    path@,
                    format,
                ),
                (None, Some(format)) => r matches Ok(options) && default_options(
                    options,
                    path@,
                    format,
                ),
                (None, None) => r matches Err(e) && e@ == unknown_extension(path@),
            },
            r matches Ok(options) ==> options.path@ == path@ && options.rendition is None
                && options.latency.nanos == 2_000_000_000 && options.duration is None && Some(
                options.format,
            ) == (if format is Some {
                format
            } else {
                implied
            }),
            r is Ok <==> format is Some || implied is Some,
            r matches Err(e) ==> e@ == "cannot tell which container "@ + path@
                + " should be, so pass --format fmp4 or --format mkv; the extensions recognised here are .mp4, .m4v, .m4s, .mkv, and .webm"@,
    {
        let format = match (format, implied) {
            (Some(format), _) => format,
            (None, Some(format)) => format,
            (None, None) => return Err(
                text::join3(
                    "cannot tell which container ",
                    path,
                    " should be, so pass --format fmp4 or --format mkv; the extensions recognised here are .mp4, .m4v, .m4s, .mkv, and .webm",
                ),
            ),
        };
        Ok(
            RecordOptions {
                path: path.to_owned(),
                format,
                rendition: None,
                latency: Duration::from_secs(DEFAULT_LATENCY_SECS),
                duration: None,
            },
        )
    }
}

/// The options `args` describes.
///
/// # Errors
///
/// Fails if neither the format nor the output's extension names a container.
pub fn options(args: &RecordArgs) -> (r: Result<RecordOptions, String>)
    ensures
        match r {
            Ok(options) => {
                &&& options.path@ == args.output@
                &&& text::view_option(options.rendition) == text::view_option(args.rendition)
                &&& options.latency.nanos == args.latency * 1_000_000
                &&& args.duration matches Some(secs) ==> options.duration matches Some(d) && d.nanos
                    == secs * 1_000_000_000
                &&& options.latency.nanos == time::millis(args.latency as int)
                &&& match args.duration {
                    Some(secs) => options.duration matches Some(d) && d.nanos == time::secs(
                        secs as int,
                    ),
                    None => options.duration is None,
                }
            },
            Err(e) => e@ == unknown_extension(args.output@) && args.format is None,
        },
        args.format matches Some(format) ==> r is Ok && r->Ok_0.format == format,
        args.format is None && names_a_file(args.output@) ==> match extension_of_name(
            file_name(args.output@),
        ) {
            Some(extension) => match container_for(extension) {
                Some(found) => r matches Ok(options) && options.format == found,
                None => r is Err,
            },
            None => r is Err,
        },
{
    let mut options = match RecordOptions::new(args.output.as_str(), args.format) {
        Ok(options) => options,
        Err(e) => return Err(e),
    };
    options.rendition = text::clone_option(&args.rendition);
    options.latency = Duration::from_millis(args.latency);
    options.duration = match args.duration {
        Some(secs) => Some(Duration::from_secs(secs)),
        None => None,
    };
    Ok(options)
}

/// What a broadcast offers, in words.
pub open spec fn offer_text(offered: Seq<Seq<char>>) -> Seq<char> {
    if offered.len() == 0 {
        "no video at all"@
    } else {
        text::joined(offered, ", "@)
    }
}

/// The message for a rendition that a broadcast does not have.
pub open spec fn missing_rendition(name: Seq<char>, offered: Seq<Seq<char>>) -> Seq<char> {
    "the broadcast has no video rendition named '"@ + name + "'; it offers "@ + offer_text(offered)
}

/// Checks a requested rendition against those a broadcast offers.
///
/// Selecting one that is not there would write a file with no video in it, which
/// only shows up when the recording is played back.
///
/// # Errors
///
/// Fails if there is no video rendition of that name, listing the ones there
/// are.
pub fn check_rendition(offered: &Vec<String>, name: &str) -> (r: Result<(), String>)
    ensures
        match r {
            Ok(_) => text::views(offered@).contains(name@),
            Err(e) => !text::views(offered@).contains(name@) && e@ == missing_rendition(
                name@,
                text::views(offered@),
            ),
        },
        r is Ok <==> exists|i: int| 0 <= i < offered@.len() && (#[trigger] offered@[i])@ == name@,
        r matches Err(e) ==> e@ == "the broadcast has no video rendition named '"@ + name@
            + "'; it offers "@ + (if offered@.len() == 0 {
            "no video at all"@
        } else {
            text::joined(text::views(offered@), ", "@)
        }),
{
    let mut i: usize = 0;
    while i < offered.len()
        invariant
            i <= offered@.len(),
            forall|j: int| 0 <= j < i ==> offered@[j]@ != name@,
        decreases offered@.len() - i,
    {
        if text::same(offered[i].as_str(), name) {
            proof {
                assert(text::views(offered@)[i as int] == name@);
            }
            return Ok(());
        }
        i = i + 1;
    }
    proof {
        if text::views(offered@).contains(name@) {
            let j = choose|j: int|
                0 <= j < text::views(offered@).len() && text::views(offered@)[j] == name@;
            assert(offered@[j]@ == name@);
        }
    }
    let offer = if offered.len() == 0 {
        "no video at all".to_owned()
    } else {
        text::join_all(offered, ", ")
    };
    Err(
        text::join4(
            "the broadcast has no video rendition named '",
            name,
            "'; it offers ",
            offer.as_str(),
        ),
    )
}

/// What a catalog holds, as the line printed before recording it.
pub fn catalog_line(video: usize, audio: usize) -> (r: String)
    ensures
        r@ == "catalog: "@ + text::decimal(video as nat) + " video, "@ + text::decimal(audio as nat)
            + " audio renditions"@,
{
    text::join5(
        "catalog: ",
        text::decimal_text(video as u64).as_str(),
        " video, ",
        text::decimal_text(audio as u64).as_str(),
        " audio renditions",
    )
}

/// Refuses a catalog that holds nothing to record.
pub fn check_catalog(video: usize, audio: usize) -> (r: Result<(), String>)
    ensures
        match r {
            Ok(()) => video > 0 || audio > 0,
            Err(e) => video == 0 && audio == 0 && e@
                == "the broadcast carries no video and no audio, so there is nothing to record"@,
        },
{
    if video == 0 && audio == 0 {
        return Err(
            "the broadcast carries no video and no audio, so there is nothing to record".to_owned(),
        );
    }
    Ok(())
}

/// How long a recording runs, as the line printed when it starts.
pub fn started_line(options: &RecordOptions) -> (r: String)
    ensures
        match options.duration {
            Some(duration) => r@ == "recording for "@ + text::decimal(
                duration.nanos as nat / time::NANOS_PER_SEC as nat,
            ) + "s ..."@,
            None => r@ == "recording, press Ctrl+C to stop"@,
        },
{
    match options.duration {
        Some(duration) => text::join3(
            "recording for ",
            text::wide_decimal_text(duration.as_secs()).as_str(),
            "s ...",
        ),
        None => "recording, press Ctrl+C to stop".to_owned(),
    }
}

/// What a finished recording holds, as its last line.
pub fn written_line(written: u64, path: &str) -> (r: String)
    ensures
        r@ == "wrote "@ + bytes_text(written as int) + " to "@ + path@,
{
    text::join4("wrote ", format_bytes(written).as_str(), " to ", path)
}

/// `n` divided by `d`, to the nearest whole number and to the even one of two
/// that are equally near.
pub open spec fn rounded(n: int, d: int) -> int {
    let q = n / d;
    let r = n % d;
    if 2 * r < d || 2 * r == d && q % 2 == 0 {
        q
    } else {
        q + 1
    }
}

/// The least power of two, from `step` on, that `n` has fewer than 2^53 of: the
/// spacing of the numbers with 53 significant bits around `n`.
pub open spec fn spacing(n: int, step: int) -> int
    decreases n / step,
    when step > 0 && n >= 0
{
    if n / step < 9_007_199_254_740_992 {
        step
    } else {
        proof {
            assert(n / (step * 2) < n / step) by (nonlinear_arith)
                requires
                    step > 0,
                    n >= 0,
                    n / step >= 9_007_199_254_740_992,
            ;
            assert(n / (step * 2) >= 0) by (nonlinear_arith)
                requires
                    step > 0,
                    n >= 0,
            ;
        }
        spacing(n, step * 2)
    }
}

/// The number with 53 significant bits that is nearest to `n`.
pub open spec fn to_53_bits(n: int) -> int {
    rounded(n, spacing(n, 1)) * spacing(n, 1)
}

/// A byte count in units of `unit` bytes, to one decimal.
pub open spec fn in_units(bytes: int, unit: int) -> Seq<char> {
    let tenths = rounded(to_53_bits(bytes) * 10, unit);
    text::decimal((tenths / 10) as nat) + "."@ + text::decimal((tenths % 10) as nat)
}

/// A byte count, as people read one.
pub open spec fn bytes_text(bytes: int) -> Seq<char> {
    if bytes < 1024 {
        text::decimal(bytes as nat) + " B"@
    } else if bytes < 1_048_576 {
        in_units(bytes, 1024) + " KiB"@
    } else {
        in_units(bytes, 1_048_576) + " MiB"@
    }
}

fn round_div(n: u128, d: u128) -> (r: u128)
    requires
        0 < d < 0x1_0000_0000_0000_0000,
        n < 0x1_0000_0000_0000_0000_0000_0000,
    ensures
        r == rounded(n as int, d as int),
        r <= n / d + 1,
{
    let q: u128 = n / d;
    let rem: u128 = n % d;
    assert(q <= n) by (nonlinear_arith)
        requires
            d >= 1,
            q == n / d,
            0 <= n,
    ;
    if 2 * rem < d || 2 * rem == d && q % 2 == 0 {
        q
    } else {
        q + 1
    }
}

fn nearest_53_bits(n: u64) -> (r: u128)
    ensures
        r == to_53_bits(n as int),
        r <= 0x4_0000_0000_0000_0000,
{
    let mut step: u64 = 1;
    while n / step >= 9_007_199_254_740_992
        invariant
            1 <= step <= 4094,
            spacing(n as int, 1) == spacing(n as int, step as int),
        decreases n / step,
    {
        proof {
            let a = n as int;
            let s = step as int;
            assert(s <= 2047) by (nonlinear_arith)
                requires
                    a / s >= 9_007_199_254_740_992,
                    a <= 0xffff_ffff_ffff_ffff,
                    s >= 1,
            ;
            assert(a / (s * 2) < a / s) by (nonlinear_arith)
                requires
                    s >= 1,
                    a / s >= 1,
                    a >= 0,
            ;
        }
        step = step * 2;
    }
    let r: u128 = round_div(n as u128, step as u128);
    proof {
        let s = step as int;
        assert(r * s <= 9_007_199_254_740_992 * 4094) by (nonlinear_arith)
            requires
                0 <= r <= 9_007_199_254_740_992,
                1 <= s <= 4094,
        ;
    }
    r * step as u128
}

fn write_in_units(bytes: u64, unit: u128) -> (r: String)
    requires
        unit == 1024 || unit == 1_048_576,
    ensures
        r@ == in_units(bytes as int, unit as int),
{
    let scaled: u128 = nearest_53_bits(bytes);
    let tenths: u128 = round_div(scaled * 10, unit);
    text::join3(
        text::decimal_text((tenths / 10) as u64).as_str(),
        ".",
        text::decimal_text((tenths % 10) as u64).as_str(),
    )
}

/// Formats a byte count for the progress line: whole bytes below a kibibyte, and
/// kibibytes or mebibytes to one decimal above.
///
/// A count of more than 53 significant bits is rounded to that many first, as a
/// double-precision number holds it.
pub fn format_bytes(bytes: u64) -> (r: String)
    ensures
        r@ == bytes_text(bytes as int),
{
    if bytes < 1024 {
        text::join2(text::decimal_text(bytes).as_str(), " B")
    } else if bytes < 1_048_576 {
        text::join2(write_in_units(bytes, 1024).as_str(), " KiB")
    } else {
        text::join2(write_in_units(bytes, 1_048_576).as_str(), " MiB")
    }
}

/// A count within 53 bits is taken as it is.
pub proof fn ordinary_counts_are_exact(bytes: int)
    requires
        0 <= bytes < 9_007_199_254_740_992,
    ensures
        to_53_bits(bytes) == bytes,
{
    assert(bytes / 1 == bytes && bytes % 1 == 0);
    assert(spacing(bytes, 1) == 1);
}

/// How far a recording has got.
#[derive(Debug, Clone, Copy, PartialEq, Eq, Structural)]
pub struct Progress {
    /// Bytes written so far.
    pub written: u64,
    /// When progress was last reported.
    pub reported: Instant,
}

impl Progress {
    /// A recording that starts at `now`.
    pub fn new(now: Instant) -> (r: Progress)
        ensures
            r.written == 0,
            r.reported == now,
    {
        Progress { written: 0, reported: now }
    }

    /// Counts a chunk that was written, and returns whether progress is due to
    /// be reported.
    pub fn wrote(&mut self, len: u64, now: Instant) -> (r: bool)
        requires
            old(self).written + len <= u64::MAX,
        ensures
            final(self).written == old(self).written + len,
            r == (time::since(now, old(self).reported) >= REPORT_INTERVAL),
            r == (now.nanos >= old(self).reported.nanos + 2_000_000_000),
            final(self).reported == (if r {
                now
            } else {
                old(self).reported
            }),
    {
        self.written = self.written + len;
        if now.duration_since(self.reported).nanos >= REPORT_INTERVAL {
            self.reported = now;
            true
        } else {
            false
        }
    }
}

/// The extension of a file name is what follows its last dot, and a name has one exactly
/// where a dot stands after its first character.
pub proof fn extensions_follow_the_last_dot(name: Seq<char>)
    ensures
        match extension_of_name(name) {
            Some(extension) => {
                let n = name.len() - extension.len() - 1;
                &&& n >= 1
                &&& name == name.take(n) + seq!['.'] + extension
                &&& forall|i: int| 0 <= i < extension.len() ==> extension[i] != '.'
            },
            None => forall|i: int| 1 <= i < name.len() ==> name[i] != '.',
        },
    decreases name.len(),
{
    if name.len() > 1 {
        let front = name.drop_last();
        if name.last() == '.' {
            assert(name =~= name.take(name.len() - 1) + seq!['.'] + Seq::<char>::empty());
        } else {
            extensions_follow_the_last_dot(front);
            match extension_of_name(front) {
                Some(extension) => {
                    let n = front.len() - extension.len() - 1;
                    assert(name.take(n) =~= front.take(n));
                    assert(name =~= front.push(name.last()));
                    assert(name =~= name.take(n) + seq!['.'] + extension.push(name.last()));
                },
                None => {
                    assert forall|i: int| 1 <= i < name.len() implies name[i] != '.' by {
                        if i < front.len() {
                            assert(front[i] == name[i]);
                        }
                    }
                },
            }
        }
    }
}

/// An extension names a container by its word in letters of any case: `mp4`, `m4v` and
/// `m4s` fragmented MP4, `mkv` and `webm` Matroska, and no other word any.
pub proof fn extensions_name_containers(extension: Seq<char>)
    ensures
        container_for(extension) == Some(RecordFormat::Fmp4) <==> (text::lowercase(extension)
            == "mp4"@ || text::lowercase(extension) == "m4v"@ || text::lowercase(extension)
            == "m4s"@),
        container_for(extension) == Some(RecordFormat::Mkv) <==> (text::lowercase(extension)
            == "mkv"@ || text::lowercase(extension) == "webm"@),
{
    reveal_strlit("mp4");
    reveal_strlit("m4v");
    reveal_strlit("m4s");
    reveal_strlit("mkv");
    reveal_strlit("webm");
    assert("mp4"@[1] == 'p' && "m4v"@[1] == '4' && "m4s"@[1] == '4' && "mkv"@[1] == 'k');
    assert("webm"@.len() == 4);
}

/// Rounding a quotient is to the nearest whole number, and to the even one of two that
/// are equally near.
pub proof fn rounding_is_to_the_nearest(n: int, d: int)
    requires
        n >= 0,
        d > 0,
    ensures
        -d <= 2 * (n - rounded(n, d) * d) <= d,
        2 * (n - rounded(n, d) * d) == d || 2 * (n - rounded(n, d) * d) == -d ==> rounded(n, d) % 2
            == 0,
{
    let q = n / d;
    let r = n % d;
    assert(n == q * d + r && 0 <= r < d) by (nonlinear_arith)
        requires
            d > 0,
            n >= 0,
            q == n / d,
            r == n % d,
    ;
    assert((q + 1) * d == q * d + d) by (nonlinear_arith);
}

/// A byte count is written in whole bytes below 1024, and above in the unit that it
/// reaches, kibibytes or mebibytes, to the nearest tenth.
pub proof fn byte_counts_read_in_their_unit(bytes: int)
    requires
        0 <= bytes < 9_007_199_254_740_992,
    ensures
        bytes < 1024 ==> bytes_text(bytes) == text::decimal(bytes as nat) + " B"@,
        1024 <= bytes < 1_048_576 ==> exists|tenths: int|
            {
                &&& -1024 <= 2 * (10 * bytes - #[trigger] (tenths * 1024)) <= 1024
                &&& tenths >= 0
                &&& bytes_text(bytes) == text::decimal((tenths / 10) as nat) + "."@ + text::decimal(
                    (tenths % 10) as nat,
                ) + " KiB"@
            },
        bytes >= 1_048_576 ==> exists|tenths: int|
            {
                &&& -1_048_576 <= 2 * (10 * bytes - #[trigger] (tenths * 1_048_576)) <= 1_048_576
                &&& tenths >= 0
                &&& bytes_text(bytes) == text::decimal((tenths / 10) as nat) + "."@ + text::decimal(
                    (tenths % 10) as nat,
                ) + " MiB"@
            },
{
    ordinary_counts_are_exact(bytes);
    rounding_is_to_the_nearest(10 * bytes, 1024);
    rounding_is_to_the_nearest(10 * bytes, 1_048_576);
    let k = rounded(10 * bytes, 1024);
    let m = rounded(10 * bytes, 1_048_576);
    assert(to_53_bits(bytes) * 10 == 10 * bytes);
    assert(-1024 <= 2 * (10 * bytes - k * 1024) <= 1024);
    assert(-1_048_576 <= 2 * (10 * bytes - m * 1_048_576) <= 1_048_576);
}

} // verus!
