//! Reading a ticket off a QR code held up to the camera.
//!
//! The window shows what the lens sees and connects as soon as a picture carries
//! a QR code that parses as a [`LiveTicket`]. What is here decides: which camera
//! is read, when a picture is looked at, what a code that was read means, and
//! what the screen says. The camera, the decoders, the threads and the clock are the
//! caller's.

use vstd::prelude::*;
use vstd::string::*;

use crate::features::Features;
use crate::rendition::Size;
use crate::source_spec;
use crate::source_spec::{RpicamMode, VideoSourceSpec, VideoSourceView};
use crate::text;
use crate::ticket;
use crate::ticket::{LiveTicket, TicketError, TicketView};
use crate::time::{Duration, Instant};

verus! {

/// How long the scanner waits between two looks for a QR code, in nanoseconds.
///
/// Somebody lining a code up in front of a lens holds it there for a second or
/// more, so three looks a second find it as fast as thirty would.
pub const DECODE_INTERVAL: u128 = 333_000_000;

/// Width the scanner asks the camera for.
pub const SCAN_WIDTH: u32 = 1280;

/// Height the scanner asks the camera for.
pub const SCAN_HEIGHT: u32 = 720;

/// Frame rate the scanner asks the camera for.
pub const SCAN_FRAMERATE: u32 = 15;

/// How long the scanner waits before it reopens a camera that failed, in
/// nanoseconds.
pub const REOPEN_DELAY: u128 = 2_000_000_000;

/// How many pictures between one log line about the preview rate and the next.
pub const PREVIEW_REPORT_EVERY: u64 = 100;

/// How long a camera has to produce a picture, in seconds.
pub const FIRST_FRAME_GRACE_SECS: u64 = 5;

/// A ticket the scanner keeps looking past, and until when.
///
/// A dial that fails sends the window back to the camera with the same code still
/// held up to it. The wait happens behind a live preview, and a different code
/// held up during it still connects immediately.
#[derive(Debug)]
pub struct Skip {
    /// The ticket not to report.
    pub ticket: LiveTicket,
    /// When it may be reported again.
    pub until: Instant,
}

impl Clone for Skip {
    fn clone(&self) -> (r: Skip)
        ensures
            r.ticket.equals(self.ticket),
            r.until == self.until,
    {
        Skip { ticket: self.ticket.clone(), until: self.until }
    }
}

/// What `--scan-camera` is told about a source that is no camera.
pub open spec fn not_a_camera(spec: Seq<char>) -> Seq<char> {
    "--scan-camera reads a camera: 'cam' for the default one, 'cam:<id>' for one              `irl devices` lists, or 'rpicam' for the Raspberry Pi camera; got '"@
        + spec + "'"@
}

/// The camera that `--scan-camera` names: the grammar is that of `--video`, and
/// only a camera will do. The Raspberry Pi camera means its raw pictures.
pub open spec fn camera_of(features: Features, spec: Option<Seq<char>>) -> Result<
    Option<VideoSourceView>,
    Seq<char>,
> {
    match spec {
        None => Ok(None),
        Some(spec) => match source_spec::video_source(features, spec) {
            Err(e) => Err(e),
            Ok(VideoSourceView::Camera(id)) => Ok(Some(VideoSourceView::Camera(id))),
            Ok(VideoSourceView::Rpicam(_)) => Ok(Some(VideoSourceView::Rpicam(RpicamMode::Raw))),
            Ok(_) => Err(not_a_camera(spec)),
        },
    }
}

/// Whether `r` is the result `expected`.
pub open spec fn camera_result(
    r: Result<Option<VideoSourceSpec>, String>,
    expected: Result<Option<VideoSourceView>, Seq<char>>,
) -> bool {
    match (r, expected) {
        (Ok(Some(spec)), Ok(Some(view))) => spec@ == view,
        (Ok(None), Ok(None)) => true,
        (Err(e), Err(view)) => e@ == view,
        _ => false,
    }
}

/// Reads `--scan-camera`, for a build without the Raspberry Pi camera.
///
/// `None` leaves the choice to [`resolve`].
///
/// # Errors
///
/// Returns a message naming the accepted forms.
pub fn camera_spec(spec: Option<&str>) -> (r: Result<Option<VideoSourceSpec>, String>)
    ensures
        camera_result(
            r,
            camera_of(
                Features::stock(),
                match spec {
                    Some(s) => Some(s@),
                    None => None,
                },
            ),
        ),
{
    camera_spec_with(Features::default(), spec)
}

/// Reads `--scan-camera`, for a build with the given features.
///
/// # Errors
///
/// As for [`camera_spec`].
pub fn camera_spec_with(features: Features, spec: Option<&str>) -> (r: Result<
    Option<VideoSourceSpec>,
    String,
>)
    ensures
        camera_result(
            r,
            camera_of(
                features,
                match spec {
                    Some(s) => Some(s@),
                    None => None,
                },
            ),
        ),
{
    match spec {
        None => Ok(None),
        Some(spec) => match VideoSourceSpec::parse_with(features, spec) {
            Err(e) => Err(e),
            Ok(parsed) => match parsed {
                VideoSourceSpec::Camera(id) => Ok(Some(VideoSourceSpec::Camera(id))),
                VideoSourceSpec::Rpicam(_) => Ok(Some(VideoSourceSpec::Rpicam(RpicamMode::Raw))),
                _ => Err(
                    text::join3(
                        "--scan-camera reads a camera: 'cam' for the default one, 'cam:<id>' for one              `irl devices` lists, or 'rpicam' for the Raspberry Pi camera; got '",
                        spec,
                        "'",
                    ),
                ),
            },
        },
    }
}

/// The camera to open: the chosen one, or else the Raspberry Pi camera where
/// this build can drive it and its program is installed, or else the default
/// camera.
pub open spec fn resolved(
    choice: Option<VideoSourceView>,
    features: Features,
    rpicam_on_path: bool,
) -> VideoSourceView {
    match choice {
        Some(view) => view,
        None => if features.rpicam && rpicam_on_path {
            VideoSourceView::Rpicam(RpicamMode::Raw)
        } else {
            VideoSourceView::Camera(None)
        },
    }
}

/// The camera to open when `--scan-camera` may have named none.
///
/// A Raspberry Pi's first video device accepts the requested geometry and then
/// never delivers a picture, so where this build can drive the camera's own
/// program, that is the better guess.
pub fn resolve(choice: Option<&VideoSourceSpec>, features: Features, rpicam_on_path: bool) -> (r:
    VideoSourceSpec)
    ensures
        r@ == resolved(
            match choice {
                Some(spec) => Some(spec@),
                None => None,
            },
            features,
            rpicam_on_path,
        ),
{
    match choice {
        Some(spec) => spec.clone(),
        None => if features.rpicam && rpicam_on_path {
            VideoSourceSpec::Rpicam(RpicamMode::Raw)
        } else {
            VideoSourceSpec::Camera(None)
        },
    }
}

/// Whatever the flag says, what the scanner opens is a camera, and the Raspberry
/// Pi camera only ever by its raw pictures.
pub proof fn scanning_opens_a_camera(
    features: Features,
    spec: Option<Seq<char>>,
    rpicam_on_path: bool,
)
    requires
        camera_of(features, spec) is Ok,
    ensures
        match resolved(camera_of(features, spec)->Ok_0, features, rpicam_on_path) {
            VideoSourceView::Camera(_) => true,
            VideoSourceView::Rpicam(mode) => mode == RpicamMode::Raw,
            _ => false,
        },
{
}

/// How a camera is opened for scanning.
#[derive(Debug)]
pub enum ScanPlan {
    /// A camera, by its id, or the default one.
    Capture {
        /// Its id.
        id: Option<String>,
        /// How large.
        size: Size,
        /// How often.
        framerate: u32,
    },
    /// The Raspberry Pi camera's raw pictures.
    Rpicam {
        /// How large.
        size: Size,
        /// How often.
        framerate: u32,
    },
}

impl ScanPlan {
    /// Whether this is the Raspberry Pi camera, which changes what a camera that
    /// sends nothing is likely to mean.
    pub fn is_rpicam(&self) -> (r: bool)
        ensures
            r == (self is Rpicam),
    {
        match self {
            ScanPlan::Capture { .. } => false,
            ScanPlan::Rpicam { .. } => true,
        }
    }
}

/// How to open the camera that [`resolve`] came to.
pub fn plan(camera: VideoSourceSpec) -> (r: ScanPlan)
    requires
        camera is Camera || camera is Rpicam,
    ensures
        match r {
            ScanPlan::Capture { id, size, framerate } => {
                &&& camera@ == VideoSourceView::Camera(text::view_option(id))
                &&& size == (Size { width: SCAN_WIDTH, height: SCAN_HEIGHT })
                &&& framerate == SCAN_FRAMERATE
            },
            ScanPlan::Rpicam { size, framerate } => {
                &&& camera is Rpicam
                &&& size == (Size { width: SCAN_WIDTH, height: SCAN_HEIGHT })
                &&& framerate == SCAN_FRAMERATE
            },
        },
        match r {
            ScanPlan::Capture { size, framerate, .. } => size.width == 1280 && size.height == 720
                && framerate == 15,
            ScanPlan::Rpicam { size, framerate } => size.width == 1280 && size.height == 720
                && framerate == 15,
        },
{
    let size = Size { width: SCAN_WIDTH, height: SCAN_HEIGHT };
    match camera {
        VideoSourceSpec::Camera(id) => ScanPlan::Capture { id, size, framerate: SCAN_FRAMERATE },
        _ => ScanPlan::Rpicam { size, framerate: SCAN_FRAMERATE },
    }
}

/// What the scan screen tells the user to do.
pub fn prompt() -> (r: &'static str)
    ensures
        r@ == "Hold a ticket QR code up to the camera"@,
{
    "Hold a ticket QR code up to the camera"
}

/// How far the scanner has got.
#[derive(Debug)]
pub enum ScanState {
    /// The camera is open and no QR code has decoded yet.
    Looking,
    /// A QR code decoded and is not a ticket.
    NotATicket,
    /// A ticket decoded. The camera has been released.
    Found(LiveTicket),
    /// The code in front of the camera is the one whose dial just failed, and
    /// this much is left of the wait before it is offered again.
    Waiting(Duration),
    /// The camera could not be opened, or it stopped.
    Failed(String),
}

impl ScanState {
    /// What the screen says under the prompt.
    pub open spec fn note_text(self) -> Option<Seq<char>> {
        match self {
            ScanState::Looking => None,
            ScanState::NotATicket => Some("that QR code is not an iroh-live ticket"@),
            ScanState::Found(ticket) => Some("connecting to "@ + ticket.broadcast_name@),
            ScanState::Waiting(left) => Some(
                "that ticket did not connect, trying it again in "@ + text::decimal(
                    (left.nanos as nat / 1_000_000_000 + 1) as nat,
                ) + "s"@,
            ),
            ScanState::Failed(err) => Some(err@),
        }
    }

    /// What the screen says under the prompt.
    pub fn note(&self) -> (r: Option<String>)
        ensures
            text::view_option(r) == self.note_text(),
            match *self {
                ScanState::Looking => r is None,
                ScanState::NotATicket => r matches Some(note) && note@
                    == "that QR code is not an iroh-live ticket"@,
                ScanState::Found(ticket) => r matches Some(note) && note@ == "connecting to "@
                    + ticket.broadcast_name@,
                ScanState::Waiting(left) => r matches Some(note) && note@
                    == "that ticket did not connect, trying it again in "@ + text::decimal(
                    (left.nanos as nat / 1_000_000_000 + 1) as nat,
                ) + "s"@,
                ScanState::Failed(err) => r matches Some(note) && note@ == err@,
            },
    {
        match self {
            ScanState::Looking => None,
            ScanState::NotATicket => Some("that QR code is not an iroh-live ticket".to_owned()),
            ScanState::Found(ticket) => Some(
                text::join2("connecting to ", ticket.broadcast_name.as_str()),
            ),
            ScanState::Waiting(left) => {
                let secs = text::wide_decimal_text(left.as_secs() + 1);
                Some(
                    text::join3(
                        "that ticket did not connect, trying it again in ",
                        secs.as_str(),
                        "s",
                    ),
                )
            },
            ScanState::Failed(err) => Some(err.clone()),
        }
    }

    /// The ticket, once one has been found.
    pub fn ticket(&self) -> (r: Option<LiveTicket>)
        ensures
            match r {
                Some(ticket) => (*self matches ScanState::Found(found) && ticket.equals(found)),
                None => !(self is Found),
            },
    {
        match self {
            ScanState::Found(ticket) => Some(ticket.clone()),
            _ => None,
        }
    }
}

/// How much of a wait is left, in nanoseconds, if `ticket` is the one it is for
/// and it has not run out.
pub open spec fn wait_left(skip: Option<&Skip>, ticket: LiveTicket, now: Instant) -> Option<int> {
    match skip {
        Some(skip) if skip.ticket.equals(ticket) && skip.until.nanos >= now.nanos => Some(
            skip.until.nanos - now.nanos,
        ),
        _ => None,
    }
}

/// Returns how much of `skip`'s wait is left, if `ticket` is the one it names and
/// the wait has not run out.
pub fn still_skipped(skip: Option<&Skip>, ticket: &LiveTicket, now: Instant) -> (r: Option<Duration>)
    ensures
        match r {
            Some(left) => wait_left(skip, *ticket, now) == Some(left.nanos as int),
            None => wait_left(skip, *ticket, now) is None,
        },
        r is Some <==> (skip matches Some(skip) && skip.ticket.equals(*ticket) && skip.until.nanos
            >= now.nanos),
        r matches Some(left) ==> left.nanos == skip->0.until.nanos - now.nanos,
{
    match skip {
        None => None,
        Some(skip) => if skip.ticket.same(ticket) && skip.until.nanos >= now.nanos {
            Some(Duration { nanos: skip.until.nanos - now.nanos })
        } else {
            None
        },
    }
}

/// A ticket that was not refused is never held off, and one that was is not held
/// off once its wait has run out.
pub proof fn only_the_refused_ticket_waits(skip: Skip, ticket: LiveTicket, now: Instant)
    requires
        !skip.ticket.equals(ticket) || skip.until.nanos < now.nanos,
    ensures
        wait_left(Some(&skip), ticket, now) is None,
        wait_left(None, ticket, now) is None,
{
}

/// What the text of a QR code comes to.
#[derive(Debug)]
pub enum Verdict {
    /// It is no ticket.
    NotATicket(TicketError),
    /// It is the ticket that is being waited with.
    Wait(Duration),
    /// It is a ticket to dial.
    Found(LiveTicket),
}

/// How much of a wait is left, in nanoseconds, for a ticket that was just read,
/// which never carries addresses.
pub open spec fn held_off(skip: Option<&Skip>, read: TicketView, now: Instant) -> Option<int> {
    match skip {
        Some(skip) if skip.ticket@ == read && skip.ticket.endpoint.addrs@.len() == 0
            && skip.until.nanos >= now.nanos => Some(skip.until.nanos - now.nanos),
        _ => None,
    }
}

/// Judges the text of a QR code: a ticket is dialed, unless its dial just failed
/// and the wait has not run out.
pub fn judge(code: &str, skip: Option<&Skip>, now: Instant) -> (r: Verdict)
    ensures
        match ticket::read(code@) {
            Err(e) => r == Verdict::NotATicket(e),
            Ok(view) => match r {
                Verdict::NotATicket(_) => false,
                Verdict::Wait(left) => held_off(skip, view, now) == Some(left.nanos as int),
                Verdict::Found(found) => {
                    &&& held_off(skip, view, now) is None
                    &&& found@ == view
                    &&& found.endpoint.addrs@.len() == 0
                },
            },
        },
        r is NotATicket <==> ticket::read(code@) is Err,
        r is Wait <==> (skip matches Some(skip) && ticket::read(code@) == Ok::<
            TicketView,
            TicketError,
        >(skip.ticket@) && skip.ticket.endpoint.addrs@.len() == 0 && skip.until.nanos
            >= now.nanos),
        r matches Verdict::Wait(left) ==> left.nanos == skip->0.until.nanos - now.nanos,
{
    match LiveTicket::deserialize(code) {
        Err(e) => Verdict::NotATicket(e),
        Ok(found) => {
            proof {
                if let Some(s) = skip {
                    assert(text::views(found.endpoint.addrs@).len() == 0);
                    assert(text::views(s.ticket.endpoint.addrs@).len()
                        == s.ticket.endpoint.addrs@.len());
                    assert(s.ticket.endpoint.addrs@.len() == 0 ==> text::views(
                        s.ticket.endpoint.addrs@,
                    ) =~= text::views(found.endpoint.addrs@));
                }
            }
            match still_skipped(skip, &found, now) {
                Some(left) => Verdict::Wait(left),
                None => Verdict::Found(found),
            }
        },
    }
}

/// What a camera that opened and then sent nothing is reported as.
pub open spec fn silent_camera(device: Seq<char>, rpicam: bool) -> Seq<char> {
    device + " opened but sent no pictures within "@ + text::decimal(
        FIRST_FRAME_GRACE_SECS as nat,
    ) + if rpicam {
        "s; check the ribbon cable"@
    } else {
        "s. A Raspberry Pi camera is not reachable this way: pass --scan-camera rpicam"@
    }
}

/// What to say about a camera that opened and then produced nothing.
///
/// Names the flag, because the fix is a flag and the reader is looking at a black
/// rectangle.
pub fn no_frames(device: &str, rpicam: bool) -> (r: String)
    ensures
        r@ == silent_camera(device@, rpicam),
        r@ == device@ + " opened but sent no pictures within "@ + text::decimal(5) + if rpicam {
            "s; check the ribbon cable"@
        } else {
            "s. A Raspberry Pi camera is not reachable this way: pass --scan-camera rpicam"@
        },
{
    let secs = text::decimal_text(FIRST_FRAME_GRACE_SECS);
    text::join4(
        device,
        " opened but sent no pictures within ",
        secs.as_str(),
        if rpicam {
            "s; check the ribbon cable"
        } else {
            "s. A Raspberry Pi camera is not reachable this way: pass --scan-camera rpicam"
        },
    )
}

/// What came of waiting for the next picture.
#[derive(Debug)]
pub enum CameraEvent {
    /// A picture.
    Frame,
    /// The camera has stopped.
    Stopped,
    /// The camera failed, with this to say on the screen.
    Failed(String),
    /// Nothing came within the grace period.
    Silent,
    /// The decoder read a ticket.
    Found(LiveTicket),
}

/// What to do about it.
#[derive(Debug)]
pub enum LookAction {
    /// Show the picture.
    Show {
        /// Copy its luma plane out first, and hand that to the decoder.
        decode: bool,
        /// Log how fast the camera delivers.
        report: bool,
    },
    /// Close the camera and dial this ticket.
    Dial(LiveTicket),
    /// Close the camera and report this.
    GiveUp(String),
}

/// One opening of the camera: which pictures are looked at, and when it is given
/// up.
#[derive(Debug, Clone, Copy)]
pub struct Look {
    /// When the camera opened.
    pub opened: Instant,
    /// Whether it has sent a picture.
    pub seen_a_frame: bool,
    /// How many pictures it has sent.
    pub delivered: u64,
    /// When the next picture is looked at.
    pub next_look: Instant,
}

impl Look {
    /// The camera has just opened. The first picture is looked at.
    pub fn new(now: Instant) -> (r: Look)
        ensures
            r == (Look { opened: now, seen_a_frame: false, delivered: 0, next_look: now }),
    {
        Look { opened: now, seen_a_frame: false, delivered: 0, next_look: now }
    }

    /// Decides what to do about an event.
    ///
    /// A picture is shown whether or not it is decoded, and is only decoded when
    /// the interval has passed and the decoder is idle. A camera that never sent
    /// anything is the wrong camera; one that stops sending has stalled.
    pub fn on_event(
        &mut self,
        event: CameraEvent,
        decoder_idle: bool,
        now: Instant,
        device: &str,
        rpicam: bool,
    ) -> (r: LookAction)
        requires
            old(self).delivered < u64::MAX,
        ensures
            match event {
                CameraEvent::Frame => {
                    &&& *final(self) == (Look {
                        seen_a_frame: true,
                        delivered: (old(self).delivered + 1) as u64,
                        ..*old(self)
                    })
                    &&& r == (LookAction::Show {
                        decode: now.nanos >= old(self).next_look.nanos && decoder_idle,
                        report: (old(self).delivered + 1) % PREVIEW_REPORT_EVERY as int == 0,
                    })
                    &&& r->report <==> (old(self).delivered + 1) % 100 == 0
                },
                CameraEvent::Stopped => {
                    &&& *final(self) == *old(self)
                    &&& r matches LookAction::GiveUp(problem)
                    &&& problem@ == "the camera stopped"@
                },
                CameraEvent::Failed(err) => {
                    &&& *final(self) == *old(self)
                    &&& r == LookAction::GiveUp(err)
                },
                CameraEvent::Silent => {
                    &&& *final(self) == *old(self)
                    &&& r matches LookAction::GiveUp(problem)
                    &&& problem@ == if old(self).seen_a_frame {
                        "the camera stopped delivering after "@ + text::decimal(
                            (crate::time::since(now, old(self).opened) / 1_000_000_000) as nat,
                        ) + "s"@
                    } else {
                        silent_camera(device@, rpicam)
                    }
                },
                CameraEvent::Found(ticket) => {
                    &&& *final(self) == *old(self)
                    &&& r == LookAction::Dial(ticket)
                },
            },
    {
        match event {
            CameraEvent::Found(ticket) => LookAction::Dial(ticket),
            CameraEvent::Stopped => LookAction::GiveUp("the camera stopped".to_owned()),
            CameraEvent::Failed(err) => LookAction::GiveUp(err),
            CameraEvent::Silent => {
                if self.seen_a_frame {
                    let secs = text::wide_decimal_text(now.duration_since(self.opened).as_secs());
                    LookAction::GiveUp(
                        text::join3("the camera stopped delivering after ", secs.as_str(), "s"),
                    )
                } else {
                    LookAction::GiveUp(no_frames(device, rpicam))
                }
            },
            CameraEvent::Frame => {
                self.seen_a_frame = true;
                self.delivered = self.delivered + 1;
                LookAction::Show {
                    decode: now.nanos >= self.next_look.nanos && decoder_idle,
                    report: self.delivered % PREVIEW_REPORT_EVERY == 0,
                }
            },
        }
    }

    /// A picture went to the decoder, or its luma plane could not be read: the
    /// interval restarts.
    pub fn looked(&mut self, now: Instant)
        requires
            now.nanos + DECODE_INTERVAL <= u128::MAX,
        ensures
            *final(self) == (Look {
                next_look: Instant { nanos: (now.nanos + DECODE_INTERVAL) as u128 },
                ..*old(self)
            }),
            final(self).next_look.nanos == now.nanos + 333_000_000,
    {
        self.next_look = Instant { nanos: now.nanos + DECODE_INTERVAL };
    }
}

/// Between two looks there is at least the interval: a picture that comes sooner
/// after a look is not decoded, and one that comes later is, if the decoder is
/// idle.
pub proof fn looks_are_an_interval_apart(before: Look, looked: Instant, now: Instant)
    requires
        looked.nanos + DECODE_INTERVAL <= u128::MAX,
    ensures
        ({
            let after = Look {
                next_look: Instant { nanos: (looked.nanos + DECODE_INTERVAL) as u128 },
                ..before
            };
            (now.nanos >= after.next_look.nanos) == (now.nanos - looked.nanos >= DECODE_INTERVAL)
        }),
{
}

/// The scanner over all the cameras it opens: whether it has complained yet.
#[derive(Debug, Clone, Copy, PartialEq, Eq, Structural)]
pub struct Scanner {
    /// Whether a failing camera has been warned about.
    pub said_so: bool,
}

impl Scanner {
    /// Nothing has failed yet.
    pub fn new() -> (r: Scanner)
        ensures
            !r.said_so,
    {
        Scanner { said_so: false }
    }

    /// A camera was given up. Returns what the screen shows and whether the log
    /// gets a warning: only for the first failure, since a camera that is not
    /// there would bury everything else. The camera is reopened after
    /// [`REOPEN_DELAY`].
    pub fn failed(&mut self, problem: String) -> (r: (ScanState, bool))
        ensures
            final(self).said_so,
            r.0 == ScanState::Failed(problem),
            r.1 == !old(self).said_so,
    {
        let loud = !self.said_so;
        self.said_so = true;
        (ScanState::Failed(problem), loud)
    }
}

/// The place of the one picture that the decoder works on.
#[derive(Debug, Clone, Copy, PartialEq, Eq, Structural)]
pub struct DecoderSlot {
    /// Whether the decoder is free to take a picture.
    pub idle: bool,
}

impl DecoderSlot {
    /// The decoder starts out free.
    pub fn new() -> (r: DecoderSlot)
        ensures
            r.idle,
    {
        DecoderSlot { idle: true }
    }

    /// A picture was offered: the decoder is busy with it, unless it was not
    /// taken.
    pub fn look_at(&mut self, taken: bool)
        ensures
            final(self).idle == !taken,
    {
        self.idle = !taken;
    }

    /// The decoder has finished with its picture.
    pub fn finished(&mut self)
        ensures
            final(self).idle,
    {
        self.idle = true;
    }
}

/// A grayscale picture: one byte per pixel, rows tightly packed.
///
/// This is the luma plane of a captured frame, which is exactly what a QR decoder
/// wants.
#[derive(Debug)]
pub struct Luma {
    /// Pixels across.
    pub width: u32,
    /// Pixels down.
    pub height: u32,
    /// The pixels, row by row.
    pub data: Vec<u8>,
}

impl Luma {
    /// Whether there is a byte for each pixel.
    pub open spec fn wf(self) -> bool {
        self.data@.len() == self.width * self.height
    }

    /// The luma plane of a picture in planes, which comes first.
    pub fn of_planes(width: u32, height: u32, planes: &Vec<u8>) -> (r: Luma)
        requires
            width * height <= planes@.len(),
        ensures
            r.wf(),
            r.width == width,
            r.height == height,
            r.data@ == planes@.take(width * height),
    {
        let mut data: Vec<u8> = Vec::new();
        proof {
            assert(0 <= width * height) by (nonlinear_arith);
            assert(width * height <= u64::MAX) by (nonlinear_arith)
                requires
                    0 <= width <= u32::MAX,
                    0 <= height <= u32::MAX,
            ;
        }
        assert(planes.len() <= usize::MAX);
        let len: usize = (width as u64 * height as u64) as usize;
        let mut at: usize = 0;
        while at < len
            invariant
                len == width * height,
                len <= planes@.len(),
                at <= len,
                data@ == planes@.take(at as int),
            decreases len - at,
        {
            data.push(planes[at]);
            at = at + 1;
            assert(planes@.take(at as int) =~= planes@.take(at - 1).push(planes@[at - 1]));
        }
        Luma { width, height, data }
    }
}

/// A list of optional texts as sequences of characters.
pub open spec fn option_views(list: Seq<Option<String>>) -> Seq<Option<Seq<char>>> {
    list.map_values(|s: Option<String>| text::view_option(s))
}

/// The first text in a list.
pub open spec fn first_text(texts: Seq<Option<Seq<char>>>) -> Option<Seq<char>>
    decreases texts.len(),
{
    if texts.len() == 0 {
        None
    } else if texts[0] is Some {
        texts[0]
    } else {
        first_text(texts.drop_first())
    }
}

/// The first grid that decodes is the answer: a picture can hold several codes,
/// and a partly obscured one is found as a grid and fails to decode.
pub fn first_decoded(texts: Vec<Option<String>>) -> (r: Option<String>)
    ensures
        text::view_option(r) == first_text(option_views(texts@)),
        r matches Some(found) ==> exists|n: int|
            {
                &&& 0 <= n < texts@.len()
                &&& (#[trigger] texts@[n]) is Some && texts@[n]->0@ == found@
                &&& forall|i: int| 0 <= i < n ==> (#[trigger] texts@[i]) is None
            },
        r is None ==> forall|i: int| 0 <= i < texts@.len() ==> (#[trigger] texts@[i]) is None,
{
    let mut at: usize = 0;
    let ghost all = option_views(texts@);
    assert(all.skip(0) =~= all);
    while at < texts.len()
        invariant
            all == option_views(texts@),
            all.len() == texts@.len(),
            at <= texts@.len(),
            forall|i: int| 0 <= i < at ==> (#[trigger] texts@[i]) is None,
            first_text(all) == first_text(all.skip(at as int)),
        decreases texts@.len() - at,
    {
        proof {
            assert(all.skip(at as int)[0] == all[at as int]);
            assert(all.skip(at as int).drop_first() =~= all.skip(at + 1));
        }
        match &texts[at] {
            Some(found) => {
                return Some(found.clone());
            },
            None => {},
        }
        at = at + 1;
    }
    None
}

/// The text that was read out of a picture that has been sharpened, if a QR code
/// in it could be read.
///
/// Two decoders look at the picture, in the order that reads through the most
/// blur: the text that `rxing` read is the answer, and what `rqrr` read where it
/// found nothing, because the two fail on different pictures. `grids` holds the
/// codes that `rqrr` found, in its order, each with its text if it decoded.
pub fn decode(rxing: Option<String>, grids: Vec<Option<String>>) -> (r: Option<String>)
    ensures
        text::view_option(r) == (match text::view_option(rxing) {
            Some(found) => Some(found),
            None => first_text(option_views(grids@)),
        }),
        rxing is Some ==> r is Some && r->0@ == rxing->0@,
        rxing is None && r is Some ==> exists|n: int|
            {
                &&& 0 <= n < grids@.len()
                &&& (#[trigger] grids@[n]) is Some && grids@[n]->0@ == r->0@
                &&& forall|i: int| 0 <= i < n ==> (#[trigger] grids@[i]) is None
            },
        r is None ==> rxing is None && forall|i: int|
            0 <= i < grids@.len() ==> (#[trigger] grids@[i]) is None,
{
    match rxing {
        Some(found) => Some(found),
        None => first_decoded(grids),
    }
}

/// `--scan-camera` names a camera in the grammar of `--video`: a camera by its id or the
/// default one, or the Raspberry Pi camera, whose raw pictures are meant however it is
/// spelled. Nothing else will do, and without the flag nothing is chosen.
pub proof fn only_cameras_are_scanned(
    features: Features,
    spec: Option<Seq<char>>,
    r: Result<Option<VideoSourceSpec>, String>,
)
    requires
        camera_result(r, camera_of(features, spec)),
    ensures
        spec is None ==> r matches Ok(None),
        spec matches Some(named) ==> match source_spec::video_source(features, named) {
            Ok(VideoSourceView::Camera(id)) => r matches Ok(Some(VideoSourceSpec::Camera(chosen)))
                && (chosen is Some <==> id is Some) && (id is Some ==> chosen->0@ == id->0),
            Ok(VideoSourceView::Rpicam(_)) => r == Ok::<Option<VideoSourceSpec>, String>(
                Some(VideoSourceSpec::Rpicam(RpicamMode::Raw)),
            ),
            Ok(_) => r matches Err(message) && message@
                == "--scan-camera reads a camera: 'cam' for the default one, 'cam:<id>' for one              `irl devices` lists, or 'rpicam' for the Raspberry Pi camera; got '"@
                + named + "'"@,
            Err(e) => r matches Err(message) && message@ == e,
        },
{
}

/// A chosen camera is the one that is opened; without one it is the Raspberry Pi camera
/// where the build has it and its program is installed, and the default camera elsewhere.
pub proof fn the_chosen_camera_is_opened(
    chosen: VideoSourceView,
    features: Features,
    rpicam_on_path: bool,
)
    ensures
        resolved(Some(chosen), features, rpicam_on_path) == chosen,
        features.rpicam && rpicam_on_path ==> resolved(None, features, rpicam_on_path)
            == VideoSourceView::Rpicam(RpicamMode::Raw),
        !(features.rpicam && rpicam_on_path) ==> resolved(None, features, rpicam_on_path)
            == VideoSourceView::Camera(None),
{
}

/// The first text of a list is one of its texts with none before it, and there is none
/// only in a list without texts.
pub proof fn the_first_text_is_the_earliest(texts: Seq<Option<Seq<char>>>)
    ensures
        match first_text(texts) {
            Some(found) => exists|n: int|
                {
                    &&& 0 <= n < texts.len()
                    &&& #[trigger] texts[n] == Some(found)
                    &&& forall|i: int| 0 <= i < n ==> #[trigger] texts[i] is None
                },
            None => forall|i: int| 0 <= i < texts.len() ==> #[trigger] texts[i] is None,
        },
    decreases texts.len(),
{
    if texts.len() > 0 {
        if texts[0] is Some {
            assert(texts[0] == Some(first_text(texts)->0));
        } else {
            let rest = texts.drop_first();
            the_first_text_is_the_earliest(rest);
            if first_text(rest) is Some {
                let n = choose|n: int|
                    {
                        &&& 0 <= n < rest.len()
                        &&& #[trigger] rest[n] == Some(first_text(rest)->0)
                        &&& forall|i: int| 0 <= i < n ==> #[trigger] rest[i] is None
                    };
                assert(texts[n + 1] == rest[n]);
                assert forall|i: int| 0 <= i < n + 1 implies #[trigger] texts[i] is None by {
                    if i > 0 {
                        assert(rest[i - 1] is None);
                    }
                }
            } else {
                assert forall|i: int| 0 <= i < texts.len() implies #[trigger] texts[i] is None by {
                    if i > 0 {
                        assert(rest[i - 1] is None);
                    }
                }
            }
        }
    }
}

} // verus!
