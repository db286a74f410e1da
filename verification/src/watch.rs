//! Watching a broadcast: where the first ticket comes from, and the screens of
//! the player window.
//!
//! The window is on the camera, dialing, playing, or stopped. Every screen
//! without a picture on it keeps a way back to whatever was playing before, and a
//! ticket whose dial failed is held off for a while, because the code that it was
//! read from is still in front of the lens.

use vstd::prelude::*;
use vstd::string::*;

use crate::args::{PlaybackArgs, WatchArgs};
use crate::features::Features;
use crate::scan;
use crate::scan::{camera_spec_with, Skip};
use crate::source_spec::VideoSourceSpec;
use crate::text;
use crate::ticket::{LiveTicket, TicketKey};
use crate::time::{Duration, Instant};
use crate::ui::RenditionChoice;

verus! {

/// How much of a broadcast name a button label carries before it is cut.
pub const LABEL_CHARS: usize = 24;

/// How long a dial started from the window may take, in seconds.
pub const DIAL_DEADLINE_SECS: u64 = 20;

/// How long the scan screen looks past a ticket whose dial just failed, in
/// nanoseconds.
pub const REDIAL_WAIT: u128 = 3_000_000_000;

/// The ceiling [`REDIAL_WAIT`] doubles up to, in nanoseconds.
pub const REDIAL_WAIT_MAX: u128 = 30_000_000_000;

/// Where a run's first ticket comes from, and who dials it.
#[derive(Debug)]
pub enum Start {
    /// The command line named one and the terminal dials it, before any window
    /// opens.
    Ticket(LiveTicket),
    /// The command line named one and the window dials it, because `--scan`
    /// leaves a camera screen to cancel into.
    TicketInWindow(LiveTicket),
    /// The camera will read one, because `--scan` was given without a ticket.
    Scan,
}

/// What a run that names no broadcast is told.
pub open spec fn nothing_to_watch(features: Features) -> Seq<char> {
    "provide either <TICKET> or --endpoint-id and --name"@ + if features.render {
        ", or pass --scan to read one off a QR code"@
    } else {
        ""@
    }
}

/// Whether `r` is where the first ticket of a run comes from.
pub open spec fn starts(r: Result<Start, String>, features: Features, args: WatchArgs) -> bool {
    match (r, args.remote.named()) {
        (Ok(Start::Ticket(ticket)), Some(key)) => !(features.render && args.scan) && ticket.full()
            == key,
        (Ok(Start::TicketInWindow(ticket)), Some(key)) => features.render && args.scan
            && ticket.full() == key,
        (Ok(Start::Scan), None) => features.render && args.scan,
        (Err(e), None) => !(features.render && args.scan) && e@ == nothing_to_watch(features),
        _ => false,
    }
}

/// Decides where the first ticket comes from and who dials it.
///
/// `--scan` alongside a ticket starts the window on that broadcast rather than on
/// the camera: the scan screen is one button away from the player, so opening the
/// camera first would only delay what the user already asked for.
///
/// # Errors
///
/// Fails if nothing names a broadcast: no ticket, no `--endpoint-id` and `--name`
/// pair, and no `--scan` to read one off a QR code.
pub fn start(features: Features, args: &WatchArgs) -> (r: Result<Start, String>)
    ensures
        starts(r, features, *args),
{
    let named = args.remote.ticket();
    if features.render && args.scan {
        return match named {
            Ok(ticket) => Ok(Start::TicketInWindow(ticket)),
            Err(_) => Ok(Start::Scan),
        };
    }
    match named {
        Ok(ticket) => Ok(Start::Ticket(ticket)),
        Err(err) => if features.render {
            Err(text::join2(err.as_str(), ", or pass --scan to read one off a QR code"))
        } else {
            proof {
                reveal_strlit("");
                assert(err@ + ""@ =~= err@);
            }
            Err(err)
        },
    }
}

/// Which tracks a subscription opens.
#[derive(Debug, Clone, Copy, PartialEq, Eq, Structural)]
pub enum TrackSelection {
    /// Video and audio, which is what a window draws.
    Both,
    /// Audio alone, for `--no-video`.
    AudioOnly,
}

impl Default for TrackSelection {
    fn default() -> (r: TrackSelection)
        ensures
            r == TrackSelection::Both,
    {
        TrackSelection::Both
    }
}

/// The parts of [`WatchArgs`] a subscription needs.
#[derive(Debug)]
pub struct Options {
    /// The rendition `--rendition` pinned, if any.
    pub rendition: Option<String>,
    /// Which camera the scan screen opens.
    pub scan_camera: Option<VideoSourceSpec>,
    /// Which tracks are opened.
    pub tracks: TrackSelection,
    /// How the video is decoded.
    pub playback: PlaybackArgs,
}

impl Options {
    /// Whether these are the options that the flags give, before the scan camera
    /// has been read.
    pub open spec fn follow(self, args: WatchArgs) -> bool {
        &&& text::view_option(self.rendition) == text::view_option(args.rendition)
        &&& self.tracks == if args.no_video {
            TrackSelection::AudioOnly
        } else {
            TrackSelection::Both
        }
        &&& self.playback == args.playback
    }

    /// The options that the flags give. Which camera is scanned is read apart
    /// from them, since that can fail.
    pub fn of(args: &WatchArgs) -> (r: Options)
        ensures
            r.follow(*args),
            r.scan_camera is None,
    {
        Options {
            rendition: text::clone_option(&args.rendition),
            scan_camera: None,
            tracks: if args.no_video {
                TrackSelection::AudioOnly
            } else {
                TrackSelection::Both
            },
            playback: args.playback,
        }
    }

    /// The rendition that a player opens on: the pinned one, or whichever the
    /// downlink allows.
    pub fn opening_rendition(&self) -> (r: RenditionChoice)
        ensures
            r.pinned() == text::view_option(self.rendition),
    {
        match &self.rendition {
            Some(name) => RenditionChoice::Pinned(name.clone()),
            None => RenditionChoice::Auto,
        }
    }
}

/// What a build that cannot draw is told.
pub open spec fn needs_render() -> Seq<char> {
    "watching video needs the 'render' feature, which this build was compiled without; pass --no-video to play the audio alone"@
}

/// Whether `r` is what a run comes to before anything is dialed: where its ticket
/// comes from, then whether the build can draw, then which camera is scanned.
pub open spec fn prepares(
    r: Result<(Start, Options), String>,
    features: Features,
    args: WatchArgs,
) -> bool {
    let camera = scan::camera_of(features, text::view_option(args.scan_camera));
    match r {
        Ok((start, options)) => {
            &&& starts(Ok(start), features, args)
            &&& features.render || args.no_video
            &&& options.follow(args)
            &&& if features.render {
                scan::camera_result(Ok(options.scan_camera), camera)
            } else {
                options.scan_camera is None
            }
        },
        Err(e) => {
            ||| starts(Err(e), features, args)
            ||| args.remote.named() is Some && !features.render && !args.no_video && e@
                == needs_render()
            ||| (args.remote.named() is Some || args.scan) && features.render
                && scan::camera_result(Err(e), camera)
        },
    }
}

/// Reads the flags of a run, before anything is dialed: a build that cannot draw
/// says so rather than connect first and fail once the tracks are open.
///
/// # Errors
///
/// Fails if nothing names a broadcast, if the build cannot draw one, or if the
/// scan camera is not a camera.
pub fn prepare(features: Features, args: &WatchArgs) -> (r: Result<(Start, Options), String>)
    ensures
        prepares(r, features, *args),
{
    let start = match start(features, args) {
        Ok(start) => start,
        Err(e) => {
            return Err(e);
        },
    };
    if !features.render && !args.no_video {
        return Err(
            "watching video needs the 'render' feature, which this build was compiled without; pass --no-video to play the audio alone".to_owned(),
        );
    }
    let mut options = Options::of(args);
    if features.render {
        let spec = match &args.scan_camera {
            Some(spec) => Some(spec.as_str()),
            None => None,
        };
        match camera_spec_with(features, spec) {
            Ok(camera) => {
                options.scan_camera = camera;
            },
            Err(e) => {
                return Err(e);
            },
        }
    }
    Ok((start, options))
}

/// What an audio output that will not open is reported as.
pub fn audio_output_refused(device: &str, err: &str) -> (r: String)
    ensures
        r@ == "cannot open audio output '"@ + device@ + "': "@ + err@
            + ". Run `irl devices` for the ids this machine accepts"@,
{
    text::join5(
        "cannot open audio output '",
        device,
        "': ",
        err,
        ". Run `irl devices` for the ids this machine accepts",
    )
}

/// Decides about the audio track of `--no-video`: whether to open it, or what to
/// warn of when there is nothing to play.
pub fn audio_only(features: Features, has_audio: bool) -> (r: Result<(), &'static str>)
    ensures
        match r {
            Ok(_) => features.playback && has_audio,
            Err(warning) => if features.playback {
                !has_audio && warning@
                    == "the broadcast carries no audio, so --no-video plays nothing"@
            } else {
                warning@ == "this build has no playback support, so --no-video plays nothing"@
            },
        },
{
    if !features.playback {
        Err("this build has no playback support, so --no-video plays nothing")
    } else if !has_audio {
        Err("the broadcast carries no audio, so --no-video plays nothing")
    } else {
        Ok(())
    }
}

/// What a button that goes back to a broadcast says: its name, cut after so many
/// characters.
pub open spec fn back_text(name: Seq<char>) -> Seq<char> {
    if name.len() > LABEL_CHARS {
        "Back to "@ + name.take(LABEL_CHARS as int) + "..."@
    } else {
        "Back to "@ + name
    }
}

/// Returns the label for a button that goes back to the broadcast `name`.
pub fn back_label(name: &str) -> (r: String)
    ensures
        r@ == back_text(name@),
{
    let len: usize = name.unicode_len();
    if len > LABEL_CHARS {
        let cut = name.substring_char(0, LABEL_CHARS);
        assert(name@.subrange(0, LABEL_CHARS as int) =~= name@.take(LABEL_CHARS as int));
        text::join3("Back to ", cut, "...")
    } else {
        text::join2("Back to ", name)
    }
}

/// What a dial that ran out of time is reported as, for the short text of the
/// peer's id.
pub fn no_answer(peer: &str) -> (r: String)
    ensures
        r@ == "no answer from "@ + peer@ + " within "@ + text::decimal(DIAL_DEADLINE_SECS as nat)
            + "s: is the publisher running?"@,
        r@ == "no answer from "@ + peer@ + " within "@ + text::decimal(20)
            + "s: is the publisher running?"@,
{
    let secs = text::decimal_text(DIAL_DEADLINE_SECS);
    text::join5("no answer from ", peer, " within ", secs.as_str(), "s: is the publisher running?")
}

/// A ticket whose dial failed, and how many times in a row.
#[derive(Debug)]
pub struct Refused {
    /// The ticket.
    pub ticket: LiveTicket,
    /// Consecutive failures, counting from zero for the first.
    pub strikes: u32,
}

/// Two to the power of `n`.
pub open spec fn doubled(n: nat) -> nat
    decreases n,
{
    if n == 0 {
        1
    } else {
        2 * doubled((n - 1) as nat)
    }
}

/// How long to wait after the first failure and then `strikes` more, in
/// nanoseconds: twice as long each time, up to the ceiling.
pub open spec fn wait_after(strikes: nat) -> int {
    let wait = REDIAL_WAIT * doubled(strikes);
    if wait <= REDIAL_WAIT_MAX {
        wait
    } else {
        REDIAL_WAIT_MAX as int
    }
}

proof fn lemma_doubled_grows(n: nat)
    requires
        n >= 4,
    ensures
        doubled(n) >= 16,
    decreases n,
{
    reveal_with_fuel(doubled, 5);
    if n > 4 {
        lemma_doubled_grows((n - 1) as nat);
    }
}

impl Refused {
    /// Returns how long the scan screen should keep looking past this ticket,
    /// doubling with each consecutive failure.
    pub fn wait(&self) -> (r: Duration)
        ensures
            r.nanos == wait_after(self.strikes as nat),
    {
        proof {
            reveal_with_fuel(doubled, 5);
            if self.strikes >= 4 {
                lemma_doubled_grows(self.strikes as nat);
            }
        }
        let nanos: u128 = if self.strikes >= 4 {
            REDIAL_WAIT_MAX
        } else if self.strikes == 3 {
            REDIAL_WAIT * 8
        } else if self.strikes == 2 {
            REDIAL_WAIT * 4
        } else if self.strikes == 1 {
            REDIAL_WAIT * 2
        } else {
            REDIAL_WAIT
        };
        Duration { nanos }
    }
}

/// The broadcast a screen with no picture on it can go back to.
#[derive(Debug)]
pub struct Previous {
    /// What to dial to reach it again.
    pub ticket: LiveTicket,
    /// The broadcast's name as its catalog gave it, for the button label.
    pub name: String,
}

/// A [`Previous`], with its texts as sequences of characters.
pub struct PreviousView {
    /// What to dial.
    pub ticket: TicketKey,
    /// The broadcast's name.
    pub name: Seq<char>,
}

impl View for Previous {
    type V = PreviousView;

    open spec fn view(&self) -> PreviousView {
        PreviousView { ticket: self.ticket.full(), name: self.name@ }
    }
}

impl Clone for Previous {
    fn clone(&self) -> (r: Previous)
        ensures
            r@ == self@,
    {
        Previous { ticket: self.ticket.clone(), name: self.name.clone() }
    }
}

/// An optional way back as its view.
pub open spec fn previous_view(previous: Option<Previous>) -> Option<PreviousView> {
    match previous {
        Some(p) => Some(p@),
        None => None,
    }
}

/// What the window is doing.
#[derive(Debug)]
pub enum Mode {
    /// Nothing on screen and nothing being attempted, which is where a cancelled
    /// dial lands.
    Stopped(Option<Previous>),
    /// Looking for a ticket in the camera picture.
    Scanning(Option<Previous>),
    /// Dialing a ticket, with nothing to draw until it answers.
    Connecting {
        /// What is being dialed.
        ticket: LiveTicket,
        /// What was playing before.
        previous: Option<Previous>,
    },
    /// Playing a broadcast.
    Watching {
        /// The broadcast's name, shown in the top bar.
        title: String,
        /// What was dialed to reach it.
        ticket: LiveTicket,
    },
}

/// A [`Mode`], with its texts as sequences of characters.
pub enum ModeView {
    /// Nothing on screen.
    Stopped(Option<PreviousView>),
    /// Looking for a ticket.
    Scanning(Option<PreviousView>),
    /// Dialing a ticket.
    Connecting {
        /// What is being dialed.
        ticket: TicketKey,
        /// What was playing before.
        previous: Option<PreviousView>,
    },
    /// Playing a broadcast.
    Watching {
        /// The broadcast's name.
        title: Seq<char>,
        /// What was dialed to reach it.
        ticket: TicketKey,
    },
}

impl View for Mode {
    type V = ModeView;

    open spec fn view(&self) -> ModeView {
        match *self {
            Mode::Stopped(previous) => ModeView::Stopped(previous_view(previous)),
            Mode::Scanning(previous) => ModeView::Scanning(previous_view(previous)),
            Mode::Connecting { ticket, previous } => ModeView::Connecting {
                ticket: ticket.full(),
                previous: previous_view(previous),
            },
            Mode::Watching { title, ticket } => ModeView::Watching {
                title: title@,
                ticket: ticket.full(),
            },
        }
    }
}

impl ModeView {
    /// The broadcast that this screen shows, or can go back to.
    pub open spec fn way_back(self) -> Option<PreviousView> {
        match self {
            ModeView::Stopped(previous) => previous,
            ModeView::Scanning(previous) => previous,
            ModeView::Connecting { previous, .. } => previous,
            ModeView::Watching { title, ticket } => Some(PreviousView { ticket, name: title }),
        }
    }

    /// What has to be ended when this mode is left.
    pub open spec fn holds(self) -> Closing {
        match self {
            ModeView::Stopped(_) => Closing::Nothing,
            ModeView::Scanning(_) => Closing::Nothing,
            ModeView::Connecting { .. } => Closing::Dial,
            ModeView::Watching { .. } => Closing::Subscription,
        }
    }
}

/// What a mode that is left held open.
#[derive(Debug, Clone, Copy, PartialEq, Eq, Structural)]
pub enum Closing {
    /// Nothing that outlives it.
    Nothing,
    /// A dial, which is abandoned; what it built is closed rather than dropped.
    Dial,
    /// A subscription and its session.
    Subscription,
}

/// What happened to the window.
#[derive(Debug)]
pub enum WatchEvent {
    /// The camera read a ticket.
    Scanned(LiveTicket),
    /// The dial connected, to a broadcast of this name.
    Connected(String),
    /// The dial failed, with something to show.
    Failed(String),
    /// The button back to the previous broadcast was pressed.
    Back,
    /// The button to the camera was pressed.
    Rescan,
    /// The button that gives up on a dial was pressed.
    Cancel,
}

/// A [`WatchEvent`], with its texts as sequences of characters.
pub enum EventView {
    /// The camera read a ticket.
    Scanned(TicketKey),
    /// The dial connected.
    Connected(Seq<char>),
    /// The dial failed.
    Failed(Seq<char>),
    /// Back to the previous broadcast.
    Back,
    /// To the camera.
    Rescan,
    /// Give up on the dial.
    Cancel,
}

impl View for WatchEvent {
    type V = EventView;

    open spec fn view(&self) -> EventView {
        match *self {
            WatchEvent::Scanned(ticket) => EventView::Scanned(ticket.full()),
            WatchEvent::Connected(title) => EventView::Connected(title@),
            WatchEvent::Failed(message) => EventView::Failed(message@),
            WatchEvent::Back => EventView::Back,
            WatchEvent::Rescan => EventView::Rescan,
            WatchEvent::Cancel => EventView::Cancel,
        }
    }
}

/// What the window opens in answer.
#[derive(Debug)]
pub enum Opens {
    /// Nothing new.
    Nothing,
    /// The camera, looking past a ticket for a while.
    Camera(Option<Skip>),
    /// A dial of this ticket.
    Dial(LiveTicket),
    /// The player.
    Player,
}

/// An [`Opens`], with its texts as sequences of characters.
pub enum OpensView {
    /// Nothing new.
    Nothing,
    /// The camera, looking past a ticket until a point in time.
    Camera(Option<(TicketKey, int)>),
    /// A dial.
    Dial(TicketKey),
    /// The player.
    Player,
}

impl View for Opens {
    type V = OpensView;

    open spec fn view(&self) -> OpensView {
        match *self {
            Opens::Nothing => OpensView::Nothing,
            Opens::Camera(None) => OpensView::Camera(None),
            Opens::Camera(Some(skip)) => OpensView::Camera(
                Some((skip.ticket.full(), skip.until.nanos as int)),
            ),
            Opens::Dial(ticket) => OpensView::Dial(ticket.full()),
            Opens::Player => OpensView::Player,
        }
    }
}

/// The window.
#[derive(Debug)]
pub struct WatchApp {
    /// What it is doing.
    pub mode: Mode,
    /// What became of the last attempt, shown on whichever screen with no picture
    /// on it follows.
    pub message: Option<String>,
    /// The ticket the last dial failed on, unless one has connected since.
    pub refused: Option<Refused>,
}

/// A ticket whose dial failed, and how many times in a row.
pub struct RefusedView {
    /// The ticket.
    pub ticket: TicketKey,
    /// Consecutive failures, counting from zero for the first.
    pub strikes: nat,
}

/// A [`WatchApp`], with its texts as sequences of characters.
pub struct AppView {
    /// What it is doing.
    pub mode: ModeView,
    /// What became of the last attempt.
    pub message: Option<Seq<char>>,
    /// The ticket the last dial failed on.
    pub refused: Option<RefusedView>,
}

impl View for WatchApp {
    type V = AppView;

    open spec fn view(&self) -> AppView {
        AppView {
            mode: self.mode@,
            message: text::view_option(self.message),
            refused: match self.refused {
                Some(r) => Some(
                    RefusedView { ticket: r.ticket.full(), strikes: r.strikes as nat },
                ),
                None => None,
            },
        }
    }
}

/// Dials a ticket, replacing whatever is on screen. The message belongs to the
/// attempt before.
pub open spec fn dialing(app: AppView, ticket: TicketKey, previous: Option<PreviousView>) -> (
    AppView,
    Closing,
    OpensView,
) {
    (
        AppView { mode: ModeView::Connecting { ticket, previous }, message: None, ..app },
        app.mode.holds(),
        OpensView::Dial(ticket),
    )
}

/// Leaves whatever is on screen and opens the camera, looking past the ticket
/// that was refused last.
pub open spec fn scanning(app: AppView, previous: Option<PreviousView>, now: int) -> (
    AppView,
    Closing,
    OpensView,
) {
    (
        AppView { mode: ModeView::Scanning(previous), ..app },
        app.mode.holds(),
        OpensView::Camera(
            match app.refused {
                Some(refused) => Some((refused.ticket, now + wait_after(refused.strikes))),
                None => None,
            },
        ),
    )
}

/// The failures of a ticket in a row, with one more.
pub open spec fn struck(refused: Option<RefusedView>, ticket: TicketKey) -> RefusedView {
    RefusedView {
        ticket,
        strikes: match refused {
            Some(before) if before.ticket == ticket => before.strikes + 1,
            _ => 0,
        },
    }
}

/// What the window does about an event: its next state, what it closes and what
/// it opens. An event that the screen cannot give rise to changes nothing.
pub open spec fn next(app: AppView, event: EventView, now: int) -> (AppView, Closing, OpensView) {
    match (app.mode, event) {
        (ModeView::Scanning(previous), EventView::Scanned(ticket)) => dialing(app, ticket, previous),
        (ModeView::Connecting { ticket, .. }, EventView::Connected(title)) => (
            AppView { mode: ModeView::Watching { title, ticket }, message: None, refused: None },
            Closing::Nothing,
            OpensView::Player,
        ),
        (ModeView::Connecting { ticket, previous }, EventView::Failed(message)) => scanning(
            AppView { message: Some(message), refused: Some(struck(app.refused, ticket)), ..app },
            previous,
            now,
        ),
        (ModeView::Connecting { ticket, previous }, EventView::Cancel) => (
            AppView {
                mode: ModeView::Stopped(previous),
                message: Some("stopped connecting to "@ + ticket.says.name),
                ..app
            },
            Closing::Dial,
            OpensView::Nothing,
        ),
        (ModeView::Stopped(Some(previous)), EventView::Back) => dialing(
            app,
            previous.ticket,
            Some(previous),
        ),
        (ModeView::Scanning(Some(previous)), EventView::Back) => dialing(
            app,
            previous.ticket,
            Some(previous),
        ),
        (ModeView::Stopped(previous), EventView::Rescan) => scanning(app, previous, now),
        (ModeView::Watching { .. }, EventView::Rescan) => scanning(app, app.mode.way_back(), now),
        _ => (app, Closing::Nothing, OpensView::Nothing),
    }
}

/// What the window shows when it opens.
#[derive(Debug)]
pub enum Opening {
    /// A subscription that the command line's ticket already established.
    Watching {
        /// The broadcast's name.
        title: String,
        /// What was dialed to reach it.
        ticket: LiveTicket,
    },
    /// A dial of the command line's ticket, run from inside the window.
    Connecting(LiveTicket),
    /// The scan screen.
    Scanning,
}

impl WatchApp {
    /// Opens the window.
    pub fn open(opening: Opening) -> (r: WatchApp)
        ensures
            r.message is None,
            r.refused is None,
            match opening {
                Opening::Watching { title, ticket } => r@.mode == (ModeView::Watching {
                    title: title@,
                    ticket: ticket.full(),
                }),
                Opening::Connecting(ticket) => r@.mode == (ModeView::Connecting {
                    ticket: ticket.full(),
                    previous: None,
                }),
                Opening::Scanning => r@.mode == ModeView::Scanning(None),
            },
    {
        let mode = match opening {
            Opening::Watching { title, ticket } => Mode::Watching { title, ticket },
            Opening::Connecting(ticket) => Mode::Connecting { ticket, previous: None },
            Opening::Scanning => Mode::Scanning(None),
        };
        WatchApp { mode, message: None, refused: None }
    }

    /// What the current mode holds open, to be ended as the window closes.
    pub fn close_mode(&self) -> (r: Closing)
        ensures
            r == self@.mode.holds(),
    {
        match &self.mode {
            Mode::Watching { .. } => Closing::Subscription,
            Mode::Connecting { .. } => Closing::Dial,
            Mode::Stopped(_) => Closing::Nothing,
            Mode::Scanning(_) => Closing::Nothing,
        }
    }

    fn dial(&mut self, ticket: LiveTicket, previous: Option<Previous>) -> (r: (Closing, Opens))
        ensures
            (final(self)@, r.0, r.1@) == dialing(old(self)@, ticket.full(), previous_view(previous)),
    {
        let closing = self.close_mode();
        let dialed = ticket.clone();
        self.message = None;
        self.mode = Mode::Connecting { ticket, previous };
        (closing, Opens::Dial(dialed))
    }

    fn enter_scan(&mut self, previous: Option<Previous>, now: Instant) -> (r: (Closing, Opens))
        requires
            now.nanos + REDIAL_WAIT_MAX <= u128::MAX,
        ensures
            (final(self)@, r.0, r.1@) == scanning(
                old(self)@,
                previous_view(previous),
                now.nanos as int,
            ),
    {
        let closing = self.close_mode();
        let skip = match &self.refused {
            Some(refused) => {
                let wait = refused.wait();
                Some(
                    Skip {
                        ticket: refused.ticket.clone(),
                        until: Instant { nanos: now.nanos + wait.nanos },
                    },
                )
            },
            None => None,
        };
        self.mode = Mode::Scanning(previous);
        (closing, Opens::Camera(skip))
    }

    fn strike(&mut self, ticket: &LiveTicket)
        requires
            old(self).refused matches Some(r) ==> r.strikes < u32::MAX,
        ensures
            final(self)@ == (AppView {
                refused: Some(struck(old(self)@.refused, ticket.full())),
                ..old(self)@
            }),
    {
        let strikes: u32 = match &self.refused {
            Some(refused) => if refused.ticket.same(ticket) {
                refused.strikes + 1
            } else {
                0
            },
            None => 0,
        };
        self.refused = Some(Refused { ticket: ticket.clone(), strikes });
    }

    /// Takes an event, and returns what to close and then what to open.
    pub fn on_event(&mut self, event: WatchEvent, now: Instant) -> (r: (Closing, Opens))
        requires
            now.nanos + REDIAL_WAIT_MAX <= u128::MAX,
            old(self).refused matches Some(r) ==> r.strikes < u32::MAX,
        ensures
            (final(self)@, r.0, r.1@) == next(old(self)@, event@, now.nanos as int),
    {
        let previous = match &self.mode {
            Mode::Stopped(Some(previous)) => Some(previous.clone()),
            Mode::Scanning(Some(previous)) => Some(previous.clone()),
            Mode::Connecting { previous: Some(previous), .. } => Some(previous.clone()),
            Mode::Watching { title, ticket } => Some(
                Previous { ticket: ticket.clone(), name: title.clone() },
            ),
            _ => None,
        };
        assert(previous_view(previous) == self@.mode.way_back());
        match (&self.mode, event) {
            (Mode::Scanning(_), WatchEvent::Scanned(ticket)) => self.dial(ticket, previous),
            (Mode::Connecting { ticket, .. }, WatchEvent::Connected(title)) => {
                let ticket = ticket.clone();
                self.mode = Mode::Watching { title, ticket };
                self.message = None;
                self.refused = None;
                (Closing::Nothing, Opens::Player)
            },
            (Mode::Connecting { ticket, .. }, WatchEvent::Failed(message)) => {
                let ticket = ticket.clone();
                self.message = Some(message);
                self.strike(&ticket);
                self.enter_scan(previous, now)
            },
            (Mode::Connecting { ticket, .. }, WatchEvent::Cancel) => {
                let message = text::join2(
                    "stopped connecting to ",
                    ticket.broadcast_name.as_str(),
                );
                self.message = Some(message);
                self.mode = Mode::Stopped(previous);
                (Closing::Dial, Opens::Nothing)
            },
            (Mode::Stopped(Some(_)), WatchEvent::Back) | (
                Mode::Scanning(Some(_)),
                WatchEvent::Back,
            ) => match previous {
                Some(previous) => {
                    let ticket = previous.ticket.clone();
                    self.dial(ticket, Some(previous))
                },
                None => (Closing::Nothing, Opens::Nothing),
            },
            (Mode::Stopped(_), WatchEvent::Rescan) | (
                Mode::Watching { .. },
                WatchEvent::Rescan,
            ) => self.enter_scan(previous, now),
            _ => (Closing::Nothing, Opens::Nothing),
        }
    }

    /// What the top bar says.
    pub fn top_bar(&self) -> (r: &str)
        ensures
            r@ == (match self@.mode {
                ModeView::Watching { title, .. } => title,
                _ => "irl watch"@,
            }),
    {
        match &self.mode {
            Mode::Watching { title, .. } => title.as_str(),
            _ => "irl watch",
        }
    }

    /// What the screen says in large letters: what stopped, or what is being
    /// dialed.
    pub fn heading(&self) -> (r: Option<String>)
        ensures
            text::view_option(r) == (match self@.mode {
                ModeView::Stopped(_) => self@.message,
                ModeView::Connecting { ticket, .. } => Some(
                    "connecting to "@ + ticket.says.name + " ..."@,
                ),
                _ => None,
            }),
    {
        match &self.mode {
            Mode::Stopped(_) => text::clone_option(&self.message),
            Mode::Connecting { ticket, .. } => Some(
                text::join3("connecting to ", ticket.broadcast_name.as_str(), " ..."),
            ),
            _ => None,
        }
    }

    /// The label of the button back, on the screens that have one.
    pub fn back_button(&self) -> (r: Option<String>)
        ensures
            text::view_option(r) == (match self@.mode {
                ModeView::Stopped(Some(previous)) => Some(back_text(previous.name)),
                ModeView::Scanning(Some(previous)) => Some(back_text(previous.name)),
                _ => None,
            }),
    {
        match &self.mode {
            Mode::Stopped(Some(previous)) => Some(back_label(previous.name.as_str())),
            Mode::Scanning(Some(previous)) => Some(back_label(previous.name.as_str())),
            _ => None,
        }
    }
}

/// Until another broadcast is on screen, every screen keeps the way back to the
/// one that was.
pub proof fn the_way_back_is_kept(app: AppView, event: EventView, now: int)
    requires
        !(event is Connected),
    ensures
        next(app, event, now).0.mode.way_back() == app.mode.way_back(),
{
}

/// From any screen that can go back, going back dials what was playing, and a
/// dial that then connects plays it.
pub proof fn going_back_leads_back(app: AppView, title: Seq<char>, now: int, later: int)
    requires
        app.mode is Stopped || app.mode is Scanning,
        app.mode.way_back() is Some,
    ensures
        ({
            let previous = app.mode.way_back()->0;
            let back = next(app, EventView::Back, now);
            &&& back.2 == OpensView::Dial(previous.ticket)
            &&& next(back.0, EventView::Connected(title), later).0.mode == (ModeView::Watching {
                title,
                ticket: previous.ticket,
            })
        }),
{
}

/// A dial that fails opens the camera with its ticket held off, for longer each
/// time in a row.
pub proof fn failed_tickets_are_held_off(
    app: AppView,
    ticket: TicketKey,
    previous: Option<PreviousView>,
    message: Seq<char>,
    now: int,
)
    requires
        app.mode == (ModeView::Connecting { ticket, previous }),
    ensures
        ({
            let after = next(app, EventView::Failed(message), now);
            let strikes = struck(app.refused, ticket).strikes;
            &&& after.0.mode == ModeView::Scanning(previous)
            &&& after.0.message == Some(message)
            &&& after.2 == OpensView::Camera(Some((ticket, now + wait_after(strikes))))
            &&& wait_after(strikes) >= REDIAL_WAIT
        }),
{
    lemma_doubled_positive(struck(app.refused, ticket).strikes);
}

proof fn lemma_doubled_positive(n: nat)
    ensures
        doubled(n) >= 1,
    decreases n,
{
    if n > 0 {
        lemma_doubled_positive((n - 1) as nat);
    }
}

/// The waits never shrink from one failure to the next, and stay between the
/// first wait and the ceiling.
pub proof fn waits_grow_to_a_ceiling(strikes: nat)
    ensures
        REDIAL_WAIT <= wait_after(strikes) <= REDIAL_WAIT_MAX,
        wait_after(strikes) <= wait_after(strikes + 1),
        strikes >= 4 ==> wait_after(strikes) == REDIAL_WAIT_MAX,
{
    lemma_doubled_positive(strikes);
    lemma_doubled_positive(strikes + 1);
    assert(doubled(strikes + 1) == 2 * doubled(strikes));
    if strikes >= 4 {
        lemma_doubled_grows(strikes);
    }
}

/// A connection forgets the refusals before it, and a cancelled dial does not
/// open the camera, where the same code would be read again.
pub proof fn connecting_and_cancelling(app: AppView, title: Seq<char>, now: int)
    requires
        app.mode is Connecting,
    ensures
        next(app, EventView::Connected(title), now).0.refused is None,
        next(app, EventView::Connected(title), now).0.message is None,
        next(app, EventView::Cancel, now).0.mode is Stopped,
        next(app, EventView::Cancel, now).2 is Nothing,
        next(app, EventView::Cancel, now).0.refused == app.refused,
{
}

/// Whatever a mode held open is closed whenever the window leaves it, except that
/// a dial that has connected becomes the player.
pub proof fn nothing_is_left_open(app: AppView, event: EventView, now: int)
    requires
        !(event is Connected),
        !(next(app, event, now).2 is Nothing) || event is Cancel && app.mode is Connecting,
    ensures
        next(app, event, now).1 == app.mode.holds(),
{
}

/// From the stopped screen and from the player, asking for the camera always leads to
/// it: the camera is opened, looking past the ticket that was refused last for as long
/// as its failures say, what was open is closed, and the way back stays. So no screen
/// without a dial in flight is a dead end.
pub proof fn the_camera_is_never_out_of_reach(app: AppView, now: int)
    requires
        app.mode is Stopped || app.mode is Watching,
    ensures
        ({
            let (after, closed, opened) = next(app, EventView::Rescan, now);
            &&& after.mode is Scanning
            &&& app.mode matches ModeView::Stopped(previous) ==> after.mode == ModeView::Scanning(
                previous,
            ) && closed == Closing::Nothing
            &&& app.mode matches ModeView::Watching { title, ticket } ==> after.mode
                == ModeView::Scanning(Some(PreviousView { ticket, name: title })) && closed
                == Closing::Subscription
            &&& app.refused is None ==> opened == OpensView::Camera(None)
            &&& app.refused matches Some(refused) ==> opened == OpensView::Camera(
                Some((refused.ticket, now + wait_after(refused.strikes))),
            )
            &&& after.message == app.message && after.refused == app.refused
        }),
{
}

/// On the scan screen a ticket that the camera reads is dialed, with the way back kept
/// and the message before it gone.
pub proof fn scanned_tickets_are_dialed(
    app: AppView,
    previous: Option<PreviousView>,
    ticket: TicketKey,
    now: int,
)
    requires
        app.mode == ModeView::Scanning(previous),
    ensures
        ({
            let (after, closed, opened) = next(app, EventView::Scanned(ticket), now);
            &&& opened == OpensView::Dial(ticket)
            &&& after.mode == (ModeView::Connecting { ticket, previous })
            &&& after.message is None
            &&& after.refused == app.refused
            &&& closed == Closing::Nothing
        }),
{
}

/// A dial that connects is the player, on the ticket that was dialed and under the name
/// that the broadcast has.
pub proof fn connected_dials_are_played(
    app: AppView,
    ticket: TicketKey,
    previous: Option<PreviousView>,
    title: Seq<char>,
    now: int,
)
    requires
        app.mode == (ModeView::Connecting { ticket, previous }),
    ensures
        ({
            let (after, closed, opened) = next(app, EventView::Connected(title), now);
            &&& after.mode == (ModeView::Watching { title, ticket })
            &&& opened is Player
            &&& closed == Closing::Nothing
        }),
{
}

/// A dial that is given up is abandoned, and the screen says which broadcast it was for
/// and keeps the way back.
pub proof fn given_up_dials_are_named(
    app: AppView,
    ticket: TicketKey,
    previous: Option<PreviousView>,
    now: int,
)
    requires
        app.mode == (ModeView::Connecting { ticket, previous }),
    ensures
        ({
            let (after, closed, opened) = next(app, EventView::Cancel, now);
            &&& after.mode == ModeView::Stopped(previous)
            &&& after.message == Some("stopped connecting to "@ + ticket.says.name)
            &&& closed == Closing::Dial
            &&& opened is Nothing
        }),
{
}

/// Failures of one ticket in a row are counted, and those of another start over: the
/// wait doubles from three seconds up to thirty.
pub proof fn waits_double(
    app: AppView,
    ticket: TicketKey,
    previous: Option<PreviousView>,
    message: Seq<char>,
    now: int,
)
    requires
        app.mode == (ModeView::Connecting { ticket, previous }),
    ensures
        ({
            let (after, closed, opened) = next(app, EventView::Failed(message), now);
            &&& closed == Closing::Dial
            &&& after.mode == ModeView::Scanning(previous)
            &&& after.message == Some(message)
            &&& after.refused matches Some(refused) && refused.ticket == ticket && refused.strikes
                == (if app.refused is Some && app.refused->0.ticket == ticket {
                app.refused->0.strikes + 1
            } else {
                0
            })
            &&& opened matches OpensView::Camera(Some((held, until))) && held == ticket && until
                == now + wait_after(after.refused->0.strikes)
        }),
        wait_after(0) == 3_000_000_000,
        wait_after(1) == 6_000_000_000,
        wait_after(2) == 12_000_000_000,
        wait_after(3) == 24_000_000_000,
        forall|strikes: nat|
            strikes >= 4 ==> #[trigger] wait_after(strikes) == 30_000_000_000,
{
    assert forall|strikes: nat| strikes >= 4 implies #[trigger] wait_after(strikes)
        == 30_000_000_000 by {
        waits_grow_to_a_ceiling(strikes);
    }
    reveal_with_fuel(doubled, 5);
}

/// The button back dials what was playing and keeps the way back, so that a failure
/// leads back once more.
pub proof fn going_back_keeps_the_way(app: AppView, previous: PreviousView, now: int)
    requires
        app.mode == ModeView::Stopped(Some(previous)) || app.mode == ModeView::Scanning(
            Some(previous),
        ),
    ensures
        ({
            let (after, closed, opened) = next(app, EventView::Back, now);
            &&& opened == OpensView::Dial(previous.ticket)
            &&& after.mode == (ModeView::Connecting {
                ticket: previous.ticket,
                previous: Some(previous),
            })
            &&& after.message is None
            &&& closed == Closing::Nothing
        }),
{
}

/// An event of a screen that is not up does nothing.
pub proof fn events_of_other_screens_do_nothing(app: AppView, event: EventView, now: int)
    requires
        (event is Scanned && !(app.mode is Scanning)) || ((event is Connected || event is Failed
            || event is Cancel) && !(app.mode is Connecting)) || (event is Rescan && (
        app.mode is Scanning || app.mode is Connecting)) || (event is Back && (
        app.mode is Connecting || app.mode is Watching || app.mode.way_back() is None)),
    ensures
        next(app, event, now) == (app, Closing::Nothing, OpensView::Nothing),
{
}

/// Whether the window dials a named ticket itself follows from `--scan`, in a build that
/// draws; where nothing is named it scans if it was asked to, and is refused otherwise.
pub proof fn runs_start_from_what_is_named(
    r: Result<Start, String>,
    features: Features,
    args: WatchArgs,
)
    requires
        starts(r, features, args),
    ensures
        args.remote.ticket is Some && args.remote.endpoint_id is None
            && args.remote.broadcast_name is None ==> {
            let given = args.remote.ticket->0;
            &&& features.render && args.scan ==> (r matches Ok(Start::TicketInWindow(ticket))
                && ticket@ == given@)
            &&& !(features.render && args.scan) ==> (r matches Ok(Start::Ticket(ticket)) && ticket@
                == given@)
        },
        args.remote.ticket is None && args.remote.endpoint_id is Some
            && args.remote.broadcast_name is Some ==> {
            let id = args.remote.endpoint_id->0@;
            let name = args.remote.broadcast_name->0@;
            &&& features.render && args.scan ==> (r matches Ok(Start::TicketInWindow(ticket))
                && ticket@.id == id && ticket@.name == name)
            &&& !(features.render && args.scan) ==> (r matches Ok(Start::Ticket(ticket))
                && ticket@.id == id && ticket@.name == name)
        },
        args.remote.ticket is None && args.remote.endpoint_id is None ==> {
            &&& features.render && args.scan ==> (r matches Ok(Start::Scan))
            &&& !(features.render && args.scan) ==> r is Err
        },
{
}

/// What a run is prepared with comes from its flags: the pinned rendition, the tracks,
/// the decoder, and in a build that draws the scan camera. Such a build never lacks the
/// means to draw, and one that does not plays audio alone or is refused.
pub proof fn runs_are_prepared_from_the_flags(
    features: Features,
    args: WatchArgs,
    start: Start,
    options: Options,
)
    requires
        prepares(Ok((start, options)), features, args),
    ensures
        starts(Ok(start), features, args),
        options.tracks == (if args.no_video {
            TrackSelection::AudioOnly
        } else {
            TrackSelection::Both
        }),
        options.rendition is Some <==> args.rendition is Some,
        options.rendition is Some ==> options.rendition->0@ == args.rendition->0@,
        options.playback == args.playback,
        features.render || args.no_video,
        !features.render ==> options.scan_camera is None,
        args.scan_camera is None ==> options.scan_camera is None,
{
}

/// The label of the button back is the name, cut after twenty-four characters where it
/// is longer.
pub proof fn long_names_are_cut(name: Seq<char>)
    ensures
        name.len() <= 24 ==> back_text(name) == "Back to "@ + name,
        name.len() > 24 ==> back_text(name) == "Back to "@ + name.take(24) + "..."@,
{
}

/// An event is seen as what it is, with all that it carries, and so is what is opened.
pub proof fn events_are_seen_whole(event: WatchEvent, opens: Opens)
    ensures
        event matches WatchEvent::Scanned(ticket) ==> event@ == EventView::Scanned(ticket.full()),
        event matches WatchEvent::Connected(title) ==> event@ == EventView::Connected(title@),
        event matches WatchEvent::Failed(message) ==> event@ == EventView::Failed(message@),
        event is Back <==> event@ is Back,
        event is Rescan <==> event@ is Rescan,
        event is Cancel <==> event@ is Cancel,
        opens is Nothing <==> opens@ is Nothing,
        opens matches Opens::Camera(None) ==> opens@ == OpensView::Camera(None),
        opens matches Opens::Camera(Some(skip)) ==> opens@ == OpensView::Camera(
            Some((skip.ticket.full(), skip.until.nanos as int)),
        ),
        opens matches Opens::Dial(ticket) ==> opens@ == OpensView::Dial(ticket.full()),
        opens is Player <==> opens@ is Player,
{
}

/// The window is seen as what it is: its screen with the way back, its message, and the
/// ticket that was refused last.
pub proof fn windows_are_seen_whole(app: WatchApp)
    ensures
        app.mode matches Mode::Stopped(previous) ==> app@.mode == ModeView::Stopped(
            previous_view(previous),
        ),
        app.mode matches Mode::Scanning(previous) ==> app@.mode == ModeView::Scanning(
            previous_view(previous),
        ),
        app.mode matches Mode::Connecting { ticket, previous } ==> app@.mode == (
        ModeView::Connecting { ticket: ticket.full(), previous: previous_view(previous) }),
        app.mode matches Mode::Watching { title, ticket } ==> app@.mode == (ModeView::Watching {
            title: title@,
            ticket: ticket.full(),
        }),
        app@.message == text::view_option(app.message),
        app.refused is None <==> app@.refused is None,
        app.refused matches Some(refused) ==> app@.refused == Some(
            RefusedView { ticket: refused.ticket.full(), strikes: refused.strikes as nat },
        ),
        previous_view(None) is None,
{
}

/// A broadcast to go back to is seen with its ticket and its name.
pub proof fn the_way_back_is_seen_whole(previous: Previous)
    ensures
        previous_view(Some(previous)) matches Some(seen) && seen.ticket == previous.ticket.full()
            && seen.name == previous.name@,
{
}

/// A run that names no broadcast is told which flags name one, and one that cannot draw
/// is told what it lacks.
pub proof fn refused_runs_are_told_why(
    r: Result<Start, String>,
    features: Features,
    args: WatchArgs,
)
    requires
        starts(r, features, args),
    ensures
        r matches Err(e) ==> e@ == (if features.render {
            "provide either <TICKET> or --endpoint-id and --name"@
                + ", or pass --scan to read one off a QR code"@
        } else {
            "provide either <TICKET> or --endpoint-id and --name"@ + ""@
        }),
        needs_render()
            == "watching video needs the 'render' feature, which this build was compiled without; pass --no-video to play the audio alone"@,
{
}

/// A run is refused exactly where nothing names a broadcast, where the build cannot draw
/// one that it would show, or where the scan camera is none.
pub proof fn runs_are_refused_for_cause(
    r: Result<(Start, Options), String>,
    features: Features,
    args: WatchArgs,
)
    requires
        prepares(r, features, args),
    ensures
        args.remote.named() is None && !(features.render && args.scan) ==> r is Err,
        !features.render && !args.no_video ==> r is Err,
        r matches Err(e) ==> (args.remote.named() is None && !(features.render && args.scan)) || (
        !features.render && !args.no_video && e@ == needs_render()) || (features.render && (
        scan::camera_of(features, text::view_option(args.scan_camera)) matches Err(why) && e@
            == why)),
{
}

} // verus!
