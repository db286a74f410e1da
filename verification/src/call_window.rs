//! The call window: who holds the camera, and the screens that get two peers
//! connected.
//!
//! The window waits with its own ticket on show, looks for the peer's on the
//! camera, dials, or is in a call. A caller that opens a session is answered
//! behind whatever is on screen, because it is not yet known to be one.

use vstd::prelude::*;
use vstd::string::*;

use crate::args::CaptureArgs;
use crate::encoding;
use crate::features::Features;
use crate::source_spec::{VideoSourceSpec, VideoSourceView};
use crate::text;
use crate::ticket;
use crate::ticket::{LiveTicket, TicketKey};
use crate::transport::PEER_TIMEOUT_SECS;

verus! {

/// Who holds the camera while nothing is being scanned.
///
/// A capture device does not open twice, so a window whose publisher already has
/// one has to hand it to the scan screen and take it back.
#[derive(Debug, Clone, Copy, PartialEq, Eq, Structural)]
pub enum Camera {
    /// The publisher opened it, so the scan screen is handed the device.
    Publisher,
    /// Nothing here has it, and the scan screen opens the camera on its own.
    Free,
}

impl Camera {
    /// Who holds the camera, given what `--video` asked for.
    pub open spec fn holder(source: Result<VideoSourceView, Seq<char>>) -> Camera {
        match source {
            Ok(VideoSourceView::Camera(_)) => Camera::Publisher,
            Ok(VideoSourceView::Rpicam(_)) => Camera::Publisher,
            _ => Camera::Free,
        }
    }

    /// Works out who holds the camera from what `--video` asked for, in a build
    /// without the Raspberry Pi camera.
    pub fn of(args: &CaptureArgs) -> (r: Camera)
        ensures
            r == Camera::holder(args.video_of(Features::stock())),
    {
        Camera::of_with(Features::default(), args)
    }

    /// Works out who holds the camera from what `--video` asked for.
    ///
    /// A specifier that does not parse never opened anything, so it counts as
    /// free.
    pub fn of_with(features: Features, args: &CaptureArgs) -> (r: Camera)
        ensures
            r == Camera::holder(args.video_of(features)),
    {
        match args.video_source(features) {
            Ok(VideoSourceSpec::Camera(_)) => Camera::Publisher,
            Ok(VideoSourceSpec::Rpicam(_)) => Camera::Publisher,
            _ => Camera::Free,
        }
    }
}

/// What the window is showing.
#[derive(Debug)]
pub enum Screen {
    /// Nobody on the line: this node's ticket, and a box to paste theirs into.
    Waiting {
        /// The ticket the user is typing.
        input: String,
        /// What became of the last attempt, if there was one.
        message: Option<String>,
    },
    /// The camera, looking for the peer's ticket in a QR code.
    Scanning,
    /// A dial this window started, with nothing to draw until it answers.
    Calling {
        /// Who is being called.
        peer: String,
    },
    /// A call in progress.
    InCall,
}

/// A [`Screen`], with its texts as sequences of characters.
pub enum ScreenView {
    /// Nobody on the line.
    Waiting {
        /// The ticket the user is typing.
        input: Seq<char>,
        /// What became of the last attempt.
        message: Option<Seq<char>>,
    },
    /// Looking for a ticket.
    Scanning,
    /// Dialing.
    Calling {
        /// Who is being called.
        peer: Seq<char>,
    },
    /// A call in progress.
    InCall,
}

impl View for Screen {
    type V = ScreenView;

    open spec fn view(&self) -> ScreenView {
        match *self {
            Screen::Waiting { input, message } => ScreenView::Waiting {
                input: input@,
                message: text::view_option(message),
            },
            Screen::Scanning => ScreenView::Scanning,
            Screen::Calling { peer } => ScreenView::Calling { peer: peer@ },
            Screen::InCall => ScreenView::InCall,
        }
    }
}

impl ScreenView {
    /// The waiting screen with nothing typed and nothing to report.
    pub open spec fn idle() -> ScreenView {
        ScreenView::Waiting { input: Seq::empty(), message: None }
    }

    /// The waiting screen, reporting what became of the last attempt.
    pub open spec fn says(message: Seq<char>) -> ScreenView {
        ScreenView::Waiting { input: Seq::empty(), message: Some(message) }
    }
}

impl Screen {
    /// The waiting screen with nothing typed and nothing to report.
    pub fn waiting() -> (r: Screen)
        ensures
            r@ == ScreenView::idle(),
    {
        let r = Screen::Waiting { input: String::new(), message: None };
        assert(r@ == ScreenView::idle());
        r
    }

    /// The waiting screen, reporting what became of the last attempt.
    pub fn reporting(message: String) -> (r: Screen)
        ensures
            r@ == ScreenView::says(message@),
    {
        let r = Screen::Waiting { input: String::new(), message: Some(message) };
        assert(r@ == ScreenView::says(message@));
        r
    }
}

/// Which side started an attempt.
#[derive(Debug)]
pub enum Direction {
    /// This node dialed, so the calling screen waits on it.
    Outgoing {
        /// Who is being called.
        peer: String,
    },
    /// A peer opened a session and this node is answering it.
    Incoming {
        /// Who opened it.
        peer: String,
    },
}

/// A [`Direction`], with its texts as sequences of characters.
pub enum DirectionView {
    /// This node dialed.
    Outgoing {
        /// Who is being called.
        peer: Seq<char>,
    },
    /// A peer opened a session.
    Incoming {
        /// Who opened it.
        peer: Seq<char>,
    },
}

impl View for Direction {
    type V = DirectionView;

    open spec fn view(&self) -> DirectionView {
        match *self {
            Direction::Outgoing { peer } => DirectionView::Outgoing { peer: peer@ },
            Direction::Incoming { peer } => DirectionView::Incoming { peer: peer@ },
        }
    }
}

/// The call window.
#[derive(Debug)]
pub struct CallApp {
    /// Who holds the camera while nothing is being scanned.
    pub camera: Camera,
    /// Whether the publisher owes itself a camera, because the scan screen
    /// borrowed it.
    pub restore: bool,
    /// The attempt in flight, of which there is at most one.
    pub pending: Option<Direction>,
    /// What is on screen.
    pub screen: Screen,
}

/// A [`CallApp`], with its texts as sequences of characters.
pub struct CallView {
    /// Who holds the camera while nothing is being scanned.
    pub camera: Camera,
    /// Whether the publisher owes itself a camera.
    pub restore: bool,
    /// The attempt in flight.
    pub pending: Option<DirectionView>,
    /// What is on screen.
    pub screen: ScreenView,
}

impl View for CallApp {
    type V = CallView;

    open spec fn view(&self) -> CallView {
        CallView {
            camera: self.camera,
            restore: self.restore,
            pending: match self.pending {
                Some(direction) => Some(direction@),
                None => None,
            },
            screen: self.screen@,
        }
    }
}

impl CallView {
    /// The calling screen is up exactly while a dial of this window is in flight,
    /// and names whom it dials.
    pub open spec fn wf(self) -> bool {
        match (self.screen, self.pending) {
            (ScreenView::Calling { peer }, Some(DirectionView::Outgoing { peer: dialed })) => peer
                == dialed,
            (ScreenView::Calling { .. }, _) => false,
            (_, Some(DirectionView::Outgoing { .. })) => false,
            _ => true,
        }
    }
}

/// What happened to the window.
#[derive(Debug)]
pub enum CallEvent {
    /// The camera read a ticket.
    Scanned(LiveTicket),
    /// The attempt in flight connected.
    Connected,
    /// The attempt in flight failed, with something to show the user.
    Failed(String),
    /// The session of the call closed.
    Closed,
    /// A session that a peer opened came up in the queue.
    Rang {
        /// Who opened it.
        peer: String,
        /// Whether it is still open.
        open: bool,
    },
    /// The button to the camera was pressed.
    Scan,
    /// What was typed or pasted is to be called.
    Call(String),
    /// The scan, or the dial in flight, was given up.
    Cancel,
    /// The call was hung up.
    HangUp,
    /// A pass of the window, when nothing else happened.
    Tick,
}

/// A [`CallEvent`], with its texts as sequences of characters.
pub enum CallEventView {
    /// The camera read a ticket.
    Scanned(TicketKey),
    /// The attempt connected.
    Connected,
    /// The attempt failed.
    Failed(Seq<char>),
    /// The session closed.
    Closed,
    /// A session came up in the queue.
    Rang {
        /// Who opened it.
        peer: Seq<char>,
        /// Whether it is still open.
        open: bool,
    },
    /// To the camera.
    Scan,
    /// Call what was typed.
    Call(Seq<char>),
    /// Give up.
    Cancel,
    /// Hang up.
    HangUp,
    /// A pass of the window.
    Tick,
}

impl View for CallEvent {
    type V = CallEventView;

    open spec fn view(&self) -> CallEventView {
        match *self {
            CallEvent::Scanned(ticket) => CallEventView::Scanned(ticket.full()),
            CallEvent::Connected => CallEventView::Connected,
            CallEvent::Failed(message) => CallEventView::Failed(message@),
            CallEvent::Closed => CallEventView::Closed,
            CallEvent::Rang { peer, open } => CallEventView::Rang { peer: peer@, open },
            CallEvent::Scan => CallEventView::Scan,
            CallEvent::Call(input) => CallEventView::Call(input@),
            CallEvent::Cancel => CallEventView::Cancel,
            CallEvent::HangUp => CallEventView::HangUp,
            CallEvent::Tick => CallEventView::Tick,
        }
    }
}

/// What the window starts in answer.
#[derive(Debug)]
pub enum Starts {
    /// Nothing new.
    Nothing,
    /// The camera.
    Camera,
    /// A dial of this ticket.
    Dial(LiveTicket),
    /// An answer to the session that rang.
    Answer,
    /// The peer's picture.
    Remote,
}

/// A [`Starts`], with its texts as sequences of characters.
pub enum StartsView {
    /// Nothing new.
    Nothing,
    /// The camera.
    Camera,
    /// A dial.
    Dial(TicketKey),
    /// An answer.
    Answer,
    /// The peer's picture.
    Remote,
}

impl View for Starts {
    type V = StartsView;

    open spec fn view(&self) -> StartsView {
        match *self {
            Starts::Nothing => StartsView::Nothing,
            Starts::Camera => StartsView::Camera,
            Starts::Dial(ticket) => StartsView::Dial(ticket.full()),
            Starts::Answer => StartsView::Answer,
            Starts::Remote => StartsView::Remote,
        }
    }
}

/// What the window ends in answer.
#[derive(Debug, Clone, Copy, PartialEq, Eq, Structural)]
pub struct Ends {
    /// The attempt in flight is abandoned; a call that it built is closed.
    pub attempt: bool,
    /// The publisher lets go of the camera.
    pub capture: bool,
    /// The decoders of the peer's picture stop.
    pub decoders: bool,
    /// The session of the call is closed.
    pub session: bool,
}

/// What the window does about an event.
#[derive(Debug)]
pub struct CallAction {
    /// What it ends first.
    pub ends: Ends,
    /// What it starts then.
    pub starts: Starts,
    /// Whether the publisher takes the camera back.
    pub recapture: bool,
}

/// A [`CallAction`], with its texts as sequences of characters.
pub struct ActionView {
    /// What it ends first.
    pub ends: Ends,
    /// What it starts then.
    pub starts: StartsView,
    /// Whether the publisher takes the camera back.
    pub recapture: bool,
}

impl View for CallAction {
    type V = ActionView;

    open spec fn view(&self) -> ActionView {
        ActionView { ends: self.ends, starts: self.starts@, recapture: self.recapture }
    }
}

/// Ends nothing.
pub open spec fn ends_nothing() -> Ends {
    Ends { attempt: false, capture: false, decoders: false, session: false }
}

/// Starts something and ends nothing.
pub open spec fn only_starts(starts: StartsView) -> ActionView {
    ActionView { ends: ends_nothing(), starts, recapture: false }
}

/// Whom a ticket calls, in the short form that people read.
pub open spec fn callee(ticket: TicketKey) -> Seq<char> {
    encoding::hex(ticket.says.id.take(5))
}

/// Whether the publisher is owed the camera once the scan screen, if that is
/// where the window is, has been left.
pub open spec fn owed(app: CallView) -> bool {
    if app.screen is Scanning && app.camera == Camera::Publisher {
        true
    } else {
        app.restore
    }
}

/// Calls a ticket, replacing whatever the window was doing. The scan screen hands
/// the camera back while the dial is in flight.
pub open spec fn dialed(app: CallView, ticket: TicketKey) -> (CallView, ActionView) {
    (
        CallView {
            restore: owed(app),
            pending: Some(DirectionView::Outgoing { peer: callee(ticket) }),
            screen: ScreenView::Calling { peer: callee(ticket) },
            ..app
        },
        ActionView {
            ends: Ends { attempt: app.pending is Some, ..ends_nothing() },
            starts: StartsView::Dial(ticket),
            recapture: false,
        },
    )
}

/// What the window does about an event: its next state, and what it ends and
/// starts. An event that the screen cannot give rise to changes nothing.
pub open spec fn next(app: CallView, event: CallEventView) -> (CallView, ActionView) {
    let unmoved = (app, only_starts(StartsView::Nothing));
    match event {
        CallEventView::Scanned(ticket) => if app.screen is Scanning {
            dialed(app, ticket)
        } else {
            unmoved
        },
        CallEventView::Connected => if app.pending is Some {
            (
                CallView {
                    restore: owed(app),
                    pending: None,
                    screen: ScreenView::InCall,
                    ..app
                },
                only_starts(StartsView::Remote),
            )
        } else {
            unmoved
        },
        CallEventView::Failed(message) => match app.pending {
            Some(DirectionView::Outgoing { .. }) => (
                CallView { pending: None, screen: ScreenView::says(message), ..app },
                only_starts(StartsView::Nothing),
            ),
            Some(DirectionView::Incoming { .. }) => (
                CallView { pending: None, ..app },
                only_starts(StartsView::Nothing),
            ),
            None => unmoved,
        },
        CallEventView::Closed => if app.screen is InCall {
            (
                CallView { screen: ScreenView::says("the call ended"@), ..app },
                ActionView {
                    ends: Ends { decoders: true, ..ends_nothing() },
                    starts: StartsView::Nothing,
                    recapture: false,
                },
            )
        } else {
            unmoved
        },
        CallEventView::Rang { peer, open } => if app.pending is None && !(app.screen is InCall)
            && open {
            (
                CallView { pending: Some(DirectionView::Incoming { peer }), ..app },
                only_starts(StartsView::Answer),
            )
        } else {
            unmoved
        },
        CallEventView::Scan => if app.screen is Waiting {
            (
                CallView { restore: false, screen: ScreenView::Scanning, ..app },
                ActionView {
                    ends: Ends { capture: app.camera == Camera::Publisher, ..ends_nothing() },
                    starts: StartsView::Camera,
                    recapture: false,
                },
            )
        } else {
            unmoved
        },
        CallEventView::Call(input) => match app.screen {
            ScreenView::Waiting { input: typed, .. } => match ticket::read(input) {
                Ok(view) => dialed(app, TicketKey { says: view, addrs: Seq::empty() }),
                Err(e) => (
                    CallView {
                        screen: ScreenView::Waiting {
                            input: typed,
                            message: Some("that is not a ticket: "@ + e.text()),
                        },
                        ..app
                    },
                    only_starts(StartsView::Nothing),
                ),
            },
            _ => unmoved,
        },
        CallEventView::Cancel => match app.screen {
            ScreenView::Scanning => (
                CallView { restore: owed(app), screen: ScreenView::idle(), ..app },
                only_starts(StartsView::Nothing),
            ),
            ScreenView::Calling { peer } => (
                CallView {
                    pending: None,
                    screen: ScreenView::says("stopped calling "@ + peer),
                    ..app
                },
                ActionView {
                    ends: Ends { attempt: app.pending is Some, ..ends_nothing() },
                    starts: StartsView::Nothing,
                    recapture: false,
                },
            ),
            _ => unmoved,
        },
        CallEventView::HangUp => if app.screen is InCall {
            (
                CallView { screen: ScreenView::says("you hung up"@), ..app },
                ActionView {
                    ends: Ends { decoders: true, session: true, ..ends_nothing() },
                    starts: StartsView::Nothing,
                    recapture: false,
                },
            )
        } else {
            unmoved
        },
        CallEventView::Tick => (
            CallView { restore: false, ..app },
            ActionView {
                ends: ends_nothing(),
                starts: StartsView::Nothing,
                recapture: app.restore,
            },
        ),
    }
}

impl CallApp {
    /// Opens the window, on the waiting screen.
    pub fn new(camera: Camera) -> (r: CallApp)
        ensures
            r@ == (CallView {
                camera,
                restore: false,
                pending: None,
                screen: ScreenView::idle(),
            }),
            r@.wf(),
    {
        CallApp { camera, restore: false, pending: None, screen: Screen::waiting() }
    }

    fn ends_nothing() -> (r: Ends)
        ensures
            r == self::ends_nothing(),
    {
        Ends { attempt: false, capture: false, decoders: false, session: false }
    }

    fn starting(starts: Starts) -> (r: CallAction)
        ensures
            r@ == only_starts(starts@),
    {
        CallAction { ends: CallApp::ends_nothing(), starts, recapture: false }
    }

    /// Calls `ticket`, replacing whatever the window was doing.
    ///
    /// Leaves the scan screen first, so a ticket read off the camera hands the
    /// device back to the publisher while the dial is in flight.
    pub fn dial(&mut self, ticket: LiveTicket) -> (r: CallAction)
        ensures
            (final(self)@, r@) == dialed(old(self)@, ticket.full()),
            r.starts == Starts::Dial(ticket),
            r.ends.attempt == old(self).pending is Some,
            !r.ends.capture && !r.ends.decoders && !r.ends.session && !r.recapture,
            final(self).screen is Calling,
            final(self).pending matches Some(Direction::Outgoing { .. }),
            final(self).camera == old(self).camera,
            final(self).restore == (old(self).restore || old(self).screen is Scanning && old(
                self,
            ).camera == Camera::Publisher),
    {
        let peer = ticket.endpoint.id.fmt_short();
        self.leave_scan();
        let attempt = self.pending.is_some();
        self.pending = Some(Direction::Outgoing { peer: peer.clone() });
        self.screen = Screen::Calling { peer };
        CallAction {
            ends: Ends { attempt, capture: false, decoders: false, session: false },
            starts: Starts::Dial(ticket),
            recapture: false,
        }
    }

    fn leave_scan(&mut self)
        ensures
            final(self)@ == if old(self)@.screen is Scanning {
                CallView { restore: owed(old(self)@), screen: ScreenView::idle(), ..old(self)@ }
            } else {
                old(self)@
            },
    {
        match &self.screen {
            Screen::Scanning => {
                self.screen = Screen::waiting();
                if self.camera == Camera::Publisher {
                    self.restore = true;
                }
            },
            _ => {},
        }
    }

    /// Whether the next caller in the queue is looked at: not while an attempt is
    /// in flight, nor during a call.
    pub fn wants_caller(&self) -> (r: bool)
        ensures
            r == (self@.pending is None && !(self@.screen is InCall)),
    {
        if self.pending.is_some() {
            return false;
        }
        match &self.screen {
            Screen::InCall => false,
            _ => true,
        }
    }

    /// Takes an event, and returns what to end and what to start.
    pub fn on_event(&mut self, event: CallEvent) -> (r: CallAction)
        ensures
            (final(self)@, r@) == next(old(self)@, event@),
    {
        match event {
            CallEvent::Scanned(ticket) => match &self.screen {
                Screen::Scanning => self.dial(ticket),
                _ => CallApp::starting(Starts::Nothing),
            },
            CallEvent::Connected => {
                if self.pending.is_none() {
                    return CallApp::starting(Starts::Nothing);
                }
                self.leave_scan();
                self.pending = None;
                self.screen = Screen::InCall;
                CallApp::starting(Starts::Remote)
            },
            CallEvent::Failed(message) => {
                let outgoing = match &self.pending {
                    Some(Direction::Outgoing { .. }) => true,
                    _ => false,
                };
                self.pending = None;
                if outgoing {
                    self.screen = Screen::reporting(message);
                }
                CallApp::starting(Starts::Nothing)
            },
            CallEvent::Closed => match &self.screen {
                Screen::InCall => {
                    self.screen = Screen::reporting("the call ended".to_owned());
                    CallAction {
                        ends: Ends {
                            attempt: false,
                            capture: false,
                            decoders: true,
                            session: false,
                        },
                        starts: Starts::Nothing,
                        recapture: false,
                    }
                },
                _ => CallApp::starting(Starts::Nothing),
            },
            CallEvent::Rang { peer, open } => {
                if self.wants_caller() && open {
                    self.pending = Some(Direction::Incoming { peer });
                    CallApp::starting(Starts::Answer)
                } else {
                    CallApp::starting(Starts::Nothing)
                }
            },
            CallEvent::Scan => match &self.screen {
                Screen::Waiting { .. } => {
                    self.restore = false;
                    self.screen = Screen::Scanning;
                    CallAction {
                        ends: Ends {
                            attempt: false,
                            capture: self.camera == Camera::Publisher,
                            decoders: false,
                            session: false,
                        },
                        starts: Starts::Camera,
                        recapture: false,
                    }
                },
                _ => CallApp::starting(Starts::Nothing),
            },
            CallEvent::Call(input) => self.call(input.as_str()),
            CallEvent::Cancel => self.cancel(),
            CallEvent::HangUp => match &self.screen {
                Screen::InCall => {
                    self.screen = Screen::reporting("you hung up".to_owned());
                    CallAction {
                        ends: Ends { attempt: false, capture: false, decoders: true, session: true },
                        starts: Starts::Nothing,
                        recapture: false,
                    }
                },
                _ => CallApp::starting(Starts::Nothing),
            },
            CallEvent::Tick => {
                let recapture = self.restore;
                self.restore = false;
                CallAction { ends: CallApp::ends_nothing(), starts: Starts::Nothing, recapture }
            },
        }
    }

    fn call(&mut self, input: &str) -> (r: CallAction)
        ensures
            (final(self)@, r@) == next(old(self)@, CallEventView::Call(input@)),
    {
        let typed = match &self.screen {
            Screen::Waiting { input, .. } => input.clone(),
            _ => {
                return CallApp::starting(Starts::Nothing);
            },
        };
        match LiveTicket::deserialize(input) {
            Ok(ticket) => {
                assert(text::views(ticket.endpoint.addrs@) =~= Seq::<Seq<char>>::empty());
                self.dial(ticket)
            },
            Err(e) => {
                let message = text::join2("that is not a ticket: ", e.message());
                self.screen = Screen::Waiting { input: typed, message: Some(message) };
                CallApp::starting(Starts::Nothing)
            },
        }
    }

    fn cancel(&mut self) -> (r: CallAction)
        ensures
            (final(self)@, r@) == next(old(self)@, CallEventView::Cancel),
    {
        let peer = match &self.screen {
            Screen::Scanning => {
                self.leave_scan();
                return CallApp::starting(Starts::Nothing);
            },
            Screen::Calling { peer } => peer.clone(),
            _ => {
                return CallApp::starting(Starts::Nothing);
            },
        };
        let attempt = self.pending.is_some();
        self.pending = None;
        let message = text::join2("stopped calling ", peer.as_str());
        self.screen = Screen::reporting(message);
        CallAction {
            ends: Ends { attempt, capture: false, decoders: false, session: false },
            starts: Starts::Nothing,
            recapture: false,
        }
    }

    /// What the window ends as it closes: a call, and the attempt in flight.
    pub fn close(&self) -> (r: Ends)
        ensures
            r == (Ends {
                attempt: self@.pending is Some,
                capture: false,
                decoders: self@.screen is InCall,
                session: self@.screen is InCall,
            }),
    {
        let in_call = match &self.screen {
            Screen::InCall => true,
            _ => false,
        };
        Ends {
            attempt: self.pending.is_some(),
            capture: false,
            decoders: in_call,
            session: in_call,
        }
    }

    /// What the calling screen says.
    pub fn heading(&self) -> (r: Option<String>)
        ensures
            text::view_option(r) == (match self@.screen {
                ScreenView::Calling { peer } => Some("calling "@ + peer + " ..."@),
                _ => None,
            }),
    {
        match &self.screen {
            Screen::Calling { peer } => Some(text::join3("calling ", peer.as_str(), " ...")),
            _ => None,
        }
    }
}

/// What was entered into the box for a ticket, without the space around it, once
/// the button was pressed or the line submitted. Nothing comes of an empty box.
pub fn paste_row(input: &str, clicked: bool, submitted: bool) -> (r: Option<String>)
    ensures
        text::view_option(r) == if text::trimmed(input@).len() > 0 && (clicked || submitted) {
            Some(text::trimmed(input@))
        } else {
            None
        },
{
    let entered = text::trim(input);
    if entered.unicode_len() > 0 && (clicked || submitted) {
        Some(entered.to_owned())
    } else {
        None
    }
}

/// What an attempt that ran out of time is reported as.
pub fn gave_up() -> (r: String)
    ensures
        r@ == "gave up after "@ + text::decimal(PEER_TIMEOUT_SECS as nat)
            + "s: the peer never published its side"@,
        r@ == "gave up after "@ + text::decimal(20) + "s: the peer never published its side"@,
{
    let secs = text::decimal_text(PEER_TIMEOUT_SECS);
    text::join3("gave up after ", secs.as_str(), "s: the peer never published its side")
}

/// The calling screen and the dial behind it come and go together.
pub proof fn the_calling_screen_has_its_dial(app: CallView, event: CallEventView)
    requires
        app.wf(),
    ensures
        next(app, event).0.wf(),
{
}

/// A publisher that lent its camera to the scan screen is owed it as soon as the
/// screen is left, and takes it back on the next pass, whether a ticket was read, the
/// scan was given up or a caller was answered meanwhile.
pub proof fn the_camera_comes_back(app: CallView, event: CallEventView)
    requires
        app.wf(),
        app.camera == Camera::Publisher,
        app.screen is Scanning,
        !(next(app, event).0.screen is Scanning),
    ensures
        next(app, event).0.restore,
        next(next(app, event).0, CallEventView::Tick).1.recapture,
{
}

/// A window whose publisher has no camera never stops publishing.
pub proof fn free_cameras_are_left_alone(app: CallView, event: CallEventView)
    requires
        app.camera == Camera::Free,
        !app.restore,
    ensures
        !next(app, event).1.ends.capture,
        !next(app, event).1.recapture,
        !next(app, event).0.restore,
        next(app, event).0.camera == Camera::Free,
{
}

/// A session that turns out not to be a caller leaves no trace on the screen, and
/// the next one can be answered.
pub proof fn subscribers_are_not_news(app: CallView, peer: Seq<char>, message: Seq<char>)
    requires
        app.pending == Some(DirectionView::Incoming { peer }),
    ensures
        next(app, CallEventView::Failed(message)).0 == (CallView { pending: None, ..app }),
{
}

/// Two attempts are never in flight at once: a dial abandons the one before it,
/// and a caller is only answered when there is none.
pub proof fn one_attempt_at_a_time(app: CallView, event: CallEventView)
    requires
        app.pending is Some,
    ensures
        ({
            let (after, action) = next(app, event);
            &&& action.starts is Dial ==> action.ends.attempt
            &&& !(action.starts is Answer)
        }),
{
}

/// A calling screen that was not up before is there because a dial was started, and the
/// other way round: a dial of the ticket that was scanned, or of the one that the typed
/// text reads as. The screen names the peer by the first five bytes of its id, and the
/// dial is in flight.
pub proof fn the_calling_screen_comes_with_a_dial(app: CallView, event: CallEventView)
    ensures
        ({
            let (after, action) = next(app, event);
            &&& after.screen is Calling && after.screen != app.screen ==> action.starts is Dial
            &&& action.starts matches StartsView::Dial(ticket) ==> {
                &&& after.screen == (ScreenView::Calling {
                    peer: encoding::hex(ticket.says.id.take(5)),
                })
                &&& after.pending == Some(
                    DirectionView::Outgoing { peer: encoding::hex(ticket.says.id.take(5)) },
                )
                &&& {
                    ||| event == CallEventView::Scanned(ticket)
                    ||| event matches CallEventView::Call(typed) && ticket::read(typed) == Ok::<
                        ticket::TicketView,
                        ticket::TicketError,
                    >(ticket.says) && ticket.addrs.len() == 0
                }
                &&& action.ends.attempt == app.pending is Some
            }
        }),
{
}

/// On the waiting screen a typed text that reads as a ticket starts a dial of exactly
/// that ticket, and any other text is kept in the box and reported, with nothing
/// started, ended or abandoned.
pub proof fn typed_tickets_are_dialed(
    app: CallView,
    typed: Seq<char>,
    input: Seq<char>,
    message: Option<Seq<char>>,
)
    requires
        app.screen == (ScreenView::Waiting { input, message }),
    ensures
        ({
            let (after, action) = next(app, CallEventView::Call(typed));
            match ticket::read(typed) {
                Ok(says) => action.starts == StartsView::Dial(
                    TicketKey { says, addrs: Seq::empty() },
                ),
                Err(e) => {
                    &&& action.starts is Nothing
                    &&& !action.ends.attempt && !action.ends.capture && !action.ends.decoders
                        && !action.ends.session
                    &&& after.pending == app.pending
                    &&& after.restore == app.restore
                    &&& after.screen == (ScreenView::Waiting {
                        input,
                        message: Some("that is not a ticket: "@ + e.text()),
                    })
                },
            }
        }),
{
}

/// On the scan screen a ticket that the camera reads is dialed.
pub proof fn scanned_tickets_are_dialed(app: CallView, ticket: TicketKey)
    requires
        app.screen is Scanning,
    ensures
        next(app, CallEventView::Scanned(ticket)).1.starts == StartsView::Dial(ticket),
        next(app, CallEventView::Scanned(ticket)).1.ends.attempt == app.pending is Some,
{
}

/// The window goes to the camera from the waiting screen: it opens the camera, and a
/// publisher that has it lets go of it first.
pub proof fn the_scan_button_opens_the_camera(app: CallView)
    requires
        app.screen is Waiting,
    ensures
        ({
            let (after, action) = next(app, CallEventView::Scan);
            &&& after.screen is Scanning
            &&& action.starts is Camera
            &&& action.ends.capture == (app.camera == Camera::Publisher)
            &&& !action.ends.attempt && !action.ends.decoders && !action.ends.session
            &&& after.pending == app.pending
            &&& !after.restore
        }),
{
}

/// An attempt that connects is a call, whichever side started it, and the peer's
/// picture is started; without an attempt nothing connects.
pub proof fn connected_attempts_are_calls(app: CallView)
    ensures
        ({
            let (after, action) = next(app, CallEventView::Connected);
            &&& app.pending is Some ==> after.screen is InCall && after.pending is None
                && action.starts is Remote
            &&& app.pending is None ==> after == app && action.starts is Nothing
            &&& action.ends == (Ends {
                attempt: false,
                capture: false,
                decoders: false,
                session: false,
            })
            &&& !action.recapture
        }),
{
}

/// A dial that fails leads back to the waiting screen with its message, and an answer
/// that fails changes nothing on the screen; either way no attempt is left in flight.
pub proof fn failed_attempts_are_over(app: CallView, message: Seq<char>)
    ensures
        ({
            let (after, action) = next(app, CallEventView::Failed(message));
            &&& after.pending is None
            &&& action.starts is Nothing
            &&& app.pending matches Some(DirectionView::Outgoing { .. }) ==> after.screen == (
            ScreenView::Waiting { input: Seq::empty(), message: Some(message) })
            &&& !(app.pending matches Some(DirectionView::Outgoing { .. })) ==> after.screen
                == app.screen
            &&& after.restore == app.restore
        }),
{
}

/// A call ends on the waiting screen, which says who ended it. Its decoders stop, and
/// its session is closed where this side hung up.
pub proof fn calls_end_on_the_waiting_screen(app: CallView)
    requires
        app.screen is InCall,
    ensures
        ({
            let (hung, by_us) = next(app, CallEventView::HangUp);
            let (closed, by_them) = next(app, CallEventView::Closed);
            &&& hung.screen == (ScreenView::Waiting {
                input: Seq::empty(),
                message: Some("you hung up"@),
            })
            &&& closed.screen == (ScreenView::Waiting {
                input: Seq::empty(),
                message: Some("the call ended"@),
            })
            &&& by_us.ends.decoders && by_us.ends.session
            &&& by_them.ends.decoders && !by_them.ends.session
            &&& !by_us.ends.attempt && !by_them.ends.attempt
            &&& by_us.starts is Nothing && by_them.starts is Nothing
            &&& hung.pending == app.pending && closed.pending == app.pending
        }),
{
}

/// A caller is answered exactly where its session is still open, no attempt is in
/// flight and there is no call, and behind whatever is on screen.
pub proof fn callers_are_answered_when_free(app: CallView, peer: Seq<char>, open: bool)
    ensures
        ({
            let (after, action) = next(app, CallEventView::Rang { peer, open });
            &&& action.starts is Answer <==> open && app.pending is None && !(app.screen is InCall)
            &&& action.starts is Answer ==> after.pending == Some(DirectionView::Incoming { peer })
            &&& !(action.starts is Answer) ==> after.pending == app.pending && action.starts is Nothing
            &&& after.screen == app.screen
            &&& after.restore == app.restore
        }),
{
}

/// Giving up leads to the waiting screen: from the camera with nothing to report, and
/// from a dial, which is abandoned, with whom it was for. Elsewhere there is nothing to
/// give up.
pub proof fn giving_up_leads_to_the_waiting_screen(app: CallView)
    ensures
        ({
            let (after, action) = next(app, CallEventView::Cancel);
            &&& action.starts is Nothing
            &&& app.screen is Scanning ==> after.screen == (ScreenView::Waiting {
                input: Seq::empty(),
                message: None,
            }) && after.pending == app.pending && !action.ends.attempt
            &&& app.screen matches ScreenView::Calling { peer } ==> after.screen == (
            ScreenView::Waiting {
                input: Seq::empty(),
                message: Some("stopped calling "@ + peer),
            }) && after.pending is None && action.ends.attempt == app.pending is Some
            &&& app.screen is Waiting || app.screen is InCall ==> after == app
        }),
{
}

/// A pass of the window hands the camera back where it is owed, once, and changes
/// nothing else.
pub proof fn a_pass_returns_what_is_owed(app: CallView)
    ensures
        ({
            let (after, action) = next(app, CallEventView::Tick);
            &&& action.recapture == app.restore
            &&& !after.restore
            &&& after.screen == app.screen && after.pending == app.pending && after.camera
                == app.camera
            &&& action.starts is Nothing
            &&& !next(after, CallEventView::Tick).1.recapture
        }),
{
}

/// Who holds the camera never changes, and only a pass of the window takes it back: an
/// event of a screen that is not up does nothing.
pub proof fn events_of_other_screens_do_nothing(app: CallView, event: CallEventView)
    ensures
        next(app, event).0.camera == app.camera,
        next(app, event).1.recapture ==> event is Tick,
        next(app, event).1.ends.capture ==> event is Scan,
        (event is Scanned && !(app.screen is Scanning)) || (event is Closed && !(
        app.screen is InCall)) || (event is HangUp && !(app.screen is InCall)) || (event is Scan
            && !(app.screen is Waiting)) || (event is Call && !(app.screen is Waiting)) ==> next(
            app,
            event,
        ).0 == app && next(app, event).1.starts is Nothing && next(
            app,
            event,
        ).1.ends == (Ends { attempt: false, capture: false, decoders: false, session: false }),
{
}

/// The publisher holds the camera exactly where what it publishes is a camera.
pub proof fn cameras_are_held_by_their_publisher(source: Result<VideoSourceView, Seq<char>>)
    ensures
        Camera::holder(source) == Camera::Publisher <==> (source matches Ok(spec) && (spec is Camera
            || spec is Rpicam)),
{
}

/// A publisher that had the camera is owed it once the scan screen is left, by whatever
/// way, and what was owed before stays owed until a pass of the window.
pub proof fn leaving_the_scan_owes_the_camera(app: CallView, event: CallEventView)
    requires
        app.wf(),
        app.screen is Scanning,
        !(next(app, event).0.screen is Scanning),
    ensures
        app.camera == Camera::Publisher ==> next(app, event).0.restore,
        app.camera != Camera::Publisher ==> next(app, event).0.restore == app.restore,
{
}

/// An event is seen as what it is, with all that it carries.
pub proof fn events_are_seen_whole(event: CallEvent)
    ensures
        event matches CallEvent::Scanned(ticket) ==> event@ == CallEventView::Scanned(
            ticket.full(),
        ),
        event is Connected <==> event@ is Connected,
        event matches CallEvent::Failed(message) ==> event@ == CallEventView::Failed(message@),
        event is Closed <==> event@ is Closed,
        event matches CallEvent::Rang { peer, open } ==> event@ == (CallEventView::Rang {
            peer: peer@,
            open,
        }),
        event is Scan <==> event@ is Scan,
        event matches CallEvent::Call(input) ==> event@ == CallEventView::Call(input@),
        event is Cancel <==> event@ is Cancel,
        event is HangUp <==> event@ is HangUp,
        event is Tick <==> event@ is Tick,
{
}

/// The window is seen as what it is: its screen, its attempt, and what it does.
pub proof fn windows_are_seen_whole(app: CallApp, action: CallAction)
    ensures
        app@.camera == app.camera,
        app@.restore == app.restore,
        app@.pending is Some <==> app.pending is Some,
        app.pending matches Some(Direction::Outgoing { peer }) ==> app@.pending == Some(
            DirectionView::Outgoing { peer: peer@ },
        ),
        app.pending matches Some(Direction::Incoming { peer }) ==> app@.pending == Some(
            DirectionView::Incoming { peer: peer@ },
        ),
        app.screen matches Screen::Waiting { input, message } ==> app@.screen == (
        ScreenView::Waiting { input: input@, message: text::view_option(message) }),
        app.screen is Scanning <==> app@.screen is Scanning,
        app.screen matches Screen::Calling { peer } ==> app@.screen == (ScreenView::Calling {
            peer: peer@,
        }),
        app.screen is InCall <==> app@.screen is InCall,
        action@.ends == action.ends,
        action@.recapture == action.recapture,
        action.starts is Nothing <==> action@.starts is Nothing,
        action.starts is Camera <==> action@.starts is Camera,
        action.starts matches Starts::Dial(ticket) ==> action@.starts == StartsView::Dial(
            ticket.full(),
        ),
        action.starts is Answer <==> action@.starts is Answer,
        action.starts is Remote <==> action@.starts is Remote,
{
}

} // verus!
