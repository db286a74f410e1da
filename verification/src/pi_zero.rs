//! The Raspberry Pi Zero demo: what it publishes, when its e-paper panel is
//! refreshed, which display output it draws to, and how it answers its window.

use vstd::prelude::*;
use vstd::string::*;

use crate::args::RemoteArgs;
use crate::endpoint::EndpointId;
use crate::text;
use crate::ticket;
use crate::ticket::{LiveTicket, TicketView};
use crate::time;
use crate::time::{Duration, Instant};

verus! {

/// How long between two refreshes of the e-paper panel, in seconds.
pub const EPAPER_REFRESH_SECS: u64 = 43_200;

/// The panel may not be refreshed more often than this, in seconds.
pub const EPAPER_MIN_SECS: u64 = 180;

/// The panel must be refreshed at least this often, in seconds.
pub const EPAPER_MAX_SECS: u64 = 86_400;

/// How often frame rates are printed, in nanoseconds.
pub const STATS_INTERVAL: u128 = 1_000_000_000;

/// How many of the first frames are logged.
pub const FRAMES_LOGGED: u64 = 3;

/// The periodic refresh keeps within what the panel's datasheet asks for.
pub proof fn refreshes_suit_the_panel()
    ensures
        EPAPER_MIN_SECS <= EPAPER_REFRESH_SECS <= EPAPER_MAX_SECS,
        EPAPER_MIN_SECS == 3 * 60,
        EPAPER_MAX_SECS == 24 * 60 * 60,
{
}

/// What the demo publishes.
#[derive(Debug)]
pub struct PublishOpts {
    /// Show the ticket as a QR code on the e-paper panel.
    pub epaper: bool,
    /// A relay to connect to as well.
    pub relay: Option<EndpointId>,
    /// Broadcast name.
    pub name: String,
    /// Capture width in pixels.
    pub width: u32,
    /// Capture height in pixels.
    pub height: u32,
    /// Target bitrate in bits per second.
    pub bitrate: u32,
    /// Capture frame rate.
    pub fps: u32,
}

impl Default for PublishOpts {
    fn default() -> (r: PublishOpts)
        ensures
            !r.epaper,
            r.relay is None,
            r.name@ == "pi-zero"@,
            r.width == 640,
            r.height == 360,
            r.bitrate == 500_000,
            r.fps == 30,
    {
        PublishOpts {
            epaper: false,
            relay: None,
            name: "pi-zero".to_owned(),
            width: 640,
            height: 360,
            bitrate: 500_000,
            fps: 30,
        }
    }
}

/// What the camera's own encoder is asked for.
#[derive(Debug, Clone, Copy, PartialEq, Eq, Structural)]
pub struct CameraConfig {
    /// Capture width in pixels.
    pub width: u32,
    /// Capture height in pixels.
    pub height: u32,
    /// Capture frame rate.
    pub fps: u32,
    /// Target bitrate in bits per second.
    pub bitrate: u32,
    /// A keyframe every this many frames.
    pub keyframe_interval: u32,
}

impl PublishOpts {
    /// What the camera is asked for. A keyframe comes every second, which is how
    /// long a subscriber waits before the picture starts.
    pub fn camera(&self) -> (r: CameraConfig)
        ensures
            r == (CameraConfig {
                width: self.width,
                height: self.height,
                fps: self.fps,
                bitrate: self.bitrate,
                keyframe_interval: self.fps,
            }),
    {
        CameraConfig {
            width: self.width,
            height: self.height,
            fps: self.fps,
            bitrate: self.bitrate,
            keyframe_interval: self.fps,
        }
    }

    /// The ticket of the broadcast.
    pub fn ticket(&self, id: EndpointId) -> (r: String)
        ensures
            r@ == ticket::uri(TicketView { id: id@, name: self.name@ }),
    {
        LiveTicket::new(id, self.name.clone()).serialize()
    }
}

/// The e-paper panel over a run of the demo.
#[derive(Debug, Clone, Copy, PartialEq, Eq, Structural)]
pub enum Epaper {
    /// The panel was not asked for, or could not show the code.
    Off,
    /// The panel shows the code. It is refreshed every so often, and cleared at
    /// the end: a panel is stored white.
    Showing,
}

impl Epaper {
    /// What becomes of the panel once the code has been sent to it; `shown` says
    /// whether that worked. The stream publishes either way.
    pub fn start(asked: bool, shown: bool) -> (r: Epaper)
        ensures
            r == if asked && shown {
                Epaper::Showing
            } else {
                Epaper::Off
            },
    {
        if asked && shown {
            Epaper::Showing
        } else {
            Epaper::Off
        }
    }

    /// How long until the code is sent to the panel again, if it is. A refresh
    /// that fails does not end the refreshing.
    pub fn next_refresh(self) -> (r: Option<Duration>)
        ensures
            match self {
                Epaper::Off => r is None,
                Epaper::Showing => r matches Some(wait) && wait.nanos == time::secs(
                    EPAPER_REFRESH_SECS as int,
                ),
            },
            r matches Some(wait) ==> wait.nanos == 43_200 * 1_000_000_000,
    {
        match self {
            Epaper::Off => None,
            Epaper::Showing => Some(Duration::from_secs(EPAPER_REFRESH_SECS)),
        }
    }

    /// Whether the panel is cleared as the demo ends.
    pub fn clears(self) -> (r: bool)
        ensures
            r == (self is Showing),
    {
        match self {
            Epaper::Off => false,
            Epaper::Showing => true,
        }
    }
}

/// How a remote stream is watched.
#[derive(Debug)]
pub struct WatchOpts {
    /// What to watch.
    pub remote: RemoteArgs,
    /// Draw straight to the display, without a window system.
    pub fb: bool,
    /// Start in fullscreen, in a window.
    pub fullscreen: bool,
}

/// Where a stream is drawn.
#[derive(Debug, Clone, Copy, PartialEq, Eq, Structural)]
pub enum Viewer {
    /// Straight to the display.
    Display,
    /// In a window.
    Window {
        /// Start in fullscreen.
        fullscreen: bool,
    },
}

/// The stream to watch.
///
/// # Errors
///
/// Fails with a line on usage unless exactly one form was given: the ticket, or
/// both halves of it.
pub fn watched(opts: &WatchOpts) -> (r: Result<LiveTicket, &'static str>)
    ensures
        match r {
            Ok(ticket) => opts.remote.named() == Some(ticket.full()),
            Err(e) => opts.remote.named() is None && e@
                == "Usage: watch --ticket <TICKET> or --endpoint-id <ID> --name <NAME>"@,
        },
{
    match opts.remote.ticket() {
        Ok(ticket) => Ok(ticket),
        Err(_) => Err("Usage: watch --ticket <TICKET> or --endpoint-id <ID> --name <NAME>"),
    }
}

/// Where the stream is drawn, in a build with or without windows.
///
/// # Errors
///
/// Fails if the build has no windows and the display was not asked for.
pub fn viewer(opts: &WatchOpts, windowed: bool) -> (r: Result<Viewer, &'static str>)
    ensures
        match r {
            Ok(viewer) => viewer == if opts.fb {
                Viewer::Display
            } else {
                Viewer::Window { fullscreen: opts.fullscreen }
            } && (opts.fb || windowed),
            Err(e) => !opts.fb && !windowed && e@
                == "windowed mode not compiled in - use --fb or build with --features windowed"@,
        },
{
    if opts.fb {
        Ok(Viewer::Display)
    } else if windowed {
        Ok(Viewer::Window { fullscreen: opts.fullscreen })
    } else {
        Err("windowed mode not compiled in - use --fb or build with --features windowed")
    }
}

/// The encoder that drives a connector.
#[derive(Debug, Clone, Copy, PartialEq, Eq, Structural)]
pub enum Encoder {
    /// None does.
    Missing,
    /// It could not be read.
    Unreadable,
    /// It feeds from this scanout engine, if from any.
    Found(Option<u32>),
}

/// A connector of a display device.
#[derive(Debug)]
pub struct Connector {
    /// Its handle.
    pub handle: u32,
    /// Whether a display is plugged in.
    pub connected: bool,
    /// The sizes it can show, its preferred one first.
    pub modes: Vec<(u16, u16)>,
    /// What drives it.
    pub encoder: Encoder,
}

/// A display to draw to.
#[derive(Debug, Clone, Copy, PartialEq, Eq, Structural)]
pub struct Output {
    /// The connector's handle.
    pub connector: u32,
    /// The handle of the scanout engine.
    pub crtc: u32,
    /// Pixels across.
    pub width: u32,
    /// Pixels down.
    pub height: u32,
}

/// The output that a connected connector makes, or what is missing.
pub open spec fn output_of(connector: Connector) -> Result<Output, Seq<char>> {
    if connector.modes@.len() == 0 {
        Err("connector has no modes"@)
    } else {
        match connector.encoder {
            Encoder::Missing => Err("no encoder"@),
            Encoder::Unreadable => Err("get_encoder"@),
            Encoder::Found(None) => Err("no CRTC"@),
            Encoder::Found(Some(crtc)) => Ok(
                Output {
                    connector: connector.handle,
                    crtc,
                    width: connector.modes@[0].0 as u32,
                    height: connector.modes@[0].1 as u32,
                },
            ),
        }
    }
}

/// The output that the first connected connector makes. A connector that could
/// not be read ends the search.
pub open spec fn first_output(connectors: Seq<Option<Connector>>) -> Result<Output, Seq<char>>
    decreases connectors.len(),
{
    if connectors.len() == 0 {
        Err("no connected display found"@)
    } else {
        match connectors[0] {
            None => Err("get_connector"@),
            Some(connector) => if connector.connected {
                output_of(connector)
            } else {
                first_output(connectors.drop_first())
            },
        }
    }
}

fn output(connector: &Connector) -> (r: Result<Output, &'static str>)
    ensures
        match r {
            Ok(output) => output_of(*connector) == Ok::<Output, Seq<char>>(output),
            Err(e) => output_of(*connector) == Err::<Output, Seq<char>>(e@),
        },
{
    if connector.modes.len() == 0 {
        return Err("connector has no modes");
    }
    let (width, height) = connector.modes[0];
    match connector.encoder {
        Encoder::Missing => Err("no encoder"),
        Encoder::Unreadable => Err("get_encoder"),
        Encoder::Found(None) => Err("no CRTC"),
        Encoder::Found(Some(crtc)) => Ok(
            Output {
                connector: connector.handle,
                crtc,
                width: width as u32,
                height: height as u32,
            },
        ),
    }
}

/// Chooses the display to draw to: the first connector that a display is plugged
/// into, at its preferred size. `None` stands for a connector that could not be
/// read.
///
/// # Errors
///
/// Fails if there is no such connector, or if it lacks what drawing to it needs.
pub fn choose_output(connectors: &Vec<Option<Connector>>) -> (r: Result<Output, &'static str>)
    ensures
        match r {
            Ok(output) => first_output(connectors@) == Ok::<Output, Seq<char>>(output),
            Err(e) => first_output(connectors@) == Err::<Output, Seq<char>>(e@),
        },
{
    let mut at: usize = 0;
    assert(connectors@.skip(0) =~= connectors@);
    while at < connectors.len()
        invariant
            at <= connectors@.len(),
            first_output(connectors@) == first_output(connectors@.skip(at as int)),
        decreases connectors@.len() - at,
    {
        proof {
            assert(connectors@.skip(at as int)[0] == connectors@[at as int]);
            assert(connectors@.skip(at as int).drop_first() =~= connectors@.skip(at + 1));
        }
        match &connectors[at] {
            None => {
                return Err("get_connector");
            },
            Some(connector) => {
                if connector.connected {
                    return output(connector);
                }
            },
        }
        at = at + 1;
    }
    Err("no connected display found")
}

/// The display devices to try, in order.
pub fn device_paths() -> (r: Vec<&'static str>)
    ensures
        r@.len() == 2,
        r@[0]@ == "/dev/dri/card1"@,
        r@[1]@ == "/dev/dri/card0"@,
{
    vec!["/dev/dri/card1", "/dev/dri/card0"]
}

/// Frames counted for the rate that is printed.
#[derive(Debug, Clone, Copy, PartialEq, Eq, Structural)]
pub struct FrameCounter {
    /// Frames since the last print.
    pub frames: u64,
    /// When that was.
    pub last: Instant,
}

impl FrameCounter {
    /// Nothing has been drawn yet.
    pub fn new(now: Instant) -> (r: FrameCounter)
        ensures
            r == (FrameCounter { frames: 0, last: now }),
    {
        FrameCounter { frames: 0, last: now }
    }

    /// Counts a frame. Returns whether it is logged, as one of the first.
    pub fn uploaded(&mut self) -> (r: bool)
        requires
            old(self).frames < u64::MAX,
        ensures
            final(self).frames == old(self).frames + 1,
            final(self).last == old(self).last,
            r == (final(self).frames <= FRAMES_LOGGED),
            r == (old(self).frames < 3),
    {
        self.frames = self.frames + 1;
        self.frames <= FRAMES_LOGGED
    }

    /// Once a second has passed, returns how many frames were drawn in how long,
    /// and starts over.
    pub fn stats(&mut self, now: Instant) -> (r: Option<(u64, Duration)>)
        ensures
            ({
                let elapsed = time::since(now, old(self).last);
                if elapsed < STATS_INTERVAL {
                    r is None && *final(self) == *old(self)
                } else {
                    &&& r matches Some((frames, span))
                    &&& frames == old(self).frames
                    &&& span.nanos == elapsed
                    &&& *final(self) == (FrameCounter { frames: 0, last: now })
                }
            }),
            r is Some <==> now.nanos >= old(self).last.nanos + 1_000_000_000,
            r matches Some((frames, span)) ==> span.nanos == now.nanos - old(self).last.nanos,
    {
        let elapsed = now.duration_since(self.last);
        if elapsed.nanos < STATS_INTERVAL {
            return None;
        }
        let frames: u64 = self.frames;
        self.frames = 0;
        self.last = now;
        Some((frames, elapsed))
    }
}

/// What happened to the viewer's window.
#[derive(Debug, Clone, Copy, PartialEq, Eq, Structural)]
pub enum WindowEvent {
    /// The window system has room for a window.
    Resumed,
    /// The window was closed.
    CloseRequested,
    /// Escape was pressed.
    Escape,
    /// The window has another size.
    Resized {
        /// Pixels across.
        width: u32,
        /// Pixels down.
        height: u32,
    },
    /// The window is to be drawn.
    RedrawRequested,
}

/// What the viewer does about it.
#[derive(Debug, Clone, Copy, PartialEq, Eq, Structural)]
pub enum WindowAction {
    /// Nothing.
    Nothing,
    /// Open the window and set up drawing.
    Open,
    /// End the viewer.
    Exit,
    /// Resize the drawing surface, which is never empty.
    Resize {
        /// Pixels across.
        width: u32,
        /// Pixels down.
        height: u32,
    },
    /// Take the newest frame, draw, and come back for the next.
    Draw,
}

/// A side of a drawing surface: at least one pixel.
pub open spec fn at_least_one(n: u32) -> u32 {
    if n == 0 {
        1
    } else {
        n
    }
}

/// Keeps a side of a drawing surface from being empty.
pub fn surface_side(n: u32) -> (r: u32)
    ensures
        r == at_least_one(n),
        n == 0 ==> r == 1,
        n > 0 ==> r == n,
{
    if n == 0 {
        1
    } else {
        n
    }
}

/// Decides what the viewer does about an event; `open` says whether its window is
/// up.
pub fn window_event(event: WindowEvent, open: bool) -> (r: WindowAction)
    ensures
        r == (match event {
            WindowEvent::Resumed => if open {
                WindowAction::Nothing
            } else {
                WindowAction::Open
            },
            WindowEvent::CloseRequested => WindowAction::Exit,
            WindowEvent::Escape => WindowAction::Exit,
            WindowEvent::Resized { width, height } => if open {
                WindowAction::Resize { width: at_least_one(width), height: at_least_one(height) }
            } else {
                WindowAction::Nothing
            },
            WindowEvent::RedrawRequested => if open {
                WindowAction::Draw
            } else {
                WindowAction::Nothing
            },
        }),
{
    match event {
        WindowEvent::Resumed => if open {
            WindowAction::Nothing
        } else {
            WindowAction::Open
        },
        WindowEvent::CloseRequested => WindowAction::Exit,
        WindowEvent::Escape => WindowAction::Exit,
        WindowEvent::Resized { width, height } => if open {
            WindowAction::Resize { width: surface_side(width), height: surface_side(height) }
        } else {
            WindowAction::Nothing
        },
        WindowEvent::RedrawRequested => if open {
            WindowAction::Draw
        } else {
            WindowAction::Nothing
        },
    }
}

/// What is printed once the display is set up.
pub fn display_line(output: Output) -> (r: String)
    ensures
        r@ == "rendering to HDMI ("@ + text::decimal(output.width as nat) + "x"@ + text::decimal(
            output.height as nat,
        ) + ")"@,
{
    let width = text::decimal_text(output.width as u64);
    let height = text::decimal_text(output.height as u64);
    text::join5("rendering to HDMI (", width.as_str(), "x", height.as_str(), ")")
}

/// The display that is drawn to is that of the first connector with one plugged in, at
/// the size it prefers, and the search ends there whatever that connector lacks.
pub proof fn the_first_connected_display_is_chosen(connectors: Seq<Option<Connector>>, n: int)
    requires
        0 <= n <= connectors.len(),
        forall|i: int|
            0 <= i < n ==> (#[trigger] connectors[i]) is Some && !connectors[i]->0.connected,
    ensures
        n == connectors.len() ==> first_output(connectors) == Err::<Output, Seq<char>>(
            "no connected display found"@,
        ),
        n < connectors.len() && connectors[n] is None ==> first_output(connectors) == Err::<
            Output,
            Seq<char>,
        >("get_connector"@),
        n < connectors.len() && connectors[n] is Some && connectors[n]->0.connected ==> {
            let found = connectors[n]->0;
            let drawn = first_output(connectors);
            &&& found.modes@.len() == 0 ==> drawn == Err::<Output, Seq<char>>(
                "connector has no modes"@,
            )
            &&& found.modes@.len() > 0 && found.encoder == Encoder::Missing ==> drawn == Err::<
                Output,
                Seq<char>,
            >("no encoder"@)
            &&& found.modes@.len() > 0 && found.encoder == Encoder::Unreadable ==> drawn == Err::<
                Output,
                Seq<char>,
            >("get_encoder"@)
            &&& found.modes@.len() > 0 && found.encoder == Encoder::Found(None) ==> drawn == Err::<
                Output,
                Seq<char>,
            >("no CRTC"@)
            &&& found.modes@.len() > 0 && found.encoder is Found && found.encoder->0 is Some ==> (
            drawn matches Ok(output) && output.connector == found.handle && output.crtc
                == found.encoder->0->0 && output.width == found.modes@[0].0 && output.height
                == found.modes@[0].1)
        },
    decreases n,
{
    if n > 0 {
        let rest = connectors.drop_first();
        assert(connectors[0] is Some && !connectors[0]->0.connected);
        assert forall|i: int| 0 <= i < n - 1 implies (#[trigger] rest[i]) is Some
            && !rest[i]->0.connected by {
            assert(rest[i] == connectors[i + 1]);
        }
        if n < connectors.len() {
            assert(rest[n - 1] == connectors[n]);
        }
        the_first_connected_display_is_chosen(rest, n - 1);
    }
}

} // verus!
