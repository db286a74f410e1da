//! The listing of the capture and playback devices that a machine offers.
//!
//! Every identifier in it is one that the `--video` and `--audio` specifiers
//! accept, so the listing doubles as the argument reference.

use vstd::prelude::*;
use vstd::string::*;

use crate::features::Features;
use crate::text;

verus! {

/// How many sizes a camera lists before the rest are summarised.
pub const MODES_SHOWN: usize = 6;

/// One size that a camera offers, and the rates it offers it at.
#[derive(Debug)]
pub struct Mode {
    /// Pixels across.
    pub width: u32,
    /// Pixels down.
    pub height: u32,
    /// Frames per second, or none where the driver describes a range.
    pub framerates: Vec<u32>,
}

/// A camera, and the modes it reports if it answers.
#[derive(Debug)]
pub struct CameraInfo {
    /// Its id.
    pub id: String,
    /// Its name.
    pub name: String,
    /// What it offers, or `None` if it would not say.
    pub modes: Option<Vec<Mode>>,
}

/// A display.
#[derive(Debug)]
pub struct DisplayInfo {
    /// Its id.
    pub id: String,
    /// Its name.
    pub name: String,
    /// Pixels across.
    pub width: u32,
    /// Pixels down.
    pub height: u32,
}

/// A window that can be captured.
#[derive(Debug)]
pub struct WindowInfo {
    /// Its id.
    pub id: String,
    /// The application it belongs to.
    pub app: String,
    /// Its title.
    pub title: String,
    /// Pixels across.
    pub width: u32,
    /// Pixels down.
    pub height: u32,
}

/// An application whose windows can be captured.
#[derive(Debug)]
pub struct AppInfo {
    /// Its id.
    pub id: String,
    /// Its name.
    pub name: String,
}

/// An audio device.
#[derive(Debug)]
pub struct AudioInfo {
    /// Its id.
    pub id: String,
    /// Its name.
    pub name: String,
    /// Whether it is the system's default.
    pub default: bool,
}

/// The rates of a mode, written out.
pub open spec fn rate_texts(rates: Seq<u32>) -> Seq<Seq<char>> {
    Seq::new(rates.len(), |i: int| text::decimal(rates[i] as nat))
}

/// A size, written out.
pub open spec fn size_text(width: u32, height: u32) -> Seq<char> {
    text::decimal(width as nat) + "x"@ + text::decimal(height as nat)
}

/// One size and the rates it offers.
pub open spec fn mode_text(mode: Mode) -> Seq<char> {
    if mode.framerates@.len() == 0 {
        size_text(mode.width, mode.height) + "  (rates not listed)"@
    } else {
        size_text(mode.width, mode.height) + "  "@ + text::joined(
            rate_texts(mode.framerates@),
            ", "@,
        ) + " fps"@
    }
}

fn write_size(width: u32, height: u32) -> (r: String)
    ensures
        r@ == size_text(width, height),
{
    text::join3(
        text::decimal_text(width as u64).as_str(),
        "x",
        text::decimal_text(height as u64).as_str(),
    )
}

/// One size and the rates it offers, as a line under its camera.
pub fn describe(mode: &Mode) -> (r: String)
    ensures
        r@ == mode_text(*mode),
        mode.framerates@.len() == 0 ==> r@ == text::decimal(mode.width as nat) + "x"@
            + text::decimal(mode.height as nat) + "  (rates not listed)"@,
        mode.framerates@.len() > 0 ==> r@ == text::decimal(mode.width as nat) + "x"@
            + text::decimal(mode.height as nat) + "  "@ + text::joined(
            Seq::new(mode.framerates@.len(), |i: int| text::decimal(mode.framerates@[i] as nat)),
            ", "@,
        ) + " fps"@,
{
    let size = write_size(mode.width, mode.height);
    if mode.framerates.len() == 0 {
        return text::join2(size.as_str(), "  (rates not listed)");
    }
    let ghost texts = rate_texts(mode.framerates@);
    let mut rates = text::decimal_text(mode.framerates[0] as u64);
    let mut i: usize = 1;
    proof {
        assert(texts.take(1)[0] == texts[0]);
    }
    while i < mode.framerates.len()
        invariant
            texts == rate_texts(mode.framerates@),
            1 <= i <= mode.framerates@.len(),
            rates@ == text::joined(texts.take(i as int), ", "@),
        decreases mode.framerates@.len() - i,
    {
        proof {
            assert(texts.take(i + 1).drop_last() =~= texts.take(i as int));
            assert(texts.take(i + 1).last() == texts[i as int]);
        }
        rates.append(", ");
        rates.append(text::decimal_text(mode.framerates[i] as u64).as_str());
        i = i + 1;
    }
    proof {
        assert(texts.take(i as int) =~= texts);
    }
    text::join4(size.as_str(), "  ", rates.as_str(), " fps")
}

/// The lines under one camera: its modes, the first few of them written out.
pub open spec fn mode_lines(modes: Option<Vec<Mode>>) -> Seq<Seq<char>> {
    match modes {
        None => Seq::empty(),
        Some(modes) => {
            let shown = if modes@.len() < MODES_SHOWN {
                modes@.len()
            } else {
                MODES_SHOWN as nat
            };
            let lines = Seq::new(shown, |i: int| "      "@ + mode_text(modes@[i]));
            if modes@.len() > MODES_SHOWN {
                lines.push(
                    "      ... and "@ + text::decimal((modes@.len() - MODES_SHOWN) as nat)
                        + " more"@,
                )
            } else {
                lines
            }
        },
    }
}

/// The lines of all the cameras.
pub open spec fn camera_lines(cameras: Seq<CameraInfo>) -> Seq<Seq<char>>
    decreases cameras.len(),
{
    if cameras.len() == 0 {
        Seq::empty()
    } else {
        let last = cameras.last();
        camera_lines(cameras.drop_last()).push("  cam:"@ + last.id@ + "  "@ + last.name@)
            + mode_lines(last.modes)
    }
}

/// The section of the cameras.
pub open spec fn camera_section(cameras: Result<Vec<CameraInfo>, String>) -> Seq<Seq<char>> {
    match cameras {
        Err(e) => seq!["cameras:"@, "  (unavailable: "@ + e@ + ")"@, Seq::empty()],
        Ok(cameras) => if cameras@.len() == 0 {
            seq!["cameras:"@, "  (none found)"@, Seq::empty()]
        } else {
            (seq!["cameras:"@] + camera_lines(cameras@)).push(Seq::empty())
        },
    }
}

fn push_modes(lines: &mut Vec<String>, modes: &Vec<Mode>)
    ensures
        text::views(final(lines)@) == text::views(old(lines)@) + mode_lines(Some(*modes)),
{
    let ghost before = text::views(lines@);
    let shown: usize = if modes.len() < MODES_SHOWN {
        modes.len()
    } else {
        MODES_SHOWN
    };
    let ghost all = Seq::new(shown as nat, |i: int| "      "@ + mode_text(modes@[i]));
    let mut i: usize = 0;
    proof {
        assert(before + all.take(0) =~= before);
    }
    while i < shown
        invariant
            i <= shown <= modes@.len(),
            all == Seq::new(shown as nat, |i: int| "      "@ + mode_text(modes@[i])),
            text::views(lines@) == before + all.take(i as int),
        decreases shown - i,
    {
        text::push_line(lines, text::join2("      ", describe(&modes[i]).as_str()));
        proof {
            assert(before + all.take(i + 1) =~= (before + all.take(i as int)).push(all[i as int]));
        }
        i = i + 1;
    }
    proof {
        assert(all.take(shown as int) =~= all);
    }
    if modes.len() > MODES_SHOWN {
        text::push_line(
            lines,
            text::join3(
                "      ... and ",
                text::decimal_text((modes.len() - MODES_SHOWN) as u64).as_str(),
                " more",
            ),
        );
        proof {
            assert(text::views(lines@) =~= before + mode_lines(Some(*modes)));
        }
    }
}

/// Lists the cameras, with the sizes and frame rates each one reports.
///
/// A camera that will not name its modes is listed without any: the identifier
/// is still the thing a publisher needs.
pub fn cameras(reported: &Result<Vec<CameraInfo>, String>) -> (r: Vec<String>)
    ensures
        text::views(r@) == camera_section(*reported),
{
    let mut lines: Vec<String> = Vec::new();
    proof {
        assert(text::views(lines@) =~= Seq::empty());
    }
    text::push_line(&mut lines, "cameras:".to_owned());
    proof {
        assert(text::views(lines@) =~= seq!["cameras:"@]);
    }
    match reported {
        Err(e) => {
            text::push_line(&mut lines, text::join3("  (unavailable: ", e.as_str(), ")"));
            text::push_line(&mut lines, String::new());
            proof {
                assert(text::views(lines@) =~= camera_section(*reported));
            }
        },
        Ok(found) => {
            if found.len() == 0 {
                text::push_line(&mut lines, "  (none found)".to_owned());
                text::push_line(&mut lines, String::new());
                proof {
                    assert(text::views(lines@) =~= camera_section(*reported));
                }
                return lines;
            }
            let mut i: usize = 0;
            proof {
                assert(seq!["cameras:"@] + camera_lines(found@.take(0)) =~= seq!["cameras:"@]);
            }
            while i < found.len()
                invariant
                    i <= found@.len(),
                    text::views(lines@) == seq!["cameras:"@] + camera_lines(found@.take(i as int)),
                decreases found@.len() - i,
            {
                let ghost before = camera_lines(found@.take(i as int));
                let camera = &found[i];
                proof {
                    assert(found@.take(i + 1).drop_last() =~= found@.take(i as int));
                    assert(found@.take(i + 1).last() == camera);
                }
                text::push_line(
                    &mut lines,
                    text::join4("  cam:", camera.id.as_str(), "  ", camera.name.as_str()),
                );
                match &camera.modes {
                    Some(modes) => push_modes(&mut lines, modes),
                    None => {},
                }
                proof {
                    let heading = "  cam:"@ + camera.id@ + "  "@ + camera.name@;
                    assert(text::views(lines@) =~= seq!["cameras:"@] + (before.push(heading)
                        + mode_lines(camera.modes)));
                }
                i = i + 1;
            }
            proof {
                assert(found@.take(i as int) =~= found@);
            }
            text::push_line(&mut lines, String::new());
            proof {
                assert(text::views(lines@) =~= camera_section(*reported));
            }
        },
    }
    lines
}

/// One section: its title, its devices or a note that there are none, and an
/// empty line.
pub open spec fn section_lines(title: Seq<char>, devices: Result<Seq<Seq<char>>, Seq<char>>) -> Seq<
    Seq<char>,
> {
    match devices {
        Err(e) => seq![title + ":"@, "  (unavailable: "@ + e + ")"@, Seq::empty()],
        Ok(devices) => if devices.len() == 0 {
            seq![title + ":"@, "  (none found)"@, Seq::empty()]
        } else {
            (seq![title + ":"@] + Seq::new(devices.len(), |i: int| "  "@ + devices[i])).push(
                Seq::empty(),
            )
        },
    }
}

/// One section, turning a failed enumeration into a note rather than aborting
/// the whole listing: a machine with no camera driver should still get to see
/// its microphones.
pub fn section(title: &str, devices: &Result<Vec<String>, String>) -> (r: Vec<String>)
    ensures
        text::views(r@) == section_lines(
            title@,
            match *devices {
                Ok(devices) => Ok(text::views(devices@)),
                Err(e) => Err(e@),
            },
        ),
{
    let mut lines: Vec<String> = Vec::new();
    proof {
        assert(text::views(lines@) =~= Seq::empty());
    }
    text::push_line(&mut lines, text::join2(title, ":"));
    let ghost heading = title@ + ":"@;
    proof {
        assert(text::views(lines@) =~= seq![heading]);
    }
    match devices {
        Err(e) => {
            text::push_line(&mut lines, text::join3("  (unavailable: ", e.as_str(), ")"));
            text::push_line(&mut lines, String::new());
            proof {
                assert(text::views(lines@) =~= section_lines(title@, Err(e@)));
            }
        },
        Ok(found) => {
            let ghost names = text::views(found@);
            let ghost all = Seq::new(names.len(), |i: int| "  "@ + names[i]);
            if found.len() == 0 {
                text::push_line(&mut lines, "  (none found)".to_owned());
                text::push_line(&mut lines, String::new());
                proof {
                    assert(text::views(lines@) =~= section_lines(title@, Ok(names)));
                }
                return lines;
            }
            let mut i: usize = 0;
            proof {
                assert(seq![heading] + all.take(0) =~= seq![heading]);
            }
            while i < found.len()
                invariant
                    i <= found@.len(),
                    names == text::views(found@),
                    all == Seq::new(names.len(), |i: int| "  "@ + names[i]),
                    text::views(lines@) == seq![heading] + all.take(i as int),
                decreases found@.len() - i,
            {
                text::push_line(&mut lines, text::join2("  ", found[i].as_str()));
                proof {
                    assert(seq![heading] + all.take(i + 1) =~= (seq![heading] + all.take(
                        i as int,
                    )).push(all[i as int]));
                }
                i = i + 1;
            }
            text::push_line(&mut lines, String::new());
            proof {
                assert(all.take(i as int) =~= all);
                assert(text::views(lines@) =~= section_lines(title@, Ok(names)));
            }
        },
    }
    lines
}

/// A display, as its section lists it.
pub fn display_line(display: &DisplayInfo) -> (r: String)
    ensures
        r@ == "screen:"@ + display.id@ + "  "@ + display.name@ + (" ("@ + size_text(
            display.width,
            display.height,
        ) + ")"@),
        r@ == "screen:"@ + display.id@ + "  "@ + display.name@ + (" ("@ + (text::decimal(
            display.width as nat,
        ) + "x"@ + text::decimal(display.height as nat)) + ")"@),
{
    let size = write_size(display.width, display.height);
    let size = text::join3(" (", size.as_str(), ")");
    text::join5("screen:", display.id.as_str(), "  ", display.name.as_str(), size.as_str())
}

/// A window, as its section lists it.
pub fn window_line(window: &WindowInfo) -> (r: String)
    ensures
        r@ == "window:"@ + window.id@ + "  "@ + window.app@ + (" - "@ + window.title@ + " ("@
            + size_text(window.width, window.height) + ")"@),
        r@ == "window:"@ + window.id@ + "  "@ + window.app@ + (" - "@ + window.title@ + " ("@ + (
        text::decimal(window.width as nat) + "x"@ + text::decimal(window.height as nat)) + ")"@),
{
    let size = write_size(window.width, window.height);
    let rest = text::join5(" - ", window.title.as_str(), " (", size.as_str(), ")");
    text::join5("window:", window.id.as_str(), "  ", window.app.as_str(), rest.as_str())
}

/// An application, as its section lists it.
pub fn app_line(app: &AppInfo) -> (r: String)
    ensures
        r@ == "app:"@ + app.id@ + "  "@ + app.name@,
{
    text::join4("app:", app.id.as_str(), "  ", app.name.as_str())
}

/// What follows the name of a default device.
pub open spec fn default_mark(default: bool) -> Seq<char> {
    if default {
        " (default)"@
    } else {
        ""@
    }
}

fn write_default_mark(default: bool) -> (r: &'static str)
    ensures
        r@ == default_mark(default),
{
    if default {
        " (default)"
    } else {
        ""
    }
}

/// An audio input, as its section lists it.
pub fn input_line(device: &AudioInfo) -> (r: String)
    ensures
        r@ == "mic:"@ + device.id@ + "  "@ + device.name@ + default_mark(device.default),
        r@ == "mic:"@ + device.id@ + "  "@ + device.name@ + (if device.default {
            " (default)"@
        } else {
            ""@
        }),
{
    text::join5(
        "mic:",
        device.id.as_str(),
        "  ",
        device.name.as_str(),
        write_default_mark(device.default),
    )
}

/// An audio output, as its section lists it. The id leads, because that is what
/// a user copies.
pub fn output_line(device: &AudioInfo) -> (r: String)
    ensures
        r@ == device.id@ + "  "@ + device.name@ + default_mark(device.default),
        r@ == device.id@ + "  "@ + device.name@ + (if device.default {
            " (default)"@
        } else {
            ""@
        }),
{
    text::join4(
        device.id.as_str(),
        "  ",
        device.name.as_str(),
        write_default_mark(device.default),
    )
}

/// What a line of the Raspberry Pi camera listing says, if it names a camera.
///
/// A camera's line is shaped `0 : imx219 [...]`: a number, and a description
/// after the first ` : `.
pub open spec fn listed_camera(line: Seq<char>) -> Option<Seq<char>> {
    match text::split_at_text(line, " : "@) {
        None => None,
        Some((index, description)) => if text::number(text::trimmed(index)) is Some {
            Some("rpicam  "@ + text::trimmed(description))
        } else {
            None
        },
    }
}

/// Turns one line of the Raspberry Pi camera listing into an entry.
///
/// The index is dropped: `--video rpicam` takes no id.
pub fn camera_line(line: &str) -> (r: Option<String>)
    ensures
        text::view_option(r) == listed_camera(line@),
{
    proof {
        reveal_strlit(" : ");
    }
    match text::split_once_at(line, " : ") {
        None => None,
        Some((index, description)) => match text::parse_u32(text::trim(index)) {
            Some(_) => Some(text::join2("rpicam  ", text::trim(description))),
            None => None,
        },
    }
}

/// Everything that a machine reports, section by section.
#[derive(Debug)]
pub struct Enumerated {
    /// The cameras.
    pub cameras: Result<Vec<CameraInfo>, String>,
    /// The Raspberry Pi cameras, as their lines.
    pub rpicams: Result<Vec<String>, String>,
    /// The displays, as their lines.
    pub displays: Result<Vec<String>, String>,
    /// The windows, as their lines.
    pub windows: Result<Vec<String>, String>,
    /// The applications, as their lines.
    pub apps: Result<Vec<String>, String>,
    /// The audio inputs, as their lines.
    pub inputs: Result<Vec<String>, String>,
    /// The audio outputs, as their lines.
    pub outputs: Result<Vec<String>, String>,
}

/// The lines of an enumeration.
pub open spec fn enumerated(devices: Result<Vec<String>, String>) -> Result<
    Seq<Seq<char>>,
    Seq<char>,
> {
    match devices {
        Ok(devices) => Ok(text::views(devices@)),
        Err(e) => Err(e@),
    }
}

/// A section, where a build has the kind of device it lists.
pub open spec fn section_if(
    shown: bool,
    title: Seq<char>,
    devices: Result<Vec<String>, String>,
) -> Seq<Seq<char>> {
    if shown {
        section_lines(title, enumerated(devices))
    } else {
        Seq::empty()
    }
}

/// Every section, in the order a publisher reaches for them.
pub open spec fn listing(features: Features, found: Enumerated) -> Seq<Seq<char>> {
    camera_section(found.cameras) + section_if(
        features.rpicam,
        "raspberry pi cameras"@,
        found.rpicams,
    ) + section_if(true, "displays"@, found.displays) + section_if(
        features.macos,
        "windows"@,
        found.windows,
    ) + section_if(features.macos, "applications"@, found.apps) + section_if(
        true,
        "audio inputs"@,
        found.inputs,
    ) + section_if(features.playback, "audio outputs"@, found.outputs)
}

fn push_section(
    lines: &mut Vec<String>,
    shown: bool,
    title: &str,
    devices: &Result<Vec<String>, String>,
)
    ensures
        text::views(final(lines)@) == text::views(old(lines)@) + section_if(
            shown,
            title@,
            *devices,
        ),
{
    if shown {
        text::push_lines(lines, section(title, devices));
    } else {
        proof {
            assert(text::views(lines@) + Seq::<Seq<char>>::empty() =~= text::views(lines@));
        }
    }
}

/// Lists every section, in the order a publisher reaches for them. Windows and
/// applications are kinds that only macOS has.
pub fn list(features: Features, found: &Enumerated) -> (r: Vec<String>)
    ensures
        text::views(r@) == listing(features, *found),
        text::views(r@) == camera_section(found.cameras) + (if features.rpicam {
            section_lines("raspberry pi cameras"@, enumerated(found.rpicams))
        } else {
            Seq::empty()
        }) + section_lines("displays"@, enumerated(found.displays)) + (if features.macos {
            section_lines("windows"@, enumerated(found.windows))
        } else {
            Seq::empty()
        }) + (if features.macos {
            section_lines("applications"@, enumerated(found.apps))
        } else {
            Seq::empty()
        }) + section_lines("audio inputs"@, enumerated(found.inputs)) + (if features.playback {
            section_lines("audio outputs"@, enumerated(found.outputs))
        } else {
            Seq::empty()
        }),
{
    let mut lines = cameras(&found.cameras);
    push_section(&mut lines, features.rpicam, "raspberry pi cameras", &found.rpicams);
    push_section(&mut lines, true, "displays", &found.displays);
    push_section(&mut lines, features.macos, "windows", &found.windows);
    push_section(&mut lines, features.macos, "applications", &found.apps);
    push_section(&mut lines, true, "audio inputs", &found.inputs);
    push_section(&mut lines, features.playback, "audio outputs", &found.outputs);
    lines
}

/// Under a camera stand its sizes in the order it reports them, six at most, and what
/// is beyond them is counted on a line of its own.
pub proof fn six_modes_are_written_out(modes: Vec<Mode>, i: int)
    requires
        0 <= i < modes@.len(),
    ensures
        ({
            let lines = mode_lines(Some(modes));
            &&& lines.len() == (if modes@.len() > 6 {
                7
            } else {
                modes@.len()
            })
            &&& i < 6 ==> lines[i] == "      "@ + mode_text(modes@[i])
            &&& modes@.len() > 6 ==> lines[6] == "      ... and "@ + text::decimal(
                (modes@.len() - 6) as nat,
            ) + " more"@
        }),
        mode_lines(None).len() == 0,
{
}

/// Cameras are listed one after the other: each by its id and its name, with its sizes
/// below, and the lines of two lists are those of one list of both.
pub proof fn cameras_are_listed_in_a_row(some: Seq<CameraInfo>, more: Seq<CameraInfo>, one: CameraInfo)
    ensures
        camera_lines(seq![one]) == seq!["  cam:"@ + one.id@ + "  "@ + one.name@] + mode_lines(
            one.modes,
        ),
        camera_lines(some + more) == camera_lines(some) + camera_lines(more),
        camera_lines(Seq::empty()).len() == 0,
    decreases more.len(),
{
    let single = seq![one];
    assert(single.drop_last() =~= Seq::empty());
    assert(single.last() == one);
    assert(camera_lines(Seq::<CameraInfo>::empty()) =~= Seq::empty());
    assert(camera_lines(single) =~= seq!["  cam:"@ + one.id@ + "  "@ + one.name@] + mode_lines(
        one.modes,
    ));
    if more.len() == 0 {
        assert(some + more =~= some);
        assert(camera_lines(some + more) =~= camera_lines(some) + camera_lines(more));
    } else {
        cameras_are_listed_in_a_row(some, more.drop_last(), one);
        assert((some + more).drop_last() =~= some + more.drop_last());
        assert((some + more).last() == more.last());
        assert(camera_lines(some + more) =~= camera_lines(some) + camera_lines(more));
    }
}

/// The section of the cameras opens with its title and closes with an empty line, and
/// holds the cameras, or says that there are none or that they could not be listed.
pub proof fn camera_sections_are_framed(cameras: Vec<CameraInfo>, why: String)
    ensures
        cameras@.len() > 0 ==> camera_section(Ok(cameras)) == seq!["cameras:"@] + camera_lines(
            cameras@,
        ) + seq![Seq::<char>::empty()],
        cameras@.len() == 0 ==> camera_section(Ok(cameras)) == seq![
            "cameras:"@,
            "  (none found)"@,
            Seq::<char>::empty(),
        ],
        camera_section(Err(why)) == seq![
            "cameras:"@,
            "  (unavailable: "@ + why@ + ")"@,
            Seq::<char>::empty(),
        ],
{
    if cameras@.len() > 0 {
        assert(camera_section(Ok(cameras)) =~= seq!["cameras:"@] + camera_lines(cameras@) + seq![
            Seq::<char>::empty(),
        ]);
    }
}

/// Any other section opens with its title and closes with an empty line, and holds a
/// line for each device in its order, or says that there are none or that they could
/// not be listed.
pub proof fn sections_are_framed(title: Seq<char>, devices: Seq<Seq<char>>, why: Seq<char>, i: int)
    requires
        0 <= i < devices.len(),
    ensures
        ({
            let lines = section_lines(title, Ok(devices));
            &&& lines.len() == devices.len() + 2
            &&& lines[0] == title + ":"@
            &&& lines[i + 1] == "  "@ + devices[i]
            &&& lines.last().len() == 0
        }),
        section_lines(title, Ok(Seq::empty())) == seq![
            title + ":"@,
            "  (none found)"@,
            Seq::<char>::empty(),
        ],
        section_lines(title, Err(why)) == seq![
            title + ":"@,
            "  (unavailable: "@ + why + ")"@,
            Seq::<char>::empty(),
        ],
{
}

/// A line of the Raspberry Pi listing names a camera exactly where a number stands
/// before its first ` : `, and the camera is called what stands after it.
pub proof fn numbered_lines_name_cameras(line: Seq<char>)
    ensures
        match listed_camera(line) {
            Some(entry) => exists|index: Seq<char>, rest: Seq<char>|
                {
                    &&& line == #[trigger] (index + " : "@ + rest)
                    &&& text::number(text::trimmed(index)) is Some
                    &&& entry == "rpicam  "@ + text::trimmed(rest)
                    &&& forall|i: int|
                        0 <= i < index.len() ==> !text::has_prefix(#[trigger] line.skip(i), " : "@)
                },
            None => (forall|i: int|
                0 <= i < line.len() ==> !text::has_prefix(#[trigger] line.skip(i), " : "@))
                || exists|index: Seq<char>, rest: Seq<char>|
                {
                    &&& line == #[trigger] (index + " : "@ + rest)
                    &&& text::number(text::trimmed(index)) is None
                    &&& forall|i: int|
                        0 <= i < index.len() ==> !text::has_prefix(#[trigger] line.skip(i), " : "@)
                },
        },
{
    reveal_strlit(" : ");
    text::splits_are_at_the_first_text(line, " : "@);
    if text::split_at_text(line, " : "@) is Some {
        let (index, rest) = text::split_at_text(line, " : "@)->0;
        assert(line == index + " : "@ + rest);
    }
}

} // verus!
