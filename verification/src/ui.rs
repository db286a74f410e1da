//! What the windows decide: how a broadcast is played, when the controls show,
//! and what the pickers over a picture say and do.

use vstd::prelude::*;
use vstd::string::*;

use crate::args::PlaybackArgs;
use crate::backend::{DecoderArg, Kind};
use crate::text;
use crate::time;
use crate::time::{Duration, Instant};

verus! {

/// How long the pointer must sit still before the overlay fades out, in
/// nanoseconds.
pub const CURSOR_IDLE: u128 = 2_000_000_000;

/// How a broadcast is played.
#[derive(Debug)]
pub struct PlaybackPolicy {
    /// Whether decoded frames stay on the GPU.
    pub gpu_frames: bool,
    /// Which decoders are tried.
    pub decoder: Kind,
    /// How long a frame is held back, so that a late one has somewhere to land.
    pub jitter: Duration,
    /// How much buffered media is tolerated before the player skips to the live
    /// edge.
    pub max_latency: Duration,
}

/// Sets the playback policy a window wants: the decoder and the latency that the
/// flags asked for, and frames that stay on the GPU.
///
/// Every window draws what it decodes and none of them reads a pixel, so a full
/// frame need not be copied out of the GPU and straight back in.
pub fn prepare_playback(policy: &mut PlaybackPolicy, args: &PlaybackArgs)
    ensures
        final(policy).gpu_frames,
        final(policy).decoder@ == args.decoder.kind_view(),
        final(policy).jitter.nanos == args.latency.holds(),
        final(policy).max_latency.nanos == args.latency.tolerates(),
{
    *policy = PlaybackPolicy {
        gpu_frames: true,
        decoder: args.decoder.kind(),
        jitter: args.latency.jitter(),
        max_latency: args.latency.max_latency(),
    };
}

/// Hides the overlay, and the pointer with it, once the pointer has been still
/// for a while.
#[derive(Debug, Clone, Copy, PartialEq, Eq, Structural)]
pub struct CursorIdle {
    visible: bool,
    since: Instant,
}

impl CursorIdle {
    /// Whether the overlay was drawn last.
    pub closed spec fn shown(self) -> bool {
        self.visible
    }

    /// When the pointer was last seen to move, or the overlay to be pinned.
    pub closed spec fn last_moved(self) -> Instant {
        self.since
    }

    /// The overlay starts out visible.
    pub fn new(now: Instant) -> (r: CursorIdle)
        ensures
            r.shown(),
            r.last_moved() == now,
    {
        CursorIdle { visible: true, since: now }
    }

    /// Reports whether the overlay is drawn this frame, and the pointer with it.
    ///
    /// `pinned` keeps it up regardless, which is what an expanded stats panel
    /// wants: it would otherwise vanish while being read.
    pub fn update(&mut self, pinned: bool, moved: bool, now: Instant) -> (r: bool)
        ensures
            r == final(self).shown(),
            final(self).last_moved() == if pinned || moved {
                now
            } else {
                old(self).last_moved()
            },
            final(self).shown() == if pinned || moved {
                true
            } else if time::since(now, old(self).last_moved()) > CURSOR_IDLE {
                false
            } else {
                old(self).shown()
            },
            pinned || moved ==> r,
            !pinned && !moved && now.nanos > old(self).last_moved().nanos + 2_000_000_000 ==> !r,
            !pinned && !moved && now.nanos <= old(self).last_moved().nanos + 2_000_000_000 ==> r
                == old(self).shown(),
    {
        if pinned || moved {
            self.visible = true;
            self.since = now;
        } else if now.duration_since(self.since).nanos > CURSOR_IDLE {
            self.visible = false;
        }
        self.visible
    }
}

/// The rendition a viewer asked for, as distinct from the one decoding.
#[derive(Debug)]
pub enum RenditionChoice {
    /// Follow the downlink.
    Auto,
    /// Hold one rendition whatever the downlink does.
    Pinned(String),
}

impl RenditionChoice {
    /// The rendition that is held, if one is.
    pub open spec fn pinned(self) -> Option<Seq<char>> {
        match self {
            RenditionChoice::Auto => None,
            RenditionChoice::Pinned(name) => Some(name@),
        }
    }
}

impl Clone for RenditionChoice {
    fn clone(&self) -> (r: RenditionChoice)
        ensures
            r.pinned() == self.pinned(),
    {
        match self {
            RenditionChoice::Auto => RenditionChoice::Auto,
            RenditionChoice::Pinned(name) => RenditionChoice::Pinned(name.clone()),
        }
    }
}

/// What a video track is told.
#[derive(Debug)]
pub enum TrackCommand {
    /// Follow the downlink.
    Adapt,
    /// Stop following it and play this rendition.
    Pin(String),
}

impl TrackCommand {
    /// The rendition that the track is pinned to, if it is.
    pub open spec fn pinned(self) -> Option<Seq<char>> {
        match self {
            TrackCommand::Adapt => None,
            TrackCommand::Pin(name) => Some(name@),
        }
    }
}

/// One line of a picker.
#[derive(Debug)]
pub struct PickerEntry {
    /// What it says.
    pub label: String,
    /// Whether it is the one in force.
    pub selected: bool,
}

impl PickerEntry {
    /// What it says, and whether it is the one in force.
    pub open spec fn says(self) -> (Seq<char>, bool) {
        (self.label@, self.selected)
    }
}

/// A list of lines as what they say.
pub open spec fn entries_say(entries: Seq<PickerEntry>) -> Seq<(Seq<char>, bool)> {
    entries.map_values(|e: PickerEntry| e.says())
}

/// The rendition and decoder pickers over a picture.
#[derive(Debug)]
pub struct Controls {
    /// What the rendition picker says when it is closed.
    pub rendition: String,
    /// What it offers: `Auto`, and then each rendition of the catalog.
    pub renditions: Vec<PickerEntry>,
    /// What the decoder picker says when it is closed.
    pub decoder: String,
    /// What it offers.
    pub decoders: Vec<PickerEntry>,
}

/// The choices behind one remote broadcast on screen.
#[derive(Debug)]
pub struct RemoteView {
    /// Whether the peer sends video.
    pub has_video: bool,
    /// The rendition last asked for.
    pub choice: RenditionChoice,
    /// The decoder the picker last asked for, which is not necessarily the one
    /// running.
    pub decoder: DecoderArg,
}

/// What the rendition picker says when it is closed: the held rendition, or that
/// it follows the downlink and what it follows it with.
pub open spec fn rendition_label(pinned: Option<Seq<char>>, playing: Seq<char>) -> Seq<char> {
    match pinned {
        None => "Auto ("@ + playing + ")"@,
        Some(name) => name,
    }
}

/// What the decoder picker says when it is closed: the backend that runs, beside
/// the choice that asked for it unless they are the same.
pub open spec fn decoder_label(chosen: Seq<char>, running: Seq<char>) -> Seq<char> {
    if chosen == running {
        running
    } else {
        chosen + " ("@ + running + ")"@
    }
}

/// What the rendition picker offers.
pub open spec fn rendition_entries(
    pinned: Option<Seq<char>>,
    catalog: Seq<Seq<char>>,
) -> Seq<(Seq<char>, bool)> {
    seq![("Auto"@, pinned is None)] + Seq::new(
        catalog.len(),
        |i: int| (catalog[i], pinned == Some(catalog[i])),
    )
}

/// What the decoder picker offers.
pub open spec fn decoder_entries(chosen: DecoderArg) -> Seq<(Seq<char>, bool)> {
    DecoderArg::variants().map_values(|arg: DecoderArg| (arg.spelled(), arg == chosen))
}

impl RemoteView {
    /// Opens a view onto a broadcast. The track follows the downlink, and the
    /// decoder picker starts on whatever the broadcast's policy says.
    pub fn new(has_video: bool, policy: &PlaybackPolicy) -> (r: RemoteView)
        ensures
            r.has_video == has_video,
            r.choice is Auto,
            r.decoder == DecoderArg::of_kind(policy.decoder@),
    {
        RemoteView {
            has_video,
            choice: RenditionChoice::Auto,
            decoder: DecoderArg::from_kind(&policy.decoder),
        }
    }

    /// What the video track is told, if there is one: to follow the downlink or
    /// to hold one rendition, whichever is selected.
    pub fn apply_rendition(&self) -> (r: Option<TrackCommand>)
        ensures
            r is Some == self.has_video,
            r matches Some(command) ==> command.pinned() == self.choice.pinned(),
    {
        if !self.has_video {
            return None;
        }
        match &self.choice {
            RenditionChoice::Auto => Some(TrackCommand::Adapt),
            RenditionChoice::Pinned(name) => Some(TrackCommand::Pin(name.clone())),
        }
    }

    /// Points the video track at `choice`, and returns what it is told.
    pub fn set_rendition(&mut self, choice: RenditionChoice) -> (r: Option<TrackCommand>)
        ensures
            *final(self) == (RemoteView { choice, ..*old(self) }),
            r is Some == old(self).has_video,
            r matches Some(command) ==> command.pinned() == choice.pinned(),
    {
        self.choice = choice;
        self.apply_rendition()
    }

    /// Points the video decoder at `choice`. Returns whether a track that is
    /// playing has to rebuild its decoder.
    ///
    /// The policy is where the choice lives, so a track opened later decodes the
    /// same way.
    pub fn set_decoder(&mut self, choice: DecoderArg, policy: &mut PlaybackPolicy) -> (r: bool)
        ensures
            *final(self) == (RemoteView { decoder: choice, ..*old(self) }),
            final(policy).decoder@ == choice.kind_view(),
            final(policy).gpu_frames == old(policy).gpu_frames,
            final(policy).jitter == old(policy).jitter,
            final(policy).max_latency == old(policy).max_latency,
            r == old(self).has_video,
    {
        self.decoder = choice;
        policy.decoder = choice.kind();
        self.has_video
    }

    /// The pickers, for a catalog of video renditions, when `playing` is the
    /// rendition on screen and `running` the decoder behind it. There are none
    /// without video.
    pub fn controls(&self, catalog: &Vec<String>, playing: &str, running: &str) -> (r: Option<
        Controls,
    >)
        ensures
            r is Some == self.has_video,
            r matches Some(c) ==> {
                &&& c.rendition@ == rendition_label(self.choice.pinned(), playing@)
                &&& entries_say(c.renditions@) == rendition_entries(
                    self.choice.pinned(),
                    text::views(catalog@),
                )
                &&& c.decoder@ == decoder_label(self.decoder.spelled(), running@)
                &&& entries_say(c.decoders@) == decoder_entries(self.decoder)
            },
    {
        if !self.has_video {
            return None;
        }
        let rendition = match &self.choice {
            RenditionChoice::Auto => text::join3("Auto (", playing, ")"),
            RenditionChoice::Pinned(name) => name.clone(),
        };
        let chosen = self.decoder.name();
        let decoder = if text::same(chosen, running) {
            running.to_owned()
        } else {
            text::join4(chosen, " (", running, ")")
        };
        Some(
            Controls {
                rendition,
                renditions: self.rendition_picker(catalog),
                decoder,
                decoders: self.decoder_picker(),
            },
        )
    }

    fn rendition_picker(&self, catalog: &Vec<String>) -> (r: Vec<PickerEntry>)
        ensures
            entries_say(r@) == rendition_entries(self.choice.pinned(), text::views(catalog@)),
    {
        let mut entries: Vec<PickerEntry> = Vec::new();
        let auto = match &self.choice {
            RenditionChoice::Auto => true,
            RenditionChoice::Pinned(_) => false,
        };
        entries.push(PickerEntry { label: "Auto".to_owned(), selected: auto });
        let mut i: usize = 0;
        while i < catalog.len()
            invariant
                i <= catalog@.len(),
                entries@.len() == i + 1,
                entries@[0].says() == ("Auto"@, self.choice.pinned() is None),
                forall|j: int|
                    0 <= j < i ==> (#[trigger] entries@[j + 1]).says() == (
                        catalog@[j]@,
                        self.choice.pinned() == Some(catalog@[j]@),
                    ),
            decreases catalog@.len() - i,
        {
            let name = catalog[i].as_str();
            let selected = match &self.choice {
                RenditionChoice::Auto => false,
                RenditionChoice::Pinned(pinned) => text::same(pinned.as_str(), name),
            };
            entries.push(PickerEntry { label: name.to_owned(), selected });
            i = i + 1;
        }
        proof {
            let said = entries_say(entries@);
            let expected = rendition_entries(self.choice.pinned(), text::views(catalog@));
            assert(said.len() == expected.len());
            assert forall|k: int| 0 <= k < said.len() implies said[k] == expected[k] by {
                if k > 0 {
                    assert(entries@[(k - 1) + 1].says() == (
                        catalog@[k - 1]@,
                        self.choice.pinned() == Some(catalog@[k - 1]@),
                    ));
                    assert(text::views(catalog@)[k - 1] == catalog@[k - 1]@);
                }
            }
            assert(said =~= expected);
        }
        entries
    }

    fn decoder_picker(&self) -> (r: Vec<PickerEntry>)
        ensures
            entries_say(r@) == decoder_entries(self.decoder),
    {
        let candidates = DecoderArg::value_variants();
        let mut entries: Vec<PickerEntry> = Vec::new();
        let mut i: usize = 0;
        while i < candidates.len()
            invariant
                candidates@ == DecoderArg::variants(),
                i <= candidates@.len(),
                entries@.len() == i,
                forall|j: int|
                    0 <= j < i ==> (#[trigger] entries@[j]).says() == (
                        candidates@[j].spelled(),
                        candidates@[j] == self.decoder,
                    ),
            decreases candidates@.len() - i,
        {
            let candidate = candidates[i];
            entries.push(
                PickerEntry {
                    label: candidate.name().to_owned(),
                    selected: candidate == self.decoder,
                },
            );
            i = i + 1;
        }
        assert(entries_say(entries@) =~= decoder_entries(self.decoder));
        entries
    }

    /// The peer's broadcast has ended: there is no picture any more.
    pub fn shutdown(&mut self)
        ensures
            *final(self) == (RemoteView { has_video: false, ..*old(self) }),
    {
        self.has_video = false;
    }
}

/// A choice holds the rendition that it names, and a track is pinned to the rendition
/// that it is told; following the downlink holds none.
pub proof fn choices_hold_what_they_name(name: String)
    ensures
        RenditionChoice::Auto.pinned() is None,
        RenditionChoice::Pinned(name).pinned() == Some(name@),
        TrackCommand::Adapt.pinned() is None,
        TrackCommand::Pin(name).pinned() == Some(name@),
{
}

/// Exactly one line of a picker is in force: of the renditions the one that is held, or
/// `Auto` where none is, which comes first; of the decoders the one that was chosen.
pub proof fn pickers_mark_what_is_in_force(
    pinned: Option<Seq<char>>,
    catalog: Seq<Seq<char>>,
    chosen: DecoderArg,
    i: int,
)
    ensures
        rendition_entries(pinned, catalog).len() == catalog.len() + 1,
        rendition_entries(pinned, catalog)[0] == ("Auto"@, pinned is None),
        0 <= i < catalog.len() ==> rendition_entries(pinned, catalog)[i + 1].0 == catalog[i],
        0 <= i < catalog.len() ==> (rendition_entries(pinned, catalog)[i + 1].1 <==> pinned == Some(
            catalog[i],
        )),
        decoder_entries(chosen).len() == 10,
        0 <= i < 10 ==> decoder_entries(chosen)[i].0 == DecoderArg::variants()[i].spelled(),
        0 <= i < 10 ==> (decoder_entries(chosen)[i].1 <==> DecoderArg::variants()[i] == chosen),
{
}

/// A closed picker names what is held or chosen, and beside it what runs.
pub proof fn closed_pickers_name_both(chosen: Seq<char>, running: Seq<char>)
    ensures
        rendition_label(Some(chosen), running) == chosen,
        rendition_label(None, running) == "Auto ("@ + running + ")"@,
        decoder_label(chosen, chosen) == chosen,
        chosen != running ==> decoder_label(chosen, running) == chosen + " ("@ + running + ")"@,
{
}

/// The entries of a picker are seen one by one, by their text and whether they are in
/// force; a choice and a command are seen by the rendition they hold, if any.
pub proof fn every_entry_is_seen(
    entries: Seq<PickerEntry>,
    choice: RenditionChoice,
    command: TrackCommand,
)
    ensures
        entries_say(entries).len() == entries.len(),
        forall|i: int|
            0 <= i < entries.len() ==> #[trigger] entries_say(entries)[i] == (
                entries[i].label@,
                entries[i].selected,
            ),
        choice is Auto <==> choice.pinned() is None,
        choice matches RenditionChoice::Pinned(name) ==> choice.pinned() == Some(name@),
        command is Adapt <==> command.pinned() is None,
        command matches TrackCommand::Pin(name) ==> command.pinned() == Some(name@),
{
}

} // verus!
