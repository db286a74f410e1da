//! Sessions of several streams: what each block asks for, and what is said once
//! they are set up.
//!
//! One endpoint publishes every `send` block and subscribes to every `recv`
//! block. The session is headless: a `recv` block plays audio and can record to
//! a file, but it never opens a window.

use vstd::prelude::*;
use vstd::string::*;

use crate::args::{AudioCodecArg, CaptureArgs, VideoCodecArg};
use crate::backend::EncoderArg;
use crate::endpoint::EndpointId;
use crate::record;
use crate::record::RecordOptions;
use crate::text;
use crate::ticket;
use crate::ticket::{LiveTicket, TicketView};
use crate::time;
use crate::transport;
use crate::util;

verus! {

/// A session: an optional persistent identity, the broadcasts to publish, and
/// the broadcasts to subscribe to.
#[derive(Debug)]
pub struct RunConfig {
    /// A name for this session's endpoint identity, generated on first use, so
    /// that the tickets a session prints survive a restart.
    pub secret_key_name: Option<String>,
    /// The broadcasts this session publishes.
    pub send: Vec<SendConfig>,
    /// The broadcasts this session subscribes to.
    pub recv: Vec<RecvConfig>,
}

/// One broadcast to publish.
///
/// Every field but `name` is a capture flag under the flag's own name, and takes
/// the flag's own default when it is left out.
#[derive(Debug)]
pub struct SendConfig {
    /// Broadcast path, which is also the label the session reports under.
    pub name: String,
    /// Video source, in `--video`'s grammar.
    pub video: String,
    /// Audio source, in `--audio`'s grammar.
    pub audio: String,
    /// Video codec.
    pub codec: VideoCodecArg,
    /// Encoder backend.
    pub encoder: EncoderArg,
    /// The simulcast ladder, one entry per rung.
    pub renditions: Vec<String>,
    /// Target video bitrate for the largest rung, in bits per second.
    pub bitrate: Option<u64>,
    /// Requested capture width.
    pub width: Option<u32>,
    /// Requested capture height.
    pub height: Option<u32>,
    /// Requested capture frame rate.
    pub fps: Option<u32>,
    /// Hide the mouse cursor.
    pub no_cursor: bool,
    /// Audio codec.
    pub audio_codec: AudioCodecArg,
    /// Target audio bitrate in bits per second.
    pub audio_bitrate: Option<u32>,
}

/// What a `recv` block does with the audio it receives.
#[derive(Debug, Clone, Copy, PartialEq, Eq, Structural)]
pub enum AudioOutput {
    /// Play it through whatever the system calls its default output.
    Default,
    /// Leave the speakers alone.
    Nothing,
}

/// One broadcast to subscribe to.
#[derive(Debug)]
pub struct RecvConfig {
    /// The label the session reports this subscription under.
    pub name: String,
    /// The ticket to subscribe to.
    pub ticket: String,
    /// Whether this subscription's audio is played.
    pub audio_output: AudioOutput,
    /// A file to record the broadcast to, in the container its extension names.
    pub record: Option<String>,
    /// The one video rendition to record, instead of every rung the catalog
    /// offers.
    pub rendition: Option<String>,
}

impl Default for AudioOutput {
    fn default() -> (r: AudioOutput)
        ensures
            r == AudioOutput::Default,
    {
        AudioOutput::Default
    }
}

impl SendConfig {
    /// A block that names nothing but its broadcast.
    pub fn new(name: String) -> (r: SendConfig)
        ensures
            r.name == name,
            r.video@ == "cam"@,
            r.audio@ == "mic"@,
            r.codec == VideoCodecArg::H264,
            r.encoder == EncoderArg::Auto,
            r.renditions@.len() == 0,
            r.bitrate is None,
            r.width is None,
            r.height is None,
            r.fps is None,
            !r.no_cursor,
            r.audio_codec == AudioCodecArg::Opus,
            r.audio_bitrate is None,
    {
        let flags = CaptureArgs::default();
        SendConfig {
            name,
            video: flags.video,
            audio: flags.audio,
            codec: flags.codec,
            encoder: flags.encoder,
            renditions: flags.renditions,
            bitrate: None,
            width: None,
            height: None,
            fps: None,
            no_cursor: false,
            audio_codec: flags.audio_codec,
            audio_bitrate: None,
        }
    }

    /// The capture flags this block stands for. The test source has no spelling
    /// here, and the keyframe interval keeps its default.
    pub fn capture(&self) -> (r: CaptureArgs)
        ensures
            r.video@ == self.video@,
            r.audio@ == self.audio@,
            !r.test_source,
            r.codec == self.codec,
            r.encoder == self.encoder,
            text::views(r.renditions@) == text::views(self.renditions@),
            r.keyframe_interval matches Some(d) && d.nanos == time::secs(2),
            r.bitrate == self.bitrate,
            r.width == self.width,
            r.height == self.height,
            r.fps == self.fps,
            r.no_cursor == self.no_cursor,
            r.audio_codec == self.audio_codec,
            r.audio_bitrate == self.audio_bitrate,
    {
        let flags = CaptureArgs::default();
        CaptureArgs {
            video: self.video.clone(),
            audio: self.audio.clone(),
            test_source: flags.test_source,
            codec: self.codec,
            encoder: self.encoder,
            renditions: text::clone_all(&self.renditions),
            keyframe_interval: flags.keyframe_interval,
            bitrate: self.bitrate,
            width: self.width,
            height: self.height,
            fps: self.fps,
            no_cursor: self.no_cursor,
            audio_codec: self.audio_codec,
            audio_bitrate: self.audio_bitrate,
        }
    }
}

impl RecvConfig {
    /// A block that plays what it receives and records nothing.
    pub fn new(name: String, ticket: String) -> (r: RecvConfig)
        ensures
            r.name == name,
            r.ticket == ticket,
            r.audio_output == AudioOutput::Default,
            r.record is None,
            r.rendition is None,
    {
        RecvConfig {
            name,
            ticket,
            audio_output: AudioOutput::Default,
            record: None,
            rendition: None,
        }
    }

    /// The ticket to subscribe to.
    ///
    /// # Errors
    ///
    /// Fails if the block's text is not a ticket.
    pub fn parsed_ticket(&self) -> (r: Result<LiveTicket, String>)
        ensures
            match (r, ticket::read(self.ticket@)) {
                (Ok(t), Ok(read)) => t@ == read && t.endpoint.addrs@.len() == 0,
                (Err(e), Err(error)) => e@ == "invalid ticket: "@ + error.text()
                    + "; it should be the string `irl publish` printed, starting with `iroh-live:`"@,
                _ => false,
            },
    {
        match LiveTicket::deserialize(self.ticket.as_str()) {
            Ok(t) => Ok(t),
            Err(e) => Err(
                text::join3(
                    "invalid ticket: ",
                    e.message(),
                    "; it should be the string `irl publish` printed, starting with `iroh-live:`",
                ),
            ),
        }
    }

    /// How the broadcast is recorded, if it is.
    ///
    /// # Errors
    ///
    /// Fails if the file's extension names no container.
    pub fn record_options(&self) -> (r: Result<Option<RecordOptions>, String>)
        ensures
            match self.record {
                None => r matches Ok(None),
                Some(path) => match r {
                    Ok(None) => false,
                    Ok(Some(options)) => options.path@ == path@ && text::view_option(
                        options.rendition,
                    ) == text::view_option(self.rendition) && options.latency.nanos == time::secs(2)
                        && options.duration is None,
                    Err(e) => e@ == record::unknown_extension(path@),
                },
            },
            self.record matches Some(path) ==> record::names_a_file(path@)
                ==> match record::extension_of_name(record::file_name(path@)) {
                Some(extension) => match record::container_for(extension) {
                    Some(found) => r matches Ok(Some(options)) && options.format == found,
                    None => r is Err,
                },
                None => r is Err,
            },
    {
        match &self.record {
            None => Ok(None),
            Some(path) => match RecordOptions::new(path.as_str(), None) {
                Ok(mut options) => {
                    options.rendition = text::clone_option(&self.rendition);
                    Ok(Some(options))
                },
                Err(e) => Err(e),
            },
        }
    }
}

impl RunConfig {
    /// Whether this session accepts incoming connections: only one that
    /// publishes needs to.
    pub fn serves(&self) -> (r: bool)
        ensures
            r == (self.send@.len() > 0),
    {
        self.send.len() > 0
    }

    /// Checks that a session read from `path` describes any streams at all.
    pub fn check(&self, path: &str) -> (r: Result<(), String>)
        ensures
            match r {
                Ok(_) => self.send@.len() > 0 || self.recv@.len() > 0,
                Err(e) => self.send@.len() == 0 && self.recv@.len() == 0 && e@ == path@
                    + " has no [[send]] and no [[recv]] blocks, so there is nothing to run"@,
            },
    {
        if self.send.len() == 0 && self.recv.len() == 0 {
            return Err(
                text::join2(
                    path,
                    " has no [[send]] and no [[recv]] blocks, so there is nothing to run",
                ),
            );
        }
        Ok(())
    }

    /// The line that says what was read from `path`.
    pub fn loaded_line(&self, path: &str) -> (r: String)
        ensures
            r@ == "loaded "@ + path@ + ": "@ + text::decimal(self.send@.len()) + (" send, "@
                + text::decimal(self.recv@.len()) + " recv"@),
    {
        let rest = text::join3(
            " send, ",
            text::decimal_text(self.recv.len() as u64).as_str(),
            " recv",
        );
        text::join5(
            "loaded ",
            path,
            ": ",
            text::decimal_text(self.send.len() as u64).as_str(),
            rest.as_str(),
        )
    }
}

/// The file that a session's identity is kept in, by its name.
pub fn secret_key_file(name: &str) -> (r: String)
    ensures
        r@ == name@ + ".key"@,
{
    text::join2(name, ".key")
}

/// The identity that a session's key file holds, with the white space around it
/// left out.
///
/// # Errors
///
/// Fails if the file at `path` does not hold a secret key.
pub fn stored_secret_key(path: &str, contents: &str) -> (r: Result<[u8; 32], String>)
    ensures
        match r {
            Ok(key) => util::is_key_text(text::trimmed(contents@)) && util::spells_key(
                text::trimmed(contents@),
                key@,
            ),
            Err(e) => !util::is_key_text(text::trimmed(contents@)) && e@ == path@
                + " does not hold a secret key: "@ + util::key_fault(text::trimmed(contents@)),
        },
{
    match util::secret_key_from_text(text::trim(contents)) {
        Ok(key) => Ok(key),
        Err(e) => Err(text::join3(path, " does not hold a secret key: ", e.as_str())),
    }
}

/// A line for somebody at the terminal.
#[derive(Debug)]
pub struct Line {
    /// What it says.
    pub text: String,
    /// Whether it reports a failure.
    pub failure: bool,
}

/// A [`Line`], with its text as a sequence of characters.
pub struct LineView {
    /// What it says.
    pub text: Seq<char>,
    /// Whether it reports a failure.
    pub failure: bool,
}

impl View for Line {
    type V = LineView;

    open spec fn view(&self) -> LineView {
        LineView { text: self.text@, failure: self.failure }
    }
}

/// Lines as they are seen from outside.
pub open spec fn line_views(lines: Seq<Line>) -> Seq<LineView> {
    Seq::new(lines.len(), |i: int| lines[i]@)
}

/// The line of a `send` block, from what publishing it came to.
pub open spec fn send_line(id: Seq<u8>, send: SendConfig, result: Result<(), String>) -> LineView {
    match result {
        Ok(_) => LineView {
            text: "[send] "@ + send.name@ + ": "@ + ticket::uri(
                TicketView { id, name: send.name@ },
            ),
            failure: false,
        },
        Err(e) => LineView { text: "[send] "@ + send.name@ + ": "@ + e@, failure: true },
    }
}

/// The lines of a `recv` block, from what subscribing to it came to: the file
/// that it records to, if it does, or why it failed.
pub open spec fn recv_lines(recv: RecvConfig, result: Result<Option<String>, String>) -> Seq<
    LineView,
> {
    match result {
        Err(e) => seq![LineView { text: "[recv] "@ + recv.name@ + ": "@ + e@, failure: true }],
        Ok(recording) => {
            let subscribed = LineView {
                text: "[recv] "@ + recv.name@ + ": subscribed to "@ + recv.ticket@,
                failure: false,
            };
            match recording {
                None => seq![subscribed],
                Some(path) => seq![
                    subscribed,
                    LineView {
                        text: "[recv] "@ + recv.name@ + ": recording to "@ + path@,
                        failure: false,
                    },
                ],
            }
        },
    }
}

/// How many of the results are good.
pub open spec fn successes<T>(results: Seq<Result<T, String>>) -> nat
    decreases results.len(),
{
    if results.len() == 0 {
        0
    } else {
        successes(results.drop_last()) + if results.last() is Ok {
            1nat
        } else {
            0nat
        }
    }
}

/// No more results are good than there are.
proof fn lemma_successes<T>(results: Seq<Result<T, String>>)
    ensures
        successes(results) <= results.len(),
    decreases results.len(),
{
    if results.len() > 0 {
        lemma_successes(results.drop_last());
    }
}

/// The lines of the first blocks, in their order.
pub open spec fn all_send_lines(
    id: Seq<u8>,
    sends: Seq<SendConfig>,
    results: Seq<Result<(), String>>,
) -> Seq<LineView> {
    Seq::new(results.len(), |i: int| send_line(id, sends[i], results[i]))
}

/// The lines of the `recv` blocks, in their order.
pub open spec fn all_recv_lines(
    recvs: Seq<RecvConfig>,
    results: Seq<Result<Option<String>, String>>,
) -> Seq<LineView>
    decreases results.len(),
{
    if results.len() == 0 {
        Seq::empty()
    } else {
        let n = results.len() - 1;
        all_recv_lines(recvs, results.drop_last()) + recv_lines(recvs[n], results[n])
    }
}

fn push_line(lines: &mut Vec<Line>, text: String, failure: bool)
    ensures
        line_views(final(lines)@) == line_views(old(lines)@).push(LineView { text: text@, failure }),
{
    let ghost before = lines@;
    lines.push(Line { text, failure });
    proof {
        assert(line_views(lines@) =~= line_views(before).push(LineView { text: text@, failure }));
    }
}

/// What a session says once its `send` blocks are set up, and how many are.
pub fn report_sends(id: EndpointId, sends: &Vec<SendConfig>, results: &Vec<Result<(), String>>) -> (r:
    (Vec<Line>, usize))
    requires
        sends@.len() == results@.len(),
    ensures
        line_views(r.0@) == all_send_lines(id@, sends@, results@),
        r.1 == successes(results@),
{
    let mut lines: Vec<Line> = Vec::new();
    let mut count: usize = 0;
    let mut i: usize = 0;
    let ghost all = all_send_lines(id@, sends@, results@);
    proof {
        assert(line_views(lines@) =~= all.take(0));
    }
    while i < results.len()
        invariant
            sends@.len() == results@.len(),
            i <= results@.len(),
            all == all_send_lines(id@, sends@, results@),
            line_views(lines@) == all.take(i as int),
            count == successes(results@.take(i as int)),
            count <= i,
        decreases results@.len() - i,
    {
        proof {
            assert(results@.take(i + 1).drop_last() =~= results@.take(i as int));
            assert(all.take(i + 1) =~= all.take(i as int).push(all[i as int]));
        }
        let name = sends[i].name.as_str();
        match &results[i] {
            Ok(_) => {
                let text = transport::ticket(id, name);
                push_line(&mut lines, text::join4("[send] ", name, ": ", text.as_str()), false);
                count = count + 1;
            },
            Err(e) => {
                push_line(&mut lines, text::join4("[send] ", name, ": ", e.as_str()), true);
            },
        }
        i = i + 1;
    }
    proof {
        assert(all.take(i as int) =~= all);
        assert(results@.take(i as int) =~= results@);
    }
    (lines, count)
}

/// What a session says once its `recv` blocks are set up, and how many are.
pub fn report_recvs(recvs: &Vec<RecvConfig>, results: &Vec<Result<Option<String>, String>>) -> (r: (
    Vec<Line>,
    usize,
))
    requires
        recvs@.len() == results@.len(),
    ensures
        line_views(r.0@) == all_recv_lines(recvs@, results@),
        r.1 == successes(results@),
{
    let mut lines: Vec<Line> = Vec::new();
    let mut count: usize = 0;
    let mut i: usize = 0;
    proof {
        assert(line_views(lines@) =~= Seq::empty());
    }
    while i < results.len()
        invariant
            recvs@.len() == results@.len(),
            i <= results@.len(),
            line_views(lines@) == all_recv_lines(recvs@, results@.take(i as int)),
            count == successes(results@.take(i as int)),
            count <= i,
        decreases results@.len() - i,
    {
        let ghost before = line_views(lines@);
        proof {
            assert(results@.take(i + 1).drop_last() =~= results@.take(i as int));
            assert(results@.take(i + 1)[i as int] == results@[i as int]);
        }
        let name = recvs[i].name.as_str();
        match &results[i] {
            Ok(recording) => {
                push_line(
                    &mut lines,
                    text::join4("[recv] ", name, ": subscribed to ", recvs[i].ticket.as_str()),
                    false,
                );
                match recording {
                    Some(path) => {
                        push_line(
                            &mut lines,
                            text::join4("[recv] ", name, ": recording to ", path.as_str()),
                            false,
                        );
                    },
                    None => {},
                }
                count = count + 1;
            },
            Err(e) => {
                push_line(&mut lines, text::join4("[recv] ", name, ": ", e.as_str()), true);
            },
        }
        proof {
            assert(line_views(lines@) =~= before + recv_lines(recvs@[i as int], results@[i as int]));
        }
        i = i + 1;
    }
    proof {
        assert(results@.take(i as int) =~= results@);
    }
    (lines, count)
}

/// What a session runs with, or that nothing is left of it.
///
/// A block that fails on its own is reported and the rest of the session runs
/// without it; only when every block failed is there nothing to do.
pub fn settle(sent: usize, received: usize) -> (r: Result<String, String>)
    ensures
        match r {
            Ok(line) => (sent > 0 || received > 0) && line@ == text::decimal(sent as nat)
                + " send, "@ + text::decimal(received as nat) + " recv. press Ctrl+C to stop"@,
            Err(e) => sent == 0 && received == 0 && e@
                == "no stream could be set up, so there is nothing to do"@,
        },
{
    if sent == 0 && received == 0 {
        return Err("no stream could be set up, so there is nothing to do".to_owned());
    }
    Ok(
        text::join4(
            text::decimal_text(sent as u64).as_str(),
            " send, ",
            text::decimal_text(received as u64).as_str(),
            " recv. press Ctrl+C to stop",
        ),
    )
}

/// One block that fails takes nothing from the others: a session has nothing to
/// do only when every block failed.
pub proof fn one_good_block_keeps_a_session<T>(results: Seq<Result<T, String>>, i: int)
    requires
        0 <= i < results.len(),
        results[i] is Ok,
    ensures
        successes(results) > 0,
    decreases results.len(),
{
    if i < results.len() - 1 {
        one_good_block_keeps_a_session(results.drop_last(), i);
    }
}

/// A good block is counted once, and a block that failed is not.
pub proof fn good_blocks_are_counted<T>(results: Seq<Result<T, String>>, next: Result<T, String>)
    ensures
        successes(Seq::<Result<T, String>>::empty()) == 0,
        successes(results.push(next)) == successes(results) + (if next is Ok {
            1int
        } else {
            0int
        }),
{
    assert(results.push(next).drop_last() =~= results);
}

/// Every `send` block has one line under its name: its ticket where it publishes, and
/// otherwise why it does not, as a failure.
pub proof fn a_line_to_a_send_block(
    id: Seq<u8>,
    sends: Seq<SendConfig>,
    results: Seq<Result<(), String>>,
    i: int,
)
    requires
        sends.len() == results.len(),
        0 <= i < results.len(),
    ensures
        all_send_lines(id, sends, results).len() == results.len(),
        ({
            let line = all_send_lines(id, sends, results)[i];
            match results[i] {
                Ok(_) => !line.failure && line.text == "[send] "@ + sends[i].name@ + ": "@
                    + ticket::uri(TicketView { id, name: sends[i].name@ }),
                Err(e) => line.failure && line.text == "[send] "@ + sends[i].name@ + ": "@ + e@,
            }
        }),
{
}

/// Every `recv` block has its lines under its name and in turn: that it subscribed and,
/// where it records, to which file; or why it failed, as a failure.
pub proof fn lines_to_each_recv_block(
    recvs: Seq<RecvConfig>,
    results: Seq<Result<Option<String>, String>>,
    next: Result<Option<String>, String>,
)
    requires
        recvs.len() == results.len() + 1,
    ensures
        all_recv_lines(recvs, Seq::empty()) == Seq::<LineView>::empty(),
        ({
            let recv = recvs[results.len() as int];
            let before = all_recv_lines(recvs, results);
            let after = all_recv_lines(recvs, results.push(next));
            let own = after.skip(before.len() as int);
            &&& after.take(before.len() as int) == before
            &&& next matches Err(e) ==> own.len() == 1 && own[0].failure && own[0].text
                == "[recv] "@ + recv.name@ + ": "@ + e@
            &&& next is Ok ==> !own[0].failure && own[0].text == "[recv] "@ + recv.name@
                + ": subscribed to "@ + recv.ticket@
            &&& next matches Ok(None) ==> own.len() == 1
            &&& next matches Ok(Some(path)) ==> own.len() == 2 && !own[1].failure && own[1].text
                == "[recv] "@ + recv.name@ + ": recording to "@ + path@
        }),
{
    let before = all_recv_lines(recvs, results);
    let after = all_recv_lines(recvs, results.push(next));
    let recv = recvs[results.len() as int];
    assert(results.push(next).drop_last() =~= results);
    assert(after == before + recv_lines(recv, next));
    assert(after.take(before.len() as int) =~= before);
    assert(after.skip(before.len() as int) =~= recv_lines(recv, next));
}

/// A line is seen with its text and whether it reports a failure.
pub proof fn lines_are_seen_whole(line: Line)
    ensures
        line@.text == line.text@ && line@.failure == line.failure,
{
}

/// Lines are seen one by one, in their order.
pub proof fn every_line_is_seen(lines: Seq<Line>)
    ensures
        line_views(lines).len() == lines.len(),
        forall|i: int| 0 <= i < lines.len() ==> #[trigger] line_views(lines)[i] == lines[i]@,
{
}

} // verus!
