//! Pieces an application needs around the transport, rather than in it.
//!
//! The endpoint identity to bind with, whether to answer on the local network,
//! and the two samplers that turn a connection's path statistics into something
//! a caller can act on.

use std::collections::VecDeque;

use vstd::prelude::*;
use vstd::string::*;
use vstd::utf8::*;

use crate::encoding;
use crate::text;
use crate::time;
use crate::time::{Duration, Instant};

verus! {

/// Whether `s` spells the 32 bytes of a secret key: 64 hexadecimal digits in
/// small letters, or base32 without padding in letters of either case.
pub open spec fn spells_key(s: Seq<char>, key: Seq<u8>) -> bool {
    &&& key.len() == 32
    &&& s == encoding::hex(key) || text::ascii_uppercase(s) == encoding::base32(key)
}

/// What is wrong with a text that spells no secret key. One of 64 bytes was meant
/// as hexadecimal digits, and base32 takes 52 to spell 32 bytes.
pub open spec fn key_fault(s: Seq<char>) -> Seq<char> {
    let len = encode_utf8(s).len();
    if len == 64 {
        "failed to decode hex string"@
    } else if len != 52 {
        "invalid length"@
    } else {
        "failed to decode base32 string"@
    }
}

/// Reads a secret key with `iroh::SecretKey`'s `FromStr`, and writes its error
/// with `Display`.
///
/// A text of 64 bytes is read as small hexadecimal digits and any other as
/// base32, which has to come to 32 bytes exactly; the error says which of these
/// went wrong. The length bound is that of the base32 decoder, above which it
/// panics.
#[verifier::external_body]
fn parse_secret_key(s: &str) -> (r: Result<[u8; 32], String>)
    requires
        s.spec_bytes().len() <= encoding::decodable_len(),
    ensures
        match r {
            Ok(key) => spells_key(s@, key@),
            Err(e) => (forall|key: Seq<u8>| !#[trigger] spells_key(s@, key)) && e@ == key_fault(s@),
        },
{
    s.parse::<iroh::SecretKey>().map(|key| key.to_bytes()).map_err(|e| e.to_string())
}

/// Writes bytes with `data_encoding::HEXLOWER.encode`: two small hexadecimal
/// digits to a byte. The length bound is the crate's own.
#[verifier::external_body]
fn encode_hex(bytes: &[u8]) -> (r: String)
    requires
        bytes@.len() <= usize::MAX / 512,
    ensures
        r@ == encoding::hex(bytes@),
{
    data_encoding::HEXLOWER.encode(bytes)
}

/// Which identity an endpoint starts with.
#[derive(Debug, Clone, Copy, PartialEq, Eq)]
pub enum SecretKeyChoice {
    /// The one that was asked for.
    Given([u8; 32]),
    /// A new one, because none was asked for.
    Generate,
}

/// Whether `s` spells a secret key at all. A text longer than the decoders take
/// does not.
pub open spec fn is_key_text(s: Seq<char>) -> bool {
    encode_utf8(s).len() <= encoding::decodable_len() && exists|key: Seq<u8>|
        #[trigger] spells_key(s, key)
}

/// The secret key that a text spells.
///
/// # Errors
///
/// Says what is wrong with a text that spells none.
pub fn secret_key_from_text(value: &str) -> (r: Result<[u8; 32], String>)
    ensures
        match r {
            Ok(key) => is_key_text(value@) && spells_key(value@, key@),
            Err(e) => !is_key_text(value@) && e@ == key_fault(value@),
        },
        r matches Ok(key) ==> value@ == encoding::hex(key@) || text::ascii_uppercase(value@)
            == encoding::base32(key@),
        r matches Err(e) ==> e@ == (if encode_utf8(value@).len() == 64 {
            "failed to decode hex string"@
        } else if encode_utf8(value@).len() == 52 {
            "failed to decode base32 string"@
        } else {
            "invalid length"@
        }),
{
    if value.as_bytes().len() > usize::MAX / 8 {
        return Err("invalid length".to_owned());
    }
    parse_secret_key(value)
}

/// The identity that the environment asks for, from the value of `IROH_SECRET`.
///
/// An endpoint's identity is its secret key, so a node that generates a fresh
/// one on every start is a different node to its peers every time.
///
/// # Errors
///
/// Fails if the value is set to something that is not a secret key.
pub fn secret_key_from_env(value: Option<&str>) -> (r: Result<SecretKeyChoice, String>)
    ensures
        match value {
            None => r matches Ok(choice) && choice is Generate,
            Some(value) => match r {
                Ok(choice) => is_key_text(value@) && (choice matches SecretKeyChoice::Given(key)
                    && spells_key(value@, key@)),
                Err(e) => !is_key_text(value@) && e@ == key_fault(value@),
            },
        },
{
    match value {
        None => Ok(SecretKeyChoice::Generate),
        Some(value) => match secret_key_from_text(value) {
            Ok(key) => Ok(SecretKeyChoice::Given(key)),
            Err(e) => Err(e),
        },
    }
}

/// How a secret key is written for somebody to keep.
pub fn secret_key_text(key: &[u8; 32]) -> (r: String)
    ensures
        r@ == encoding::hex(key@),
{
    encode_hex(key)
}

/// A secret key that was written out is the one that is read back.
pub proof fn secret_keys_read_back(key: Seq<u8>, other: Seq<u8>)
    requires
        key.len() == 32,
    ensures
        spells_key(encoding::hex(key), key),
        spells_key(encoding::hex(key), other) ==> other == key,
{
    if spells_key(encoding::hex(key), other) {
        encoding::lemma_base32_alphabet(other);
        assert(encoding::hex(key).len() == 64);
        assert(text::ascii_uppercase(encoding::hex(key)).len() == 64);
        encoding::hex_injective(key, other);
    }
}

/// Whether an endpoint answers for itself on the local network, or only looks
/// others up.
///
/// A node that accepts no sessions has no business announcing itself: it would
/// advertise an endpoint that refuses every connection.
#[derive(Debug, Clone, Copy, PartialEq, Eq, Structural)]
pub enum LanPresence {
    /// Announce this endpoint and answer queries for it.
    Announce,
    /// Resolve other endpoints without publishing anything about this one.
    LookupOnly,
}

impl LanPresence {
    /// Returns the presence an endpoint that accepts sessions when `serve`
    /// holds should take on the local network.
    pub fn serving(serve: bool) -> (r: LanPresence)
        ensures
            r == (if serve {
                LanPresence::Announce
            } else {
                LanPresence::LookupOnly
            }),
    {
        if serve {
            LanPresence::Announce
        } else {
            LanPresence::LookupOnly
        }
    }

    /// Whether this endpoint answers for itself.
    pub fn announces(self) -> (r: bool)
        ensures
            r == (self == LanPresence::Announce),
    {
        matches!(self, LanPresence::Announce)
    }
}

/// The span the downlink goodput is taken across, in nanoseconds: one second.
pub const GOODPUT_WINDOW: u128 = 1_000_000_000;

/// The rate below which what arrives is taken for control traffic rather than
/// media.
pub const GOODPUT_FLOOR_BPS: u64 = 16_000;

/// The span the loss rate is measured across, in nanoseconds: two seconds.
pub const LOSS_WINDOW: u128 = 2_000_000_000;

/// The fewest packets that a loss rate is measured over.
pub const LOSS_MIN_PACKETS: u64 = 20;

/// The span the round trip minimum is taken across, in nanoseconds: fifteen
/// seconds.
pub const MIN_RTT_WINDOW: u128 = 15_000_000_000;

/// How often a path is read, in nanoseconds: five times a second.
pub const SIGNAL_INTERVAL: u128 = 200_000_000;

/// A minimum over a sliding span, kept as two tumbling halves.
///
/// Holds the minimum of everything recorded in the current half and of
/// everything in the half before it, retiring the older one wholesale when the
/// span elapses.
#[derive(Debug, Clone, Copy, PartialEq, Eq, Structural)]
pub struct WindowedMin {
    /// How long a half lasts.
    pub span: Duration,
    /// The minimum of the current half.
    pub current: Duration,
    /// The minimum of the half before it.
    pub previous: Option<Duration>,
    /// When the current half started.
    pub since: Instant,
}

/// The smaller of two spans.
pub open spec fn shorter(a: Duration, b: Duration) -> Duration {
    if b.nanos < a.nanos {
        b
    } else {
        a
    }
}

impl WindowedMin {
    /// A minimum over `span` that starts at `first`.
    pub open spec fn started(span: Duration, first: Duration, now: Instant) -> WindowedMin {
        WindowedMin { span, current: first, previous: None, since: now }
    }

    /// The minimum after `sample` was recorded at `now`.
    pub open spec fn recorded(self, sample: Duration, now: Instant) -> WindowedMin {
        if time::since(now, self.since) >= self.span.nanos {
            WindowedMin {
                span: self.span,
                current: sample,
                previous: Some(self.current),
                since: now,
            }
        } else {
            WindowedMin { current: shorter(self.current, sample), ..self }
        }
    }

    /// The minimum over both halves.
    pub open spec fn minimum(self) -> Duration {
        match self.previous {
            Some(previous) => shorter(self.current, previous),
            None => self.current,
        }
    }

    /// Starts a minimum over `span` at `first`.
    pub fn new(span: Duration, first: Duration, now: Instant) -> (r: WindowedMin)
        ensures
            r == WindowedMin::started(span, first, now),
            r.span == span && r.current == first && r.previous is None && r.since == now,
    {
        WindowedMin { span, current: first, previous: None, since: now }
    }

    /// Records `sample` and returns the minimum over the span.
    pub fn record(&mut self, sample: Duration, now: Instant) -> (r: Duration)
        ensures
            *final(self) == old(self).recorded(sample, now),
            r == final(self).minimum(),
            final(self).span == old(self).span,
            now.nanos >= old(self).since.nanos + old(self).span.nanos ==> final(self).current
                == sample && final(self).previous == Some(old(self).current) && final(self).since
                == now,
            old(self).span.nanos > 0 && now.nanos < old(self).since.nanos + old(self).span.nanos
                ==> final(self).previous == old(self).previous && final(self).since == old(
                self,
            ).since && final(self).current == (if sample.nanos < old(self).current.nanos {
                sample
            } else {
                old(self).current
            }),
            r.nanos <= final(self).current.nanos,
            final(self).previous is None ==> r == final(self).current,
            final(self).previous matches Some(previous) ==> r.nanos <= previous.nanos && (r
                == final(self).current || r == previous),
    {
        if now.duration_since(self.since).nanos >= self.span.nanos {
            self.previous = Some(self.current);
            self.current = sample;
            self.since = now;
        } else if sample.nanos < self.current.nanos {
            self.current = sample;
        }
        match self.previous {
            Some(previous) => if previous.nanos < self.current.nanos {
                previous
            } else {
                self.current
            },
            None => self.current,
        }
    }
}

/// What was recorded, and when.
pub struct Recorded {
    /// The sample.
    pub sample: Duration,
    /// When it was recorded.
    pub at: Instant,
}

/// A minimum that was started with the first of `samples` and recorded the
/// rest.
pub open spec fn replay(span: Duration, samples: Seq<Recorded>) -> WindowedMin
    decreases samples.len(),
{
    if samples.len() <= 1 {
        WindowedMin::started(span, samples[0].sample, samples[0].at)
    } else {
        replay(span, samples.drop_last()).recorded(samples.last().sample, samples.last().at)
    }
}

/// Which of `samples` starts the current half.
spec fn half_start(span: Duration, samples: Seq<Recorded>) -> int
    decreases samples.len(),
{
    if samples.len() <= 1 {
        0
    } else {
        let start = half_start(span, samples.drop_last());
        if time::since(samples.last().at, samples[start].at) >= span.nanos {
            samples.len() - 1
        } else {
            start
        }
    }
}

/// Which of `samples` starts the half before the current one.
spec fn previous_start(span: Duration, samples: Seq<Recorded>) -> int
    decreases samples.len(),
{
    if samples.len() <= 1 {
        0
    } else {
        let start = half_start(span, samples.drop_last());
        if time::since(samples.last().at, samples[start].at) >= span.nanos {
            start
        } else {
            previous_start(span, samples.drop_last())
        }
    }
}

/// Whether the samples were recorded in order of time.
pub open spec fn in_order(samples: Seq<Recorded>) -> bool {
    forall|i: int, j: int|
        0 <= i <= j < samples.len() ==> #[trigger] samples[i].at.nanos
            <= #[trigger] samples[j].at.nanos
}

/// What the halves of a minimum hold.
proof fn lemma_halves(span: Duration, samples: Seq<Recorded>)
    requires
        samples.len() > 0,
        in_order(samples),
        span.nanos > 0,
    ensures
        ({
            let c = half_start(span, samples);
            let p = previous_start(span, samples);
            let m = replay(span, samples);
            let n = samples.len();
            &&& 0 <= p <= c < n
            &&& m.span == span
            &&& m.since == samples[c].at
            &&& c > 0 <==> m.previous is Some
            &&& p < c ==> samples[p].at.nanos + span.nanos <= samples[c].at.nanos
            &&& p < c ==> samples[c - 1].at.nanos < samples[p].at.nanos + span.nanos
            &&& p == c ==> c == 0
            &&& p > 0 ==> samples[p - 1].at.nanos < samples[p].at.nanos
            &&& samples[n - 1].at.nanos < samples[c].at.nanos + span.nanos
            &&& forall|i: int| c <= i < n ==> m.current.nanos <= #[trigger] samples[i].sample.nanos
            &&& exists|i: int| c <= i < n && m.current == #[trigger] samples[i].sample
            &&& m.previous matches Some(previous) ==> {
                &&& forall|i: int|
                    p <= i < c ==> previous.nanos <= #[trigger] samples[i].sample.nanos
                &&& exists|i: int| p <= i < c && previous == #[trigger] samples[i].sample
            }
        }),
    decreases samples.len(),
{
    let n = samples.len();
    if n == 1 {
        assert(replay(span, samples).current == samples[0].sample);
    } else {
        let front = samples.drop_last();
        assert(in_order(front)) by {
            assert forall|i: int, j: int| 0 <= i <= j < front.len() implies
                #[trigger] front[i].at.nanos <= #[trigger] front[j].at.nanos by {
                assert(front[i] == samples[i] && front[j] == samples[j]);
            }
        }
        lemma_halves(span, front);
        let c = half_start(span, front);
        let p = previous_start(span, front);
        let m = replay(span, front);
        let last = samples.last();
        assert(samples[n - 1] == last);
        assert(samples[c] == front[c]);
        assert(samples[c].at.nanos <= samples[n - 1].at.nanos);
        let k = choose|i: int| c <= i < front.len() && m.current == #[trigger] front[i].sample;
        assert(samples[k].sample == m.current);
        if time::since(last.at, samples[c].at) >= span.nanos {
            assert(samples[n - 1].sample == last.sample);
            assert forall|i: int| c <= i < n - 1 implies m.current.nanos
                <= #[trigger] samples[i].sample.nanos by {
                assert(front[i] == samples[i]);
            }
            assert(samples[n - 2] == front[n - 2]);
            if c > 0 {
                assert(samples[c - 1] == front[c - 1] && samples[p] == front[p]);
            }
        } else {
            let now = m.recorded(last.sample, last.at);
            assert forall|i: int| c <= i < n implies now.current.nanos
                <= #[trigger] samples[i].sample.nanos by {
                if i < n - 1 {
                    assert(front[i] == samples[i]);
                }
            }
            assert(samples[n - 1].sample == last.sample);
            assert(samples[p] == front[p]);
            if p < c {
                assert(samples[c - 1] == front[c - 1]);
            }
            if p > 0 {
                assert(samples[p - 1] == front[p - 1]);
            }
            if m.previous is Some {
                let previous = m.previous->0;
                let j = choose|i: int| p <= i < c && previous == #[trigger] front[i].sample;
                assert(samples[j].sample == previous);
                assert forall|i: int| p <= i < c implies previous.nanos
                    <= #[trigger] samples[i].sample.nanos by {
                    assert(front[i] == samples[i]);
                }
            }
        }
    }
}

/// A minimum never forgets too soon: it is no larger than any sample that was
/// recorded a span ago or less.
pub proof fn minimum_covers_a_span(span: Duration, samples: Seq<Recorded>, i: int)
    requires
        0 <= i < samples.len(),
        in_order(samples),
        span.nanos > 0,
        time::since(samples.last().at, samples[i].at) <= span.nanos,
    ensures
        replay(span, samples).minimum().nanos <= samples[i].sample.nanos,
{
    lemma_halves(span, samples);
    let c = half_start(span, samples);
    let p = previous_start(span, samples);
    let n = samples.len();
    assert(samples[i].at.nanos <= samples[n - 1].at.nanos);
    if i < p {
        assert(samples[i].at.nanos <= samples[p - 1].at.nanos);
        assert(samples[c].at.nanos <= samples[n - 1].at.nanos);
    }
    assert(c <= i || p <= i < c);
}

/// What either half of a minimum holds was recorded.
proof fn lemma_recorded(span: Duration, samples: Seq<Recorded>)
    requires
        samples.len() > 0,
    ensures
        ({
            let m = replay(span, samples);
            &&& exists|i: int| 0 <= i < samples.len() && #[trigger] samples[i].sample == m.current
            &&& m.previous matches Some(previous) ==> exists|i: int|
                0 <= i < samples.len() && #[trigger] samples[i].sample == previous
        }),
    decreases samples.len(),
{
    let n = samples.len();
    if n == 1 {
        assert(replay(span, samples).current == samples[0].sample);
    } else {
        let front = samples.drop_last();
        lemma_recorded(span, front);
        let m = replay(span, front);
        let k = choose|i: int| 0 <= i < front.len() && #[trigger] front[i].sample == m.current;
        assert(samples[k].sample == m.current);
        assert(samples[n - 1] == samples.last());
        if m.previous is Some {
            let previous = m.previous->0;
            let j = choose|i: int| 0 <= i < front.len() && #[trigger] front[i].sample == previous;
            assert(samples[j].sample == previous);
        }
    }
}

/// A minimum makes nothing up: what it reports was recorded.
pub proof fn minimum_was_recorded(span: Duration, samples: Seq<Recorded>)
    requires
        samples.len() > 0,
    ensures
        exists|i: int|
            0 <= i < samples.len() && #[trigger] samples[i].sample == replay(
                span,
                samples,
            ).minimum(),
{
    lemma_recorded(span, samples);
}

/// A minimum forgets in time: where no two records are more than `gap` apart,
/// the one it reports was recorded less than two spans and a gap ago.
pub proof fn minimum_forgets_within_two_spans(span: Duration, samples: Seq<Recorded>, gap: int)
    requires
        samples.len() > 0,
        in_order(samples),
        span.nanos > 0,
        forall|i: int|
            0 < i < samples.len() ==> #[trigger] samples[i].at.nanos - samples[i - 1].at.nanos
                <= gap,
        gap >= 0,
    ensures
        exists|i: int|
            0 <= i < samples.len() && #[trigger] samples[i].sample == replay(
                span,
                samples,
            ).minimum() && samples.last().at.nanos - samples[i].at.nanos < 2 * span.nanos + gap,
{
    lemma_halves(span, samples);
    let c = half_start(span, samples);
    let p = previous_start(span, samples);
    let m = replay(span, samples);
    let n = samples.len();
    let k = choose|i: int| c <= i < n && m.current == #[trigger] samples[i].sample;
    assert(samples[c].at.nanos <= samples[k].at.nanos);
    if m.previous is Some && m.minimum() != m.current {
        let previous = m.previous->0;
        let j = choose|i: int| p <= i < c && previous == #[trigger] samples[i].sample;
        assert(samples[p].at.nanos <= samples[j].at.nanos);
        assert(samples[c].at.nanos - samples[c - 1].at.nanos <= gap);
        assert(samples[j].sample == m.minimum());
    } else {
        assert(samples[k].sample == m.minimum());
    }
}

/// A dip is taken at once: a sample lower than anything seen is the minimum.
pub proof fn minimum_takes_a_dip_at_once(m: WindowedMin, sample: Duration, now: Instant)
    ensures
        m.recorded(sample, now).minimum().nanos <= sample.nanos,
        sample.nanos <= m.minimum().nanos ==> m.recorded(sample, now).minimum().nanos
            == sample.nanos,
{
}

/// What a path's own counters say at one moment.
#[derive(Debug, Clone, Copy, PartialEq, Eq, Structural)]
pub struct PathStats {
    /// The transport's round trip estimate.
    pub rtt: Duration,
    /// Packets declared lost since the path opened.
    pub lost_packets: u64,
    /// Datagrams sent since the path opened.
    pub sent_datagrams: u64,
    /// Bytes sent since the path opened.
    pub sent_bytes: u64,
    /// Bytes received since the path opened.
    pub received_bytes: u64,
    /// Congestion events since the path opened.
    pub congestion_events: u64,
}

/// The cumulative counters one reading of the path carries, at the instant they
/// were read.
#[derive(Debug, Clone, Copy, PartialEq, Eq, Structural)]
pub struct Counters {
    /// When the reading was taken.
    pub at: Instant,
    /// Bytes received.
    pub received_bytes: u64,
    /// Datagrams sent.
    pub sent_packets: u64,
    /// Packets lost.
    pub lost_packets: u64,
}

/// How many packets went missing out of how many that were sent or lost.
///
/// The loss rate is the quotient of the two.
#[derive(Debug, Clone, Copy, PartialEq, Eq, Structural)]
pub struct LossCount {
    /// Packets lost.
    pub lost: u64,
    /// Packets sent and packets lost, together.
    pub total: u128,
}

/// How many bytes arrived over how long.
///
/// The goodput is eight times the quotient of the two; [`media_rate`] says
/// whether a rate is one that media could have.
#[derive(Debug, Clone, Copy, PartialEq, Eq, Structural)]
pub struct Transfer {
    /// Bytes received.
    pub bytes: u64,
    /// The span they arrived across.
    pub span: Duration,
}

/// What one reading of a path says about the link.
#[derive(Debug, Clone, Copy, PartialEq, Eq, Structural)]
pub struct NetworkSignals {
    /// The round trip as it was read.
    pub rtt: Duration,
    /// How many distinct round trips have been read.
    pub rtt_samples: u64,
    /// The path's round trip with nothing queued in front of it.
    pub min_rtt: Duration,
    /// The loss across the loss window, or `None` while it is unmeasured, which
    /// a consumer reads as a rate of zero.
    pub loss: Option<LossCount>,
    /// What arrived across the goodput window, or `None` until the readings
    /// span it.
    pub goodput: Option<Transfer>,
    /// The publisher's own estimate of the path, in bits per second.
    pub delivery_bps: Option<u64>,
    /// Congestion events since the path opened.
    pub congestion_events: u64,
}

/// The path a round trip minimum was measured on, and the minimum itself. The
/// two travel together because neither survives the other.
#[derive(Debug, Clone, Copy, PartialEq, Eq, Structural)]
pub struct PathBaseline {
    /// The path.
    pub path: u32,
    /// The minimum.
    pub min_rtt: WindowedMin,
}

/// What a [`Sampler`] remembers.
pub struct SamplerView {
    /// The round trip minimum and the path it was taken on.
    pub baseline: Option<PathBaseline>,
    /// The last round trip read.
    pub prev_rtt: Option<Duration>,
    /// How many distinct round trips have been read.
    pub rtt_samples: u64,
    /// The counter readings, oldest first.
    pub history: Seq<Counters>,
}

/// Turns readings of a path's statistics into [`NetworkSignals`].
///
/// Everything a signal needs that one reading cannot give lives here.
#[derive(Debug)]
pub struct Sampler {
    baseline: Option<PathBaseline>,
    prev_rtt: Option<Duration>,
    rtt_samples: u64,
    history: VecDeque<Counters>,
}

impl View for Sampler {
    type V = SamplerView;

    closed spec fn view(&self) -> SamplerView {
        SamplerView {
            baseline: self.baseline,
            prev_rtt: self.prev_rtt,
            rtt_samples: self.rtt_samples,
            history: self.history@,
        }
    }
}

/// The counters of a reading.
pub open spec fn counters_of(stats: PathStats, now: Instant) -> Counters {
    Counters {
        at: now,
        received_bytes: stats.received_bytes,
        sent_packets: stats.sent_datagrams,
        lost_packets: stats.lost_packets,
    }
}

impl Counters {
    /// The counters of a reading taken at `now`.
    pub fn read(stats: &PathStats, now: Instant) -> (r: Counters)
        ensures
            r == counters_of(*stats, now),
            r.at == now,
            r.received_bytes == stats.received_bytes,
            r.sent_packets == stats.sent_datagrams,
            r.lost_packets == stats.lost_packets,
    {
        Counters {
            at: now,
            received_bytes: stats.received_bytes,
            sent_packets: stats.sent_datagrams,
            lost_packets: stats.lost_packets,
        }
    }
}

/// The baseline after a round trip was read on `path`: the minimum goes on
/// where the path is the same, and starts over where it is another.
pub open spec fn next_baseline(
    baseline: Option<PathBaseline>,
    path: u32,
    rtt: Duration,
    now: Instant,
) -> PathBaseline {
    match baseline {
        Some(known) if known.path == path => PathBaseline {
            path,
            min_rtt: known.min_rtt.recorded(rtt, now),
        },
        _ => PathBaseline {
            path,
            min_rtt: WindowedMin::started(Duration { nanos: MIN_RTT_WINDOW }, rtt, now),
        },
    }
}

/// A history without the readings that no rate will need again: it keeps the
/// newest one from before the longest window opens, so that a difference spans
/// the whole window.
pub open spec fn kept(history: Seq<Counters>, now: Instant) -> Seq<Counters>
    decreases history.len(),
{
    if history.len() > 2 && time::since(now, history[1].at) >= LOSS_WINDOW {
        kept(history.drop_first(), now)
    } else {
        history
    }
}

/// The newest reading that was taken at least `span` before `at`.
pub open spec fn newest_before(history: Seq<Counters>, at: Instant, span: int) -> Option<Counters>
    decreases history.len(),
{
    if history.len() == 0 {
        None
    } else if time::since(at, history.last().at) >= span {
        Some(history.last())
    } else {
        newest_before(history.drop_last(), at, span)
    }
}

/// How far a counter has moved, or nothing if it went backwards.
pub open spec fn moved(now: u64, then: u64) -> int {
    if now >= then {
        now - then
    } else {
        0
    }
}

/// The loss across the loss window, if the history spans it and it holds enough
/// packets.
pub open spec fn loss_across(history: Seq<Counters>, latest: Counters) -> Option<LossCount> {
    match newest_before(history, latest.at, LOSS_WINDOW as int) {
        None => None,
        Some(oldest) => {
            let lost = moved(latest.lost_packets, oldest.lost_packets);
            let total = lost + moved(latest.sent_packets, oldest.sent_packets);
            if total < LOSS_MIN_PACKETS {
                None
            } else {
                Some(LossCount { lost: lost as u64, total: total as u128 })
            }
        },
    }
}

/// What arrived across the goodput window, if the history spans it.
pub open spec fn goodput_across(history: Seq<Counters>, latest: Counters) -> Option<Transfer> {
    match newest_before(history, latest.at, GOODPUT_WINDOW as int) {
        None => None,
        Some(oldest) => Some(
            Transfer {
                bytes: moved(latest.received_bytes, oldest.received_bytes) as u64,
                span: Duration { nanos: time::since(latest.at, oldest.at) as u128 },
            },
        ),
    }
}

/// A rate of arrival as a goodput: nothing at or below the floor, where what
/// arrives could not be media.
pub fn media_rate(bps: u64) -> (r: Option<u64>)
    ensures
        r == (if bps > GOODPUT_FLOOR_BPS {
            Some(bps)
        } else {
            None
        }),
        bps > 16_000 ==> r == Some(bps),
        bps <= 16_000 ==> r is None,
{
    if bps > GOODPUT_FLOOR_BPS {
        Some(bps)
    } else {
        None
    }
}

fn saturating_sub(a: u64, b: u64) -> (r: u64)
    ensures
        r == moved(a, b),
{
    if a >= b {
        a - b
    } else {
        0
    }
}

/// Everything that [`kept`] keeps is the end of the history.
proof fn lemma_kept(history: Seq<Counters>, now: Instant)
    ensures
        kept(history, now).len() <= history.len(),
        history.len() > 0 ==> kept(history, now).len() > 0 && kept(history, now).last()
            == history.last(),
        kept(history, now).len() > 2 ==> time::since(now, kept(history, now)[1].at) < LOSS_WINDOW,
    decreases history.len(),
{
    if history.len() > 2 && time::since(now, history[1].at) >= LOSS_WINDOW {
        lemma_kept(history.drop_first(), now);
    }
}

/// A reading that is not the newest of those in question can be dropped.
proof fn lemma_newest_before_drop(history: Seq<Counters>, at: Instant, span: int)
    requires
        history.len() >= 2,
        time::since(at, history[1].at) >= span,
    ensures
        newest_before(history.drop_first(), at, span) == newest_before(history, at, span),
    decreases history.len(),
{
    if time::since(at, history.last().at) >= span {
    } else {
        assert(history.len() > 2);
        let front = history.drop_last();
        assert(front[1] == history[1]);
        lemma_newest_before_drop(front, at, span);
        assert(front.drop_first() =~= history.drop_first().drop_last());
    }
}

/// What a sampler has kept after a run of readings.
pub open spec fn retained(readings: Seq<Counters>) -> Seq<Counters>
    decreases readings.len(),
{
    if readings.len() == 0 {
        Seq::empty()
    } else {
        kept(retained(readings.drop_last()).push(readings.last()), readings.last().at)
    }
}

/// Whether readings are in the order in which they were taken.
pub open spec fn taken_in_order(readings: Seq<Counters>) -> bool {
    forall|i: int, j: int|
        0 <= i <= j < readings.len() ==> (#[trigger] readings[i]).at.nanos <= (
        #[trigger] readings[j]).at.nanos
}

/// What [`kept`] drops at `now` is not asked for then or later.
proof fn lemma_kept_is_enough(history: Seq<Counters>, now: Instant, at: Instant, span: int)
    requires
        now.nanos <= at.nanos,
        span <= LOSS_WINDOW,
    ensures
        newest_before(kept(history, now), at, span) == newest_before(history, at, span),
    decreases history.len(),
{
    if history.len() > 2 && time::since(now, history[1].at) >= LOSS_WINDOW {
        lemma_kept_is_enough(history.drop_first(), now, at, span);
        lemma_newest_before_drop(history, at, span);
    }
}

/// What a run of readings has left holds the newest reading of any span up to the
/// loss window.
proof fn lemma_retained(readings: Seq<Counters>, at: Instant, span: int)
    requires
        taken_in_order(readings),
        readings.len() > 0 ==> readings.last().at.nanos <= at.nanos,
        span <= LOSS_WINDOW,
    ensures
        newest_before(retained(readings), at, span) == newest_before(readings, at, span),
    decreases readings.len(),
{
    if readings.len() > 0 {
        let front = readings.drop_last();
        let last = readings.last();
        lemma_retained(front, at, span);
        let pushed = retained(front).push(last);
        assert(pushed.drop_last() =~= retained(front));
        lemma_kept_is_enough(pushed, last.at, at, span);
    }
}

/// Dropping old readings never changes a rate, however long the run: after each
/// reading, the newest one at least a window old is the same among those that are
/// kept as among all that were taken, and so both rates are the same over either.
pub proof fn dropped_readings_are_not_missed(readings: Seq<Counters>, span: int)
    requires
        readings.len() > 0,
        taken_in_order(readings),
        span <= LOSS_WINDOW,
    ensures
        newest_before(retained(readings), readings.last().at, span) == newest_before(
            readings,
            readings.last().at,
            span,
        ),
        loss_across(retained(readings), readings.last()) == loss_across(readings, readings.last()),
        goodput_across(retained(readings), readings.last()) == goodput_across(
            readings,
            readings.last(),
        ),
{
    let at = readings.last().at;
    lemma_retained(readings, at, span);
    lemma_retained(readings, at, LOSS_WINDOW as int);
    lemma_retained(readings, at, GOODPUT_WINDOW as int);
}

/// One reading more leaves what [`Sampler::sample`] keeps of it and of what the
/// run before it had left.
pub proof fn a_reading_extends_the_run(readings: Seq<Counters>, latest: Counters)
    ensures
        retained(readings.push(latest)) == kept(retained(readings).push(latest), latest.at),
{
    assert(readings.push(latest).drop_last() =~= readings);
}

/// What is kept beyond the one reading before the window lies within it.
pub proof fn history_stays_within_the_window(history: Seq<Counters>, now: Instant)
    ensures
        kept(history, now).len() > 2 ==> time::since(now, kept(history, now)[1].at) < LOSS_WINDOW,
{
    lemma_kept(history, now);
}

/// A path change starts the round trip minimum over: nothing that was measured
/// on another path is left in it.
pub proof fn baseline_starts_over_on_a_new_path(
    known: PathBaseline,
    path: u32,
    rtt: Duration,
    now: Instant,
)
    requires
        known.path != path,
    ensures
        next_baseline(Some(known), path, rtt, now).min_rtt.minimum() == rtt,
        next_baseline(Some(known), path, rtt, now) == next_baseline(None, path, rtt, now),
{
}

impl Default for Sampler {
    fn default() -> (r: Sampler)
        ensures
            r@.baseline is None,
            r@.prev_rtt is None,
            r@.rtt_samples == 0,
            r@.history.len() == 0,
    {
        Sampler { baseline: None, prev_rtt: None, rtt_samples: 0, history: VecDeque::new() }
    }
}

impl Sampler {
    /// Folds a reading of `stats`, taken on `path` at `now`, into the signals,
    /// with `delivery_bps` as the publisher's estimate current at the time.
    ///
    /// The count of round trips and the number of readings kept have to fit
    /// their integers.
    pub fn sample(
        &mut self,
        path: u32,
        stats: &PathStats,
        delivery_bps: Option<u64>,
        now: Instant,
    ) -> (r: NetworkSignals)
        requires
            old(self)@.rtt_samples < u64::MAX,
            old(self)@.history.len() < usize::MAX,
        ensures
            ({
                let latest = counters_of(*stats, now);
                let baseline = next_baseline(old(self)@.baseline, path, stats.rtt, now);
                let history = kept(old(self)@.history.push(latest), now);
                &&& final(self)@.baseline == Some(baseline)
                &&& final(self)@.prev_rtt == Some(stats.rtt)
                &&& final(self)@.rtt_samples == old(self)@.rtt_samples + (
                if old(self)@.prev_rtt == Some(stats.rtt) {
                    0int
                } else {
                    1int
                })
                &&& final(self)@.history == history
                &&& r.rtt == stats.rtt
                &&& r.rtt_samples == final(self)@.rtt_samples
                &&& r.min_rtt == baseline.min_rtt.minimum()
                &&& r.loss == loss_across(history, latest)
                &&& r.goodput == goodput_across(history, latest)
                &&& r.goodput matches Some(transfer) ==> transfer.span.nanos >= GOODPUT_WINDOW
                &&& r.delivery_bps == delivery_bps
                &&& r.congestion_events == stats.congestion_events
            }),
    {
        let rtt = stats.rtt;
        let min_rtt = match self.baseline {
            Some(known) if known.path == path => {
                let mut min_rtt = known.min_rtt;
                let minimum = min_rtt.record(rtt, now);
                self.baseline = Some(PathBaseline { path, min_rtt });
                minimum
            },
            _ => {
                self.baseline = Some(
                    PathBaseline {
                        path,
                        min_rtt: WindowedMin::new(Duration { nanos: MIN_RTT_WINDOW }, rtt, now),
                    },
                );
                rtt
            },
        };
        let repeated = match self.prev_rtt {
            Some(prev) => prev.nanos == rtt.nanos,
            None => false,
        };
        if !repeated {
            self.prev_rtt = Some(rtt);
            self.rtt_samples = self.rtt_samples + 1;
        }
        let latest = Counters::read(stats, now);
        self.history.push_back(latest);
        let ghost pushed = old(self)@.history.push(latest);
        let ghost samples = self.rtt_samples;
        let ghost baseline = self.baseline;
        while self.history.len() > 2 && now.duration_since(self.history[1].at).nanos >= LOSS_WINDOW
            invariant
                kept(self.history@, now) == kept(pushed, now),
                self.rtt_samples == samples,
                self.baseline == baseline,
                self.prev_rtt == Some(rtt),
            decreases self.history@.len(),
        {
            let ghost before = self.history@;
            self.history.pop_front();
            assert(self.history@ =~= before.drop_first());
        }
        NetworkSignals {
            rtt,
            rtt_samples: self.rtt_samples,
            min_rtt,
            loss: self.loss_rate(&latest),
            goodput: self.goodput(&latest),
            delivery_bps,
            congestion_events: stats.congestion_events,
        }
    }

    /// Returns the newest reading taken at least `span` before `latest`, or
    /// `None` while the history is not that long yet.
    fn reading_before(&self, latest: &Counters, span: u128) -> (r: Option<Counters>)
        ensures
            r == newest_before(self.history@, latest.at, span as int),
            r matches Some(oldest) ==> time::since(latest.at, oldest.at) >= span,
    {
        let mut i: usize = self.history.len();
        proof {
            assert(self.history@.take(i as int) =~= self.history@);
        }
        while i > 0
            invariant
                i <= self.history@.len(),
                newest_before(self.history@, latest.at, span as int) == newest_before(
                    self.history@.take(i as int),
                    latest.at,
                    span as int,
                ),
            decreases i,
        {
            let counters = self.history[i - 1];
            proof {
                assert(self.history@.take(i as int).last() == counters);
                assert(self.history@.take(i as int).drop_last() =~= self.history@.take(i - 1));
            }
            if latest.at.duration_since(counters.at).nanos >= span {
                return Some(counters);
            }
            i = i - 1;
        }
        None
    }

    /// Returns what arrived across the goodput window, or `None` until the
    /// history spans it.
    ///
    /// From received bytes: they are the one thing a receiver can measure about
    /// the direction it cares about.
    fn goodput(&self, latest: &Counters) -> (r: Option<Transfer>)
        ensures
            r == goodput_across(self.history@, *latest),
            r matches Some(transfer) ==> transfer.span.nanos >= GOODPUT_WINDOW,
    {
        match self.reading_before(latest, GOODPUT_WINDOW) {
            None => None,
            Some(oldest) => Some(
                Transfer {
                    bytes: saturating_sub(latest.received_bytes, oldest.received_bytes),
                    span: latest.at.duration_since(oldest.at),
                },
            ),
        }
    }

    /// Returns the loss across the loss window, or `None` while the history
    /// does not span it or holds too few packets.
    ///
    /// This counts what this endpoint sent and failed to get acknowledged, so
    /// on a subscriber it is loss among acknowledgements.
    fn loss_rate(&self, latest: &Counters) -> (r: Option<LossCount>)
        ensures
            r == loss_across(self.history@, *latest),
    {
        match self.reading_before(latest, LOSS_WINDOW) {
            None => None,
            Some(oldest) => {
                let lost: u64 = saturating_sub(latest.lost_packets, oldest.lost_packets);
                let sent: u64 = saturating_sub(latest.sent_packets, oldest.sent_packets);
                let total: u128 = lost as u128 + sent as u128;
                if total < LOSS_MIN_PACKETS as u128 {
                    None
                } else {
                    Some(LossCount { lost, total })
                }
            },
        }
    }
}

/// What a window draws about a path over one interval.
#[derive(Debug, Clone, Copy, PartialEq, Eq, Structural)]
pub struct StatsDelta {
    /// The loss over the interval, or `None` if nothing was sent or lost.
    pub loss: Option<LossCount>,
    /// What arrived and what was sent over the interval, or `None` if no time
    /// passed.
    pub bandwidth: Option<Bandwidth>,
}

/// Bytes in both directions over a span.
#[derive(Debug, Clone, Copy, PartialEq, Eq, Structural)]
pub struct Bandwidth {
    /// Bytes received.
    pub down: u64,
    /// Bytes sent.
    pub up: u64,
    /// The span they moved across.
    pub span: Duration,
}

/// The figures of the last interval, to take the next one's differences from.
#[derive(Debug, Clone, Copy, PartialEq, Eq, Structural)]
pub struct StatsRecorder {
    /// Bytes received so far.
    pub rx_bytes: u64,
    /// Bytes sent so far.
    pub tx_bytes: u64,
    /// Packets lost so far.
    pub lost: u64,
    /// Datagrams sent so far.
    pub sent: u64,
    /// When the byte counts were taken.
    pub time: Instant,
}

/// The word for a path's kind.
pub fn path_type(is_relay: bool) -> (r: &'static str)
    ensures
        r@ == (if is_relay {
            "relayed"@
        } else {
            "direct"@
        }),
{
    if is_relay {
        "relayed"
    } else {
        "direct"
    }
}

impl StatsRecorder {
    /// Starts recording at `now`, from counters of zero.
    pub fn new(now: Instant) -> (r: StatsRecorder)
        ensures
            r == (StatsRecorder { rx_bytes: 0, tx_bytes: 0, lost: 0, sent: 0, time: now }),
    {
        StatsRecorder { rx_bytes: 0, tx_bytes: 0, lost: 0, sent: 0, time: now }
    }

    /// Takes the differences since the last interval.
    ///
    /// The byte counts, and the time they were taken at, move on only where
    /// time has passed, so that no byte is left out of every interval.
    pub fn record(&mut self, stats: &PathStats, now: Instant) -> (r: StatsDelta)
        ensures
            ({
                let lost = moved(stats.lost_packets, old(self).lost);
                let total = lost + moved(stats.sent_datagrams, old(self).sent);
                let span = time::since(now, old(self).time);
                &&& r.loss == (if total > 0 {
                    Some(LossCount { lost: lost as u64, total: total as u128 })
                } else {
                    None
                })
                &&& r.bandwidth == (if span > 0 {
                    Some(
                        Bandwidth {
                            down: moved(stats.received_bytes, old(self).rx_bytes) as u64,
                            up: moved(stats.sent_bytes, old(self).tx_bytes) as u64,
                            span: Duration { nanos: span as u128 },
                        },
                    )
                } else {
                    None
                })
                &&& final(self).lost == stats.lost_packets
                &&& final(self).sent == stats.sent_datagrams
                &&& span > 0 ==> final(self).rx_bytes == stats.received_bytes
                    && final(self).tx_bytes == stats.sent_bytes && final(self).time == now
                &&& span == 0 ==> final(self).rx_bytes == old(self).rx_bytes && final(self).tx_bytes
                    == old(self).tx_bytes && final(self).time == old(self).time
            }),
            r.loss matches Some(loss) ==> loss.lost == (if stats.lost_packets >= old(self).lost {
                stats.lost_packets - old(self).lost
            } else {
                0
            }) && loss.total == loss.lost + (if stats.sent_datagrams >= old(self).sent {
                stats.sent_datagrams - old(self).sent
            } else {
                0
            }),
            r.bandwidth matches Some(moved) ==> moved.span.nanos == now.nanos - old(self).time.nanos
                && moved.down == (if stats.received_bytes >= old(self).rx_bytes {
                stats.received_bytes - old(self).rx_bytes
            } else {
                0
            }) && moved.up == (if stats.sent_bytes >= old(self).tx_bytes {
                stats.sent_bytes - old(self).tx_bytes
            } else {
                0
            }),
            r.bandwidth is Some <==> now.nanos > old(self).time.nanos,
    {
        let lost: u64 = saturating_sub(stats.lost_packets, self.lost);
        let sent: u64 = saturating_sub(stats.sent_datagrams, self.sent);
        self.lost = stats.lost_packets;
        self.sent = stats.sent_datagrams;
        let total: u128 = lost as u128 + sent as u128;
        let loss = if total > 0 {
            Some(LossCount { lost, total })
        } else {
            None
        };
        let span = now.duration_since(self.time);
        let bandwidth = if span.nanos > 0 {
            let moved = Bandwidth {
                down: saturating_sub(stats.received_bytes, self.rx_bytes),
                up: saturating_sub(stats.sent_bytes, self.tx_bytes),
                span,
            };
            self.rx_bytes = stats.received_bytes;
            self.tx_bytes = stats.sent_bytes;
            self.time = now;
            Some(moved)
        } else {
            None
        };
        StatsDelta { loss, bandwidth }
    }
}

/// The newest reading of a span is the last one that is that old, and there is none only
/// where none is.
pub proof fn the_newest_reading_is_the_last(history: Seq<Counters>, at: Instant, span: int)
    ensures
        match newest_before(history, at, span) {
            Some(found) => exists|n: int|
                {
                    &&& 0 <= n < history.len()
                    &&& #[trigger] history[n] == found
                    &&& time::since(at, found.at) >= span
                    &&& forall|i: int|
                        n < i < history.len() ==> time::since(at, (#[trigger] history[i]).at)
                            < span
                },
            None => forall|i: int|
                0 <= i < history.len() ==> time::since(at, (#[trigger] history[i]).at) < span,
        },
    decreases history.len(),
{
    if history.len() > 0 {
        let last = history.len() - 1;
        if time::since(at, history.last().at) >= span {
            assert(history[last] == history.last());
        } else {
            let front = history.drop_last();
            the_newest_reading_is_the_last(front, at, span);
            match newest_before(front, at, span) {
                Some(found) => {
                    let n = choose|n: int|
                        {
                            &&& 0 <= n < front.len()
                            &&& #[trigger] front[n] == found
                            &&& time::since(at, found.at) >= span
                            &&& forall|i: int|
                                n < i < front.len() ==> time::since(at, (#[trigger] front[i]).at)
                                    < span
                        };
                    assert(history[n] == front[n]);
                    assert forall|i: int| n < i < history.len() implies time::since(
                        at,
                        (#[trigger] history[i]).at,
                    ) < span by {
                        if i < front.len() {
                            assert(front[i] == history[i]);
                        }
                    }
                },
                None => {
                    assert forall|i: int| 0 <= i < history.len() implies time::since(
                        at,
                        (#[trigger] history[i]).at,
                    ) < span by {
                        if i < front.len() {
                            assert(front[i] == history[i]);
                        }
                    }
                },
            }
        }
    }
}

/// The two rates of a history whose reading `n` is the newest one that is two seconds
/// old, or one second: loss is counted between it and the latest one, of at least twenty
/// packets, and goodput is what arrived since it over the time since it. A counter that
/// went backwards has not moved.
pub proof fn rates_are_differences(history: Seq<Counters>, latest: Counters, n: int)
    requires
        0 <= n < history.len(),
    ensures
        ({
            let old = history[n];
            let age = |c: Counters|
                if latest.at.nanos >= c.at.nanos {
                    latest.at.nanos - c.at.nanos
                } else {
                    0
                };
            let newest = |span: int|
                age(old) >= span && forall|i: int|
                    n < i < history.len() ==> age(#[trigger] history[i]) < span;
            let forward = |now: u64, then: u64|
                if now >= then {
                    now - then
                } else {
                    0
                };
            let lost = forward(latest.lost_packets, old.lost_packets);
            let total = lost + forward(latest.sent_packets, old.sent_packets);
            &&& newest(2_000_000_000) && total >= 20 ==> loss_across(history, latest) == Some(
                LossCount { lost: lost as u64, total: total as u128 },
            )
            &&& newest(2_000_000_000) && total < 20 ==> loss_across(history, latest) is None
            &&& newest(1_000_000_000) ==> (goodput_across(history, latest) matches Some(moved)
                && moved.bytes == forward(latest.received_bytes, old.received_bytes)
                && moved.span.nanos == age(old))
        }),
{
    the_newest_reading_is_the_last(history, latest.at, LOSS_WINDOW as int);
    the_newest_reading_is_the_last(history, latest.at, GOODPUT_WINDOW as int);
    let old = history[n];
    if time::since(latest.at, old.at) >= LOSS_WINDOW && (forall|i: int|
        n < i < history.len() ==> time::since(latest.at, (#[trigger] history[i]).at)
            < LOSS_WINDOW) {
        let found = newest_before(history, latest.at, LOSS_WINDOW as int)->0;
        assert(found == old) by {
            let m = choose|m: int|
                {
                    &&& 0 <= m < history.len()
                    &&& #[trigger] history[m] == found
                    &&& time::since(latest.at, found.at) >= LOSS_WINDOW
                    &&& forall|i: int|
                        m < i < history.len() ==> time::since(latest.at, (#[trigger] history[i]).at)
                            < LOSS_WINDOW
                };
            assert(history[m] == found);
            assert(history[n] == old);
            assert(m == n);
        }
    }
    if time::since(latest.at, old.at) >= GOODPUT_WINDOW && (forall|i: int|
        n < i < history.len() ==> time::since(latest.at, (#[trigger] history[i]).at)
            < GOODPUT_WINDOW) {
        let found = newest_before(history, latest.at, GOODPUT_WINDOW as int)->0;
        assert(found == old) by {
            let m = choose|m: int|
                {
                    &&& 0 <= m < history.len()
                    &&& #[trigger] history[m] == found
                    &&& time::since(latest.at, found.at) >= GOODPUT_WINDOW
                    &&& forall|i: int|
                        m < i < history.len() ==> time::since(latest.at, (#[trigger] history[i]).at)
                            < GOODPUT_WINDOW
                };
            assert(history[m] == found);
            assert(history[n] == old);
            assert(m == n);
        }
    }
    assert forall|i: int| n < i < history.len() implies time::since(
        latest.at,
        (#[trigger] history[i]).at,
    ) == (if latest.at.nanos >= history[i].at.nanos {
        latest.at.nanos - history[i].at.nanos
    } else {
        0
    }) by {}
}

/// A history without a reading that is old enough measures nothing.
pub proof fn short_histories_measure_nothing(history: Seq<Counters>, latest: Counters)
    ensures
        (forall|i: int|
            0 <= i < history.len() ==> latest.at.nanos < (#[trigger] history[i]).at.nanos
                + 2_000_000_000) ==> loss_across(history, latest) is None,
        (forall|i: int|
            0 <= i < history.len() ==> latest.at.nanos < (#[trigger] history[i]).at.nanos
                + 1_000_000_000) ==> goodput_across(history, latest) is None,
{
    the_newest_reading_is_the_last(history, latest.at, LOSS_WINDOW as int);
    the_newest_reading_is_the_last(history, latest.at, GOODPUT_WINDOW as int);
}

/// On one path the minimum goes on with each round trip that is read; on another, or at
/// first, it starts with it and covers fifteen seconds.
pub proof fn minimums_belong_to_a_path(
    known: PathBaseline,
    path: u32,
    rtt: Duration,
    now: Instant,
)
    ensures
        next_baseline(Some(known), known.path, rtt, now).min_rtt == known.min_rtt.recorded(
            rtt,
            now,
        ),
        next_baseline(Some(known), path, rtt, now).path == path,
        next_baseline(None, path, rtt, now).path == path,
        next_baseline(None, path, rtt, now).min_rtt.span.nanos == 15_000_000_000,
        next_baseline(None, path, rtt, now).min_rtt.minimum() == rtt,
        next_baseline(None, path, rtt, now).min_rtt.since == now,
{
}

/// Of a history as many of the oldest readings are dropped as leave one that is two
/// seconds old in front, and of what is kept the second one is younger.
pub proof fn only_covered_readings_are_dropped(history: Seq<Counters>, now: Instant)
    ensures
        ({
            let after = kept(history, now);
            &&& after.len() <= history.len()
            &&& after == history.skip(history.len() - after.len())
            &&& after.len() > 2 ==> now.nanos < after[1].at.nanos + 2_000_000_000
            &&& after.len() < history.len() ==> after.len() >= 2 && now.nanos >= after[0].at.nanos
                + 2_000_000_000
        }),
    decreases history.len(),
{
    if history.len() > 2 && time::since(now, history[1].at) >= LOSS_WINDOW {
        let rest = history.drop_first();
        only_covered_readings_are_dropped(rest, now);
        let after = kept(rest, now);
        assert(rest.skip(rest.len() - after.len()) =~= history.skip(history.len() - after.len()));
        assert(rest[0] == history[1]);
        if after.len() == rest.len() {
            assert(after =~= rest);
        }
    } else {
        assert(history.skip(0) =~= history);
    }
}

} // verus!
