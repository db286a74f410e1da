//! Pull mode: the bookkeeping behind fetching remote broadcasts by ticket.
//!
//! When a local session names a ticket, the relay dials the ticket's publisher
//! and mirrors its broadcast. Nothing else owns the pulled connection, so it has
//! to be retired deliberately, and two signals decide when: every local session
//! that named the ticket holds a [`PullGuard`], and the mirrored broadcast
//! reports whether anything is reading it. Once both have been quiet for the
//! linger window the connection is closed, and the ticket's entry is retired so
//! that the next pull dials afresh.
//!
//! The network is not touched here. A caller keeps one [`PullState`] under one
//! lock, performs the dials and the waits that it asks for, and reports back.

use vstd::prelude::*;
use vstd::string::*;

use crate::text;
use crate::ticket;
use crate::ticket::LiveTicket;
use crate::time;
use crate::time::Duration;

verus! {

/// How long a pull stays connected by default after it went quiet, in seconds.
///
/// Long enough that a page reload reuses the connection, short enough that an
/// abandoned ticket stops occupying a slot on the publisher within seconds.
pub const DEFAULT_LINGER_SECS: u64 = 10;

/// How long to wait for the pulled broadcast to be announced before giving up on
/// watching its demand, in seconds.
pub const ANNOUNCE_TIMEOUT_SECS: u64 = 10;

/// How far a pull's dial has got.
#[derive(Debug)]
pub enum Dial {
    /// Still in flight. Every caller for this ticket waits on it.
    Pending,
    /// The session is up and the broadcast is mirroring.
    Connected,
    /// The dial failed, and this is why. Every waiter gets a copy of it.
    Failed(String),
}

/// A [`Dial`], with its text as a sequence of characters.
pub enum DialView {
    /// Still in flight.
    Pending,
    /// Up.
    Connected,
    /// Failed, for this reason.
    Failed(Seq<char>),
}

impl View for Dial {
    type V = DialView;

    open spec fn view(&self) -> DialView {
        match *self {
            Dial::Pending => DialView::Pending,
            Dial::Connected => DialView::Connected,
            Dial::Failed(reason) => DialView::Failed(reason@),
        }
    }
}

/// One pulled ticket.
#[derive(Debug)]
struct Pull {
    id: u64,
    /// The local broadcast name.
    name: String,
    dial: Dial,
    /// Local sessions that named this ticket and have not disconnected yet.
    claims: usize,
    /// Whether the next pull of this name joins it.
    listed: bool,
}

/// What is known of one pulled ticket.
pub struct PullView {
    /// The local broadcast name.
    pub name: Seq<char>,
    /// How far its dial has got.
    pub dial: DialView,
    /// Local sessions that named it and have not disconnected yet.
    pub claims: nat,
    /// Whether the next pull of this name joins it. One that was retired lives
    /// on only for the sessions that still hold a guard on it.
    pub listed: bool,
}

impl View for Pull {
    type V = PullView;

    closed spec fn view(&self) -> PullView {
        PullView {
            name: self.name@,
            dial: self.dial@,
            claims: self.claims as nat,
            listed: self.listed,
        }
    }
}

impl Pull {
    /// A pull that nobody has dialled for yet and nobody claims.
    fn new(id: u64, name: String) -> (r: Pull)
        ensures
            r.id == id,
            r@ == (PullView {
                name: name@,
                dial: DialView::Pending,
                claims: 0,
                listed: true,
            }),
    {
        Pull { id, name, dial: Dial::Pending, claims: 0, listed: true }
    }

    /// Returns whether a local session that named this ticket is still connected.
    fn claimed(&self) -> (r: bool)
        ensures
            r == (self@.claims > 0),
    {
        self.claims > 0
    }
}

/// Keeps a pulled broadcast connected while the local session that asked for it
/// is still around.
///
/// Handed out by [`PullState::pull`]; give it back to [`PullState::release`]
/// when that session ends. Releasing it closes nothing by itself, it only
/// withdraws this session's interest in the ticket.
#[derive(Debug)]
pub struct PullGuard {
    id: u64,
    name: String,
}

impl PullGuard {
    /// Which pull this guard is on.
    pub closed spec fn pull(self) -> u64 {
        self.id
    }

    /// The name that was pulled.
    pub closed spec fn pulled(self) -> Seq<char> {
        self.name@
    }

    /// Which pull this guard is on.
    pub fn pull_id(&self) -> (r: u64)
        ensures
            r == self.pull(),
    {
        self.id
    }
}

/// The pulls of a relay.
#[derive(Debug)]
pub struct PullState {
    linger: Duration,
    next: u64,
    pulls: Vec<Pull>,
}

/// Whether `id` is among `pulls`.
spec fn holds(pulls: Seq<Pull>, id: u64) -> bool {
    exists|i: int| 0 <= i < pulls.len() && #[trigger] pulls[i].id == id
}

/// The pulls by their number.
spec fn by_id(pulls: Seq<Pull>) -> Map<u64, PullView> {
    Map::new(
        |id: u64| holds(pulls, id),
        |id: u64|
            pulls[choose|i: int| 0 <= i < pulls.len() && #[trigger] pulls[i].id == id]@,
    )
}

spec fn distinct(pulls: Seq<Pull>) -> bool {
    forall|i: int, j: int|
        0 <= i < j < pulls.len() ==> (#[trigger] pulls[i]).id != (#[trigger] pulls[j]).id
}

proof fn lemma_by_id(pulls: Seq<Pull>, i: int)
    requires
        distinct(pulls),
        0 <= i < pulls.len(),
    ensures
        by_id(pulls).contains_key(pulls[i].id),
        by_id(pulls)[pulls[i].id] == pulls[i]@,
{
    let id = pulls[i].id;
    assert(holds(pulls, id));
    let j = choose|j: int| 0 <= j < pulls.len() && #[trigger] pulls[j].id == id;
    if j < i {
        assert(pulls[j].id != pulls[i].id);
    } else if i < j {
        assert(pulls[i].id != pulls[j].id);
    }
}

proof fn lemma_push(pulls: Seq<Pull>, p: Pull)
    requires
        distinct(pulls),
        !holds(pulls, p.id),
    ensures
        distinct(pulls.push(p)),
        by_id(pulls.push(p)) == by_id(pulls).insert(p.id, p@),
{
    let q = pulls.push(p);
    assert forall|i: int, j: int| 0 <= i < j < q.len() implies (#[trigger] q[i]).id != (
    #[trigger] q[j]).id by {
        if j == pulls.len() {
            assert(q[i] == pulls[i]);
            assert(holds(pulls, pulls[i].id));
        } else {
            assert(q[i] == pulls[i] && q[j] == pulls[j]);
        }
    }
    assert forall|id: u64| #[trigger] by_id(q).contains_key(id) == by_id(pulls).insert(
        p.id,
        p@,
    ).contains_key(id) by {
        if holds(q, id) {
            let i = choose|i: int| 0 <= i < q.len() && #[trigger] q[i].id == id;
            if i < pulls.len() {
                assert(pulls[i].id == id);
            }
        }
        if holds(pulls, id) {
            let i = choose|i: int| 0 <= i < pulls.len() && #[trigger] pulls[i].id == id;
            assert(q[i].id == id);
        }
        if id == p.id {
            assert(q[pulls.len() as int].id == id);
        }
    }
    assert forall|id: u64| #[trigger] by_id(q).contains_key(id) implies by_id(q)[id] == by_id(
        pulls,
    ).insert(p.id, p@)[id] by {
        let i = choose|i: int| 0 <= i < q.len() && #[trigger] q[i].id == id;
        lemma_by_id(q, i);
        if i < pulls.len() {
            lemma_by_id(pulls, i);
        }
    }
    assert(by_id(q) =~= by_id(pulls).insert(p.id, p@));
}

proof fn lemma_update(pulls: Seq<Pull>, at: int, p: Pull)
    requires
        distinct(pulls),
        0 <= at < pulls.len(),
        p.id == pulls[at].id,
    ensures
        distinct(pulls.update(at, p)),
        by_id(pulls.update(at, p)) == by_id(pulls).insert(p.id, p@),
{
    let q = pulls.update(at, p);
    assert forall|i: int| 0 <= i < q.len() implies (#[trigger] q[i]).id == pulls[i].id by {}
    assert forall|i: int, j: int| 0 <= i < j < q.len() implies (#[trigger] q[i]).id != (
    #[trigger] q[j]).id by {
        assert(q[i].id == pulls[i].id && q[j].id == pulls[j].id);
    }
    assert forall|id: u64| #[trigger] by_id(q).contains_key(id) == by_id(pulls).insert(
        p.id,
        p@,
    ).contains_key(id) by {
        if holds(q, id) {
            let i = choose|i: int| 0 <= i < q.len() && #[trigger] q[i].id == id;
            assert(pulls[i].id == id);
        }
        if holds(pulls, id) {
            let i = choose|i: int| 0 <= i < pulls.len() && #[trigger] pulls[i].id == id;
            assert(q[i].id == id);
        }
        if id == p.id {
            assert(q[at].id == id);
        }
    }
    assert forall|id: u64| #[trigger] by_id(q).contains_key(id) implies by_id(q)[id] == by_id(
        pulls,
    ).insert(p.id, p@)[id] by {
        let i = choose|i: int| 0 <= i < q.len() && #[trigger] q[i].id == id;
        lemma_by_id(q, i);
        lemma_by_id(pulls, i);
        if i != at {
            if i < at {
                assert(pulls[i].id != pulls[at].id);
            } else {
                assert(pulls[at].id != pulls[i].id);
            }
        }
    }
    assert(by_id(q) =~= by_id(pulls).insert(p.id, p@));
}

proof fn lemma_remove(pulls: Seq<Pull>, at: int)
    requires
        distinct(pulls),
        0 <= at < pulls.len(),
    ensures
        distinct(pulls.remove(at)),
        by_id(pulls.remove(at)) == by_id(pulls).remove(pulls[at].id),
{
    let q = pulls.remove(at);
    let gone = pulls[at].id;
    assert forall|i: int| 0 <= i < q.len() implies #[trigger] q[i] == pulls[if i < at {
        i
    } else {
        i + 1
    }] by {}
    assert forall|i: int, j: int| 0 <= i < j < q.len() implies (#[trigger] q[i]).id != (
    #[trigger] q[j]).id by {
        let a = if i < at {
            i
        } else {
            i + 1
        };
        let b = if j < at {
            j
        } else {
            j + 1
        };
        assert(q[i] == pulls[a] && q[j] == pulls[b]);
        assert(pulls[a].id != pulls[b].id);
    }
    assert forall|id: u64| #[trigger] by_id(q).contains_key(id) == by_id(pulls).remove(
        gone,
    ).contains_key(id) by {
        if holds(q, id) {
            let i = choose|i: int| 0 <= i < q.len() && #[trigger] q[i].id == id;
            let a = if i < at {
                i
            } else {
                i + 1
            };
            assert(q[i] == pulls[a]);
            assert(pulls[a].id == id);
            if a < at {
                assert(pulls[a].id != pulls[at].id);
            } else {
                assert(pulls[at].id != pulls[a].id);
            }
        }
        if holds(pulls, id) && id != gone {
            let i = choose|i: int| 0 <= i < pulls.len() && #[trigger] pulls[i].id == id;
            if i < at {
                assert(q[i].id == id);
            } else {
                assert(i != at);
                assert(q[i - 1] == pulls[i]);
                assert(q[i - 1].id == id);
            }
        }
    }
    assert forall|id: u64| #[trigger] by_id(q).contains_key(id) implies by_id(q)[id] == by_id(
        pulls,
    ).remove(gone)[id] by {
        let i = choose|i: int| 0 <= i < q.len() && #[trigger] q[i].id == id;
        lemma_by_id(q, i);
        let a = if i < at {
            i
        } else {
            i + 1
        };
        assert(q[i] == pulls[a]);
        lemma_by_id(pulls, a);
    }
    assert(by_id(q) =~= by_id(pulls).remove(gone));
}

/// The pull that the next pull of `name` joins, if there is one.
pub open spec fn listed_for(pulls: Map<u64, PullView>, name: Seq<char>) -> Option<u64> {
    if exists|id: u64| #[trigger]
        pulls.contains_key(id) && pulls[id].listed && pulls[id].name == name {
        Some(
            choose|id: u64| #[trigger]
                pulls.contains_key(id) && pulls[id].listed && pulls[id].name == name,
        )
    } else {
        None
    }
}

/// What holds of the pulls at any time: no two are listed under one name, and
/// one that is not listed is claimed.
pub open spec fn consistent(pulls: Map<u64, PullView>) -> bool {
    &&& forall|a: u64, b: u64|
        #![trigger pulls.contains_key(a), pulls.contains_key(b)]
        pulls.contains_key(a) && pulls.contains_key(b) && pulls[a].listed && pulls[b].listed
            && pulls[a].name == pulls[b].name ==> a == b
    &&& forall|a: u64| #[trigger]
        pulls.contains_key(a) && !pulls[a].listed ==> pulls[a].claims > 0
}

/// The pulls after a session named `name`: it joins the one that is listed, or
/// starts the next one.
pub open spec fn joined(pulls: Map<u64, PullView>, next: u64, name: Seq<char>) -> (
    Map<u64, PullView>,
    u64,
    bool,
) {
    match listed_for(pulls, name) {
        Some(id) => (
            pulls.insert(id, PullView { claims: pulls[id].claims + 1, ..pulls[id] }),
            id,
            false,
        ),
        None => (
            pulls.insert(
                next,
                PullView { name, dial: DialView::Pending, claims: 1, listed: true },
            ),
            next,
            true,
        ),
    }
}

/// The pulls without the entry of `id`, which is forgotten altogether once
/// nobody claims it.
pub open spec fn unlisted(pulls: Map<u64, PullView>, id: u64) -> Map<u64, PullView> {
    if !pulls.contains_key(id) || !pulls[id].listed {
        pulls
    } else if pulls[id].claims == 0 {
        pulls.remove(id)
    } else {
        pulls.insert(id, PullView { listed: false, ..pulls[id] })
    }
}

/// The pulls after one guard on `id` was given back.
pub open spec fn released(pulls: Map<u64, PullView>, id: u64) -> Map<u64, PullView> {
    if pulls[id].claims == 1 && !pulls[id].listed {
        pulls.remove(id)
    } else {
        pulls.insert(id, PullView { claims: (pulls[id].claims - 1) as nat, ..pulls[id] })
    }
}

/// The pulls after the dial of `id` came to `outcome`: one that failed is
/// retired, so that the next pull of its name dials again.
pub open spec fn dial_settled(
    pulls: Map<u64, PullView>,
    id: u64,
    outcome: DialView,
) -> Map<u64, PullView> {
    let pulls = if outcome is Failed {
        unlisted(pulls, id)
    } else {
        pulls
    };
    if pulls.contains_key(id) {
        pulls.insert(id, PullView { dial: outcome, ..pulls[id] })
    } else {
        pulls
    }
}

/// What has to happen next for a session that named a ticket.
#[derive(Debug)]
pub enum PullOutcome {
    /// The dial is still in flight.
    Wait,
    /// The broadcast is mirroring.
    Ready,
    /// The dial failed; the guard is of no use any more.
    Failed(String),
}

/// What the task that holds a pulled connection was woken by.
#[derive(Debug, Clone, Copy, PartialEq, Eq, Structural)]
pub enum HolderEvent {
    /// It has just started, or has to look again: the last claim was given
    /// back, or the last reader went.
    Look,
    /// Every producer of the mirrored broadcast is gone, which is as unread as
    /// it gets.
    ProducersGone,
    /// The linger ran out.
    Lingered,
}

/// What the task that holds a pulled connection does next.
#[derive(Debug, Clone, Copy, PartialEq, Eq, Structural)]
pub enum HolderAction {
    /// Wait until nobody claims the pull, then look again.
    AwaitUnclaimed,
    /// Wait until nobody reads the mirrored broadcast. Look again when that
    /// comes, or report that its producers are gone.
    AwaitUnread,
    /// Wait out the linger.
    Linger(Duration),
    /// The pull is retired: close the connection.
    Close,
}

/// What a holder does: a pull that is claimed or read is kept, a quiet one is
/// lingered on, and only one that is still quiet after that is closed.
pub open spec fn holder_decides(
    claimed: bool,
    used: bool,
    event: HolderEvent,
    linger: Duration,
) -> HolderAction {
    if event == HolderEvent::Lingered && !claimed && !used {
        HolderAction::Close
    } else if claimed && event != HolderEvent::ProducersGone {
        HolderAction::AwaitUnclaimed
    } else if used && event != HolderEvent::ProducersGone {
        HolderAction::AwaitUnread
    } else {
        HolderAction::Linger(linger)
    }
}

impl PullState {
    /// The pulls, by number.
    pub closed spec fn pulls(self) -> Map<u64, PullView> {
        by_id(self.pulls@)
    }

    /// The number that the next new pull gets.
    pub closed spec fn upcoming(self) -> u64 {
        self.next
    }

    /// How long a quiet pull stays connected.
    pub closed spec fn lingers(self) -> Duration {
        self.linger
    }

    /// What holds of this state at any time.
    pub closed spec fn wf(self) -> bool {
        &&& distinct(self.pulls@)
        &&& forall|i: int| 0 <= i < self.pulls@.len() ==> (#[trigger] self.pulls@[i]).id < self.next
        &&& consistent(by_id(self.pulls@))
    }

    /// At most one pull is listed under a name, one that is not listed is
    /// claimed, and numbers are not used twice.
    pub proof fn stays_consistent(self)
        requires
            self.wf(),
        ensures
            consistent(self.pulls()),
            forall|id: u64| #[trigger] self.pulls().contains_key(id) ==> id < self.upcoming(),
    {
        assert forall|id: u64| #[trigger] self.pulls().contains_key(id) implies id
            < self.upcoming() by {
            let i = choose|i: int| 0 <= i < self.pulls@.len() && #[trigger] self.pulls@[i].id == id;
            assert(self.pulls@[i].id < self.next);
        }
    }

    /// Creates the state of a relay that pulls nothing yet.
    pub fn new() -> (r: PullState)
        ensures
            r.wf(),
            r.pulls() == Map::<u64, PullView>::empty(),
            r.upcoming() == 0,
            r.lingers().nanos == time::secs(10),
            r.lingers().nanos == 10_000_000_000,
    {
        let r = PullState {
            linger: Duration::from_secs(DEFAULT_LINGER_SECS),
            next: 0,
            pulls: Vec::new(),
        };
        assert(r.pulls() =~= Map::<u64, PullView>::empty());
        r
    }

    /// Sets how long a pull stays connected after both the last local session
    /// holding a [`PullGuard`] and the last reader of the mirrored broadcast are
    /// gone.
    pub fn with_linger(self, linger: Duration) -> (r: PullState)
        requires
            self.wf(),
        ensures
            r.wf(),
            r.pulls() == self.pulls(),
            r.upcoming() == self.upcoming(),
            r.lingers() == linger,
    {
        PullState { linger, next: self.next, pulls: self.pulls }
    }

    fn index_of(&self, id: u64) -> (r: Option<usize>)
        requires
            self.wf(),
        ensures
            match r {
                Some(i) => i < self.pulls@.len() && self.pulls@[i as int].id == id
                    && self.pulls().contains_key(id) && self.pulls()[id] == self.pulls@[i as int]@,
                None => !self.pulls().contains_key(id),
            },
    {
        let mut i: usize = 0;
        while i < self.pulls.len()
            invariant
                self.wf(),
                i <= self.pulls@.len(),
                forall|j: int| 0 <= j < i ==> (#[trigger] self.pulls@[j]).id != id,
            decreases self.pulls@.len() - i,
        {
            if self.pulls[i].id == id {
                proof {
                    lemma_by_id(self.pulls@, i as int);
                }
                return Some(i);
            }
            i = i + 1;
        }
        None
    }

    fn index_of_listed(&self, name: &str) -> (r: Option<usize>)
        requires
            self.wf(),
        ensures
            match r {
                Some(i) => i < self.pulls@.len() && listed_for(self.pulls(), name@) == Some(
                    self.pulls@[i as int].id,
                ) && self.pulls().contains_key(self.pulls@[i as int].id)
                    && self.pulls()[self.pulls@[i as int].id] == self.pulls@[i as int]@,
                None => listed_for(self.pulls(), name@) is None,
            },
    {
        let mut i: usize = 0;
        while i < self.pulls.len()
            invariant
                self.wf(),
                i <= self.pulls@.len(),
                forall|j: int|
                    0 <= j < i ==> !((#[trigger] self.pulls@[j]).listed && self.pulls@[j].name@
                        == name@),
            decreases self.pulls@.len() - i,
        {
            if self.pulls[i].listed && text::same(self.pulls[i].name.as_str(), name) {
                proof {
                    let id = self.pulls@[i as int].id;
                    lemma_by_id(self.pulls@, i as int);
                    assert(self.pulls().contains_key(id));
                    let found = listed_for(self.pulls(), name@)->0;
                    assert(self.pulls().contains_key(found));
                }
                return Some(i);
            }
            i = i + 1;
        }
        proof {
            assert forall|id: u64| #[trigger] self.pulls().contains_key(id) implies !(
            self.pulls()[id].listed && self.pulls()[id].name == name@) by {
                let j = choose|j: int|
                    0 <= j < self.pulls@.len() && #[trigger] self.pulls@[j].id == id;
                lemma_by_id(self.pulls@, j);
            }
        }
        None
    }

    /// Replaces the pull at `i` by one with the same number.
    fn replace(&mut self, i: usize, pull: Pull)
        requires
            old(self).wf(),
            i < old(self).pulls@.len(),
            pull.id == old(self).pulls@[i as int].id,
            consistent(old(self).pulls().insert(pull.id, pull@)),
        ensures
            final(self).wf(),
            final(self).pulls() == old(self).pulls().insert(pull.id, pull@),
            final(self).upcoming() == old(self).upcoming(),
            final(self).lingers() == old(self).lingers(),
    {
        proof {
            lemma_update(self.pulls@, i as int, pull);
        }
        let ghost before = self.pulls@;
        self.pulls.set(i, pull);
        proof {
            assert(self.pulls@ =~= before.update(i as int, pull));
            assert forall|k: int| 0 <= k < self.pulls@.len() implies (
            #[trigger] self.pulls@[k]).id < self.next by {
                assert(before[k].id < self.next);
            }
        }
    }

    /// A copy of the pull at `i`, to be changed and put back.
    fn copy_of(&self, i: usize) -> (r: Pull)
        requires
            i < self.pulls@.len(),
        ensures
            r.id == self.pulls@[i as int].id,
            r@ == self.pulls@[i as int]@,
    {
        let pull = &self.pulls[i];
        let dial = match &pull.dial {
            Dial::Pending => Dial::Pending,
            Dial::Connected => Dial::Connected,
            Dial::Failed(reason) => Dial::Failed(reason.clone()),
        };
        Pull {
            id: pull.id,
            name: pull.name.clone(),
            dial,
            claims: pull.claims,
            listed: pull.listed,
        }
    }

    /// Forgets the pull at `i`.
    fn forget(&mut self, i: usize)
        requires
            old(self).wf(),
            i < old(self).pulls@.len(),
        ensures
            final(self).wf(),
            final(self).pulls() == old(self).pulls().remove(old(self).pulls@[i as int].id),
            final(self).upcoming() == old(self).upcoming(),
            final(self).lingers() == old(self).lingers(),
    {
        proof {
            lemma_remove(self.pulls@, i as int);
        }
        let ghost before = self.pulls@;
        let _ = self.pulls.remove(i);
        proof {
            assert(self.pulls@ =~= before.remove(i as int));
            assert forall|k: int| 0 <= k < self.pulls@.len() implies (
            #[trigger] self.pulls@[k]).id < self.next by {
                assert(self.pulls@[k] == before[if k < i {
                    k
                } else {
                    k + 1
                }]);
            }
        }
    }

    /// Claims the pull that a ticket names, under the ticket's text.
    ///
    /// Returns a [`PullGuard`] to hold for the lifetime of the local session
    /// that asked for the broadcast, and whether the caller has to dial: a
    /// ticket that is already pulled hands back another guard on the running
    /// session, and concurrent pulls for one ticket share a single dial.
    ///
    /// The count of claims and the numbers have to fit their integers.
    pub fn pull(&mut self, ticket: &LiveTicket) -> (r: (PullGuard, bool))
        requires
            old(self).wf(),
            old(self).upcoming() < u64::MAX,
            forall|id: u64| #[trigger]
                old(self).pulls().contains_key(id) ==> old(self).pulls()[id].claims < usize::MAX,
        ensures
            final(self).wf(),
            (final(self).pulls(), r.0.pull(), r.1) == joined(
                old(self).pulls(),
                old(self).upcoming(),
                ticket::uri(ticket@),
            ),
            r.0.pulled() == ticket::uri(ticket@),
            final(self).upcoming() == old(self).upcoming() + if r.1 {
                1int
            } else {
                0int
            },
            final(self).lingers() == old(self).lingers(),
    {
        proof {
            self.stays_consistent();
        }
        let name = ticket.serialize();
        match self.index_of_listed(name.as_str()) {
            Some(i) => {
                let mut pull = self.copy_of(i);
                let id: u64 = pull.id;
                pull.claims = pull.claims + 1;
                proof {
                    let after = self.pulls().insert(id, pull@);
                    assert(pull@ == PullView {
                        claims: self.pulls()[id].claims + 1,
                        ..self.pulls()[id]
                    });
                    assert forall|a: u64, b: u64|
                        #![trigger after.contains_key(a), after.contains_key(b)]
                        after.contains_key(a) && after.contains_key(b) && after[a].listed
                            && after[b].listed && after[a].name == after[b].name implies a == b by {
                        assert(self.pulls().contains_key(a) && self.pulls().contains_key(b));
                    }
                }
                self.replace(i, pull);
                (PullGuard { id, name }, false)
            },
            None => {
                let id: u64 = self.next;
                let mut pull = Pull::new(id, name.clone());
                pull.claims = 1;
                let ghost before = self.pulls@;
                proof {
                    assert(!holds(before, id)) by {
                        if holds(before, id) {
                            assert(self.pulls().contains_key(id));
                        }
                    }
                    lemma_push(before, pull);
                    let after = by_id(before).insert(id, pull@);
                    assert forall|a: u64, b: u64|
                        #![trigger after.contains_key(a), after.contains_key(b)]
                        after.contains_key(a) && after.contains_key(b) && after[a].listed
                            && after[b].listed && after[a].name == after[b].name implies a == b by {
                        if a != id {
                            assert(by_id(before).contains_key(a));
                        }
                        if b != id {
                            assert(by_id(before).contains_key(b));
                        }
                    }
                }
                self.pulls.push(pull);
                self.next = self.next + 1;
                proof {
                    assert(self.pulls@ =~= before.push(pull));
                    assert forall|k: int| 0 <= k < self.pulls@.len() implies (
                    #[trigger] self.pulls@[k]).id < self.next by {
                        if k < before.len() {
                            assert(before[k].id < id);
                        }
                    }
                }
                (PullGuard { id, name }, true)
            },
        }
    }

    /// Drops `id` from the listing, if it is still listed.
    ///
    /// By number: a pull that was already retired may have been replaced by a
    /// fresh dial for the same ticket, and that one belongs to its own holder.
    pub fn retire(&mut self, id: u64)
        requires
            old(self).wf(),
        ensures
            final(self).wf(),
            final(self).pulls() == unlisted(old(self).pulls(), id),
            final(self).upcoming() == old(self).upcoming(),
            final(self).lingers() == old(self).lingers(),
    {
        match self.index_of(id) {
            Some(i) => {
                if self.pulls[i].listed {
                    if self.pulls[i].claimed() {
                        let mut pull = self.copy_of(i);
                        pull.listed = false;
                        proof {
                            let before = self.pulls();
                            let after = before.insert(id, pull@);
                            assert forall|a: u64, b: u64|
                                #![trigger after.contains_key(a), after.contains_key(b)]
                                after.contains_key(a) && after.contains_key(b) && after[a].listed
                                    && after[b].listed && after[a].name
                                    == after[b].name implies a == b by {
                                assert(before.contains_key(a) && before.contains_key(b));
                            }
                        }
                        self.replace(i, pull);
                    } else {
                        self.forget(i);
                    }
                }
            },
            None => {},
        }
    }

    /// Reports what the dial of `id` came to: `Ok` where the session is up, or
    /// why it is not.
    ///
    /// A failed entry is retired, so that the next pull of its ticket dials
    /// again rather than joining a session that never came up.
    pub fn dialed(&mut self, id: u64, outcome: Result<(), String>)
        requires
            old(self).wf(),
        ensures
            final(self).wf(),
            final(self).pulls() == dial_settled(
                old(self).pulls(),
                id,
                match outcome {
                    Ok(_) => DialView::Connected,
                    Err(reason) => DialView::Failed(reason@),
                },
            ),
            final(self).upcoming() == old(self).upcoming(),
            final(self).lingers() == old(self).lingers(),
    {
        if outcome.is_err() {
            self.retire(id);
        }
        match self.index_of(id) {
            Some(i) => {
                let mut pull = self.copy_of(i);
                pull.dial = match outcome {
                    Ok(_) => Dial::Connected,
                    Err(reason) => Dial::Failed(reason),
                };
                proof {
                    let before = self.pulls();
                    let after = before.insert(id, pull@);
                    assert forall|a: u64, b: u64|
                        #![trigger after.contains_key(a), after.contains_key(b)]
                        after.contains_key(a) && after.contains_key(b) && after[a].listed
                            && after[b].listed && after[a].name == after[b].name implies a == b by {
                        assert(before.contains_key(a) && before.contains_key(b));
                    }
                }
                self.replace(i, pull);
            },
            None => {},
        }
    }

    /// What the session that holds `guard` has to do: dialling or joining, every
    /// one waits on the one dial's outcome.
    pub fn outcome(&self, guard: &PullGuard) -> (r: PullOutcome)
        requires
            self.wf(),
        ensures
            if self.pulls().contains_key(guard.pull()) {
                match self.pulls()[guard.pull()].dial {
                    DialView::Pending => r is Wait,
                    DialView::Connected => r is Ready,
                    DialView::Failed(reason) => r matches PullOutcome::Failed(message) && message@
                        == "failed to pull "@ + guard.pulled() + ": "@ + reason,
                }
            } else {
                r matches PullOutcome::Failed(message) && message@ == "failed to pull "@
                    + guard.pulled() + ": "@ + "the pull was dropped before it connected"@
            },
    {
        match self.index_of(guard.id) {
            Some(i) => match &self.pulls[i].dial {
                Dial::Pending => PullOutcome::Wait,
                Dial::Connected => PullOutcome::Ready,
                Dial::Failed(reason) => PullOutcome::Failed(
                    text::join4("failed to pull ", guard.name.as_str(), ": ", reason.as_str()),
                ),
            },
            None => PullOutcome::Failed(
                text::join4(
                    "failed to pull ",
                    guard.name.as_str(),
                    ": ",
                    "the pull was dropped before it connected",
                ),
            ),
        }
    }

    /// Gives a guard back, which withdraws one session's interest in a ticket.
    pub fn release(&mut self, guard: PullGuard)
        requires
            old(self).wf(),
            old(self).pulls().contains_key(guard.pull()),
            old(self).pulls()[guard.pull()].claims > 0,
        ensures
            final(self).wf(),
            final(self).pulls() == released(old(self).pulls(), guard.pull()),
            final(self).upcoming() == old(self).upcoming(),
            final(self).lingers() == old(self).lingers(),
    {
        match self.index_of(guard.id) {
            Some(i) => {
                if self.pulls[i].claims == 1 && !self.pulls[i].listed {
                    self.forget(i);
                } else {
                    let mut pull = self.copy_of(i);
                    pull.claims = pull.claims - 1;
                    proof {
                        let before = self.pulls();
                        let after = before.insert(guard.id, pull@);
                        assert forall|a: u64, b: u64|
                            #![trigger after.contains_key(a), after.contains_key(b)]
                            after.contains_key(a) && after.contains_key(b) && after[a].listed
                                && after[b].listed && after[a].name == after[b].name implies a
                            == b by {
                            assert(before.contains_key(a) && before.contains_key(b));
                        }
                    }
                    self.replace(i, pull);
                }
            },
            None => {},
        }
    }

    /// Decides what the task that holds the connection of `id` does after
    /// `event`, where `used` says whether anything reads the mirrored broadcast;
    /// a broadcast that was never announced counts as unread.
    ///
    /// Two signals have to agree. The claims cover a local session that named
    /// the ticket and has not subscribed yet; the readers cover a subscriber
    /// that reached the broadcast over some other session. Either on its own
    /// would retire a pull that somebody is still using. The decision to close
    /// retires the entry in the same step, so a pull that was claimed meanwhile
    /// keeps running, and one that is retired here can no longer be claimed.
    pub fn hold(&mut self, id: u64, event: HolderEvent, used: bool) -> (r: HolderAction)
        requires
            old(self).wf(),
        ensures
            final(self).wf(),
            r == holder_decides(
                old(self).pulls().contains_key(id) && old(self).pulls()[id].claims > 0,
                used,
                event,
                old(self).lingers(),
            ),
            final(self).pulls() == if r == HolderAction::Close {
                unlisted(old(self).pulls(), id)
            } else {
                old(self).pulls()
            },
            final(self).upcoming() == old(self).upcoming(),
            final(self).lingers() == old(self).lingers(),
    {
        let claimed = match self.index_of(id) {
            Some(i) => self.pulls[i].claimed(),
            None => false,
        };
        if event == HolderEvent::Lingered && !claimed && !used {
            self.retire(id);
            HolderAction::Close
        } else if claimed && event != HolderEvent::ProducersGone {
            HolderAction::AwaitUnclaimed
        } else if used && event != HolderEvent::ProducersGone {
            HolderAction::AwaitUnread
        } else {
            HolderAction::Linger(self.linger)
        }
    }
}

/// The part of a local name that the mirrored broadcast is rooted at: what
/// stands before its first slash.
pub open spec fn root_of(name: Seq<char>) -> Seq<char> {
    match text::split_at_first(name, '/') {
        Some((prefix, _)) => prefix,
        None => name,
    }
}

/// The prefix that the pulled broadcast is mirrored under.
///
/// A local name is `<prefix>/<broadcast name>` and the broadcast's name may have
/// slashes of its own, so the first one splits.
pub fn local_root<'a>(local_name: &'a str) -> (r: &'a str)
    ensures
        r@ == root_of(local_name@),
{
    match text::split_once(local_name, '/') {
        Some((prefix, _)) => prefix,
        None => local_name,
    }
}

/// The root and the broadcast's own name make up the local name of a ticket, so
/// the mirror lands exactly where a local session looks for it.
pub proof fn mirror_lands_under_the_ticket(t: ticket::TicketView)
    ensures
        ticket::uri(t) == root_of(ticket::uri(t)) + seq!['/'] + t.name,
{
    reveal_strlit("iroh-live:");
    crate::encoding::lemma_base64url_alphabet(t.id);
    let root = ticket::scheme() + crate::encoding::base64url(t.id);
    assert forall|i: int| 0 <= i < root.len() implies root[i] != '/' by {
        if i >= 10 {
            assert(root[i] == crate::encoding::base64url(t.id)[i - 10]);
        }
    }
    text::lemma_split_joined(root, '/', t.name);
}

/// A second pull of a ticket joins the first one and does not dial, as long as
/// the first one is listed.
pub proof fn pulls_of_one_ticket_share_a_dial(pulls: Map<u64, PullView>, next: u64, name: Seq<char>)
    requires
        consistent(pulls),
        forall|id: u64| #[trigger] pulls.contains_key(id) ==> id < next,
    ensures
        ({
            let (after, id, _) = joined(pulls, next, name);
            let (_, again, dials) = joined(after, (next + 1) as u64, name);
            again == id && !dials
        }),
{
    let (after, id, dials) = joined(pulls, next, name);
    if !dials {
        assert(pulls.contains_key(id));
    }
    assert(after.contains_key(id) && after[id].listed && after[id].name == name);
    let again = listed_for(after, name)->0;
    assert(after.contains_key(again) && after[again].listed && after[again].name == name);
    if again != id {
        assert(pulls.contains_key(again));
        if dials {
            assert(listed_for(pulls, name) is Some);
        }
    }
}

/// What a session does about a ticket while its dial is in flight.
#[derive(Debug, Clone, Copy, PartialEq, Eq, Structural)]
pub enum Visit {
    /// It pulls the ticket.
    Pulls,
    /// It gives its guard back.
    Leaves,
}

/// How many sessions hold a guard after these visits.
pub open spec fn staying(visits: Seq<Visit>) -> nat
    decreases visits.len(),
{
    if visits.len() == 0 {
        0
    } else {
        let before = staying(visits.drop_last());
        match visits.last() {
            Visit::Pulls => before + 1,
            Visit::Leaves => if before > 0 {
                (before - 1) as nat
            } else {
                0
            },
        }
    }
}

/// The pulls after these visits for one name, the next number, and how many of the
/// visitors had to dial.
pub open spec fn visited(
    pulls: Map<u64, PullView>,
    next: u64,
    name: Seq<char>,
    visits: Seq<Visit>,
) -> (Map<u64, PullView>, u64, nat)
    decreases visits.len(),
{
    if visits.len() == 0 {
        (pulls, next, 0)
    } else {
        let (before, upcoming, dials) = visited(pulls, next, name, visits.drop_last());
        match visits.last() {
            Visit::Pulls => {
                let (after, _, dial) = joined(before, upcoming, name);
                if dial {
                    (after, (upcoming + 1) as u64, dials + 1)
                } else {
                    (after, upcoming, dials)
                }
            },
            Visit::Leaves => match listed_for(before, name) {
                Some(id) if before[id].claims > 0 => (released(before, id), upcoming, dials),
                _ => (before, upcoming, dials),
            },
        }
    }
}

/// However many sessions pull a ticket, and however many of them leave again before
/// its dial is settled, it is dialled exactly once: the first one dials, the dial
/// stays in flight, each that stays has its own claim on it, and no other pull is
/// touched.
pub proof fn any_number_of_sessions_share_a_dial(
    pulls: Map<u64, PullView>,
    next: u64,
    name: Seq<char>,
    visits: Seq<Visit>,
)
    requires
        consistent(pulls),
        next < u64::MAX,
        listed_for(pulls, name) is None,
        visits.len() > 0,
        visits[0] == Visit::Pulls,
    ensures
        visited(pulls, next, name, visits) == (
            pulls.insert(
                next,
                PullView { name, dial: DialView::Pending, claims: staying(visits), listed: true },
            ),
            (next + 1) as u64,
            1nat,
        ),
    decreases visits.len(),
{
    let front = visits.drop_last();
    if front.len() == 0 {
        assert(staying(front) == 0);
        assert(visited(pulls, next, name, front) == (pulls, next, 0nat));
        assert(visits.last() == Visit::Pulls);
        assert(staying(visits) == 1);
    } else {
        any_number_of_sessions_share_a_dial(pulls, next, name, front);
        let (before, _, _) = visited(pulls, next, name, front);
        assert(before.contains_key(next) && before[next].listed && before[next].name == name);
        let found = listed_for(before, name)->0;
        assert(before.contains_key(found) && before[found].listed && before[found].name == name);
        if found != next {
            assert(pulls.contains_key(found));
        }
        assert(visited(pulls, next, name, visits).0 =~= pulls.insert(
            next,
            PullView { name, dial: DialView::Pending, claims: staying(visits), listed: true },
        ));
    }
}

/// A session that leaves stops neither the dial nor anybody else: the pull stays
/// listed with its dial as it was, the next session joins it, and what the dial
/// comes to reaches those who wait for it.
pub proof fn leaving_stops_nothing(
    pulls: Map<u64, PullView>,
    id: u64,
    next: u64,
    other: u64,
    outcome: DialView,
)
    requires
        consistent(pulls),
        pulls.contains_key(id),
        pulls[id].listed,
        pulls[id].claims > 0,
        other != id,
    ensures
        ({
            let after = released(pulls, id);
            let (_, joined_id, dials) = joined(after, next, pulls[id].name);
            let settled = dial_settled(after, id, outcome);
            &&& after.contains_key(id)
            &&& after[id] == PullView { claims: (pulls[id].claims - 1) as nat, ..pulls[id] }
            &&& joined_id == id && !dials
            &&& pulls[id].claims > 1 ==> settled.contains_key(id) && settled[id].dial == outcome
            &&& after.contains_key(other) == pulls.contains_key(other)
            &&& pulls.contains_key(other) ==> after[other] == pulls[other]
        }),
{
    let after = released(pulls, id);
    let name = pulls[id].name;
    assert(after.contains_key(id) && after[id].listed && after[id].name == name);
    let found = listed_for(after, name)->0;
    assert(after.contains_key(found) && after[found].listed && after[found].name == name);
    assert(pulls.contains_key(found) && pulls.contains_key(id));
}

/// A dial that failed is reported to everybody who waits for it and leaves no entry
/// behind: the next pull of the ticket dials again.
pub proof fn failed_dials_are_dialled_again(
    pulls: Map<u64, PullView>,
    id: u64,
    next: u64,
    reason: Seq<char>,
)
    requires
        consistent(pulls),
        pulls.contains_key(id),
        pulls[id].listed,
        id < next,
    ensures
        ({
            let after = dial_settled(pulls, id, DialView::Failed(reason));
            let (_, joined_id, dials) = joined(after, next, pulls[id].name);
            &&& listed_for(after, pulls[id].name) is None
            &&& joined_id == next && dials
            &&& pulls[id].claims > 0 ==> after.contains_key(id) && after[id].dial
                == DialView::Failed(reason) && after[id].claims == pulls[id].claims
        }),
{
    let after = dial_settled(pulls, id, DialView::Failed(reason));
    let name = pulls[id].name;
    if listed_for(after, name) is Some {
        let found = listed_for(after, name)->0;
        assert(after.contains_key(found) && after[found].listed && after[found].name == name);
        assert(pulls.contains_key(found) && pulls.contains_key(id));
    }
}

/// A pull that was retired is joined by nobody: the next pull of its name
/// starts a new one and dials.
pub proof fn retired_pulls_are_not_joined(pulls: Map<u64, PullView>, id: u64, next: u64)
    requires
        consistent(pulls),
        pulls.contains_key(id),
        pulls[id].listed,
        id < next,
    ensures
        ({
            let (_, joined_id, dials) = joined(unlisted(pulls, id), next, pulls[id].name);
            joined_id == next && dials && joined_id != id
        }),
{
    let after = unlisted(pulls, id);
    let name = pulls[id].name;
    if listed_for(after, name) is Some {
        let found = listed_for(after, name)->0;
        assert(after.contains_key(found) && after[found].listed && after[found].name == name);
        assert(pulls.contains_key(found));
    }
}

/// Taking a guard on a running pull and giving it back leaves everything as it
/// was.
pub proof fn a_released_guard_leaves_no_trace(pulls: Map<u64, PullView>, next: u64, name: Seq<char>)
    requires
        consistent(pulls),
        listed_for(pulls, name) is Some,
    ensures
        ({
            let (after, id, _) = joined(pulls, next, name);
            released(after, id) == pulls
        }),
{
    let (after, id, _) = joined(pulls, next, name);
    assert(pulls.contains_key(id));
    assert(released(after, id) =~= pulls);
}

/// A holder never closes a pull that is claimed or read, and never without
/// having waited out the linger.
pub proof fn pulls_in_use_are_kept(
    claimed: bool,
    used: bool,
    event: HolderEvent,
    linger: Duration,
)
    ensures
        holder_decides(claimed, used, event, linger) == HolderAction::Close ==> !claimed && !used
            && event == HolderEvent::Lingered,
        !claimed && !used && event != HolderEvent::Lingered ==> holder_decides(
            claimed,
            used,
            event,
            linger,
        ) == HolderAction::Linger(linger),
{
}

/// Retiring one pull leaves every other one alone.
pub proof fn retiring_touches_one_pull(pulls: Map<u64, PullView>, id: u64, other: u64)
    requires
        id != other,
    ensures
        unlisted(pulls, id).contains_key(other) == pulls.contains_key(other),
        pulls.contains_key(other) ==> unlisted(pulls, id)[other] == pulls[other],
{
}

/// A ticket that nothing is listed for starts a new pull, which is the caller's to dial
/// and the caller's alone; one that is listed is joined as it is, with one claim more.
/// No other pull is touched.
pub proof fn pulls_are_started_or_joined(
    pulls: Map<u64, PullView>,
    next: u64,
    name: Seq<char>,
    other: u64,
)
    requires
        consistent(pulls),
        !pulls.contains_key(next),
    ensures
        ({
            let (after, id, dials) = joined(pulls, next, name);
            &&& dials <==> forall|k: u64| #[trigger]
                pulls.contains_key(k) && pulls[k].listed ==> pulls[k].name != name
            &&& after.contains_key(id) && after[id].listed && after[id].name == name
            &&& dials ==> id == next && after[id].claims == 1 && after[id].dial is Pending
            &&& !dials ==> pulls.contains_key(id) && after[id].claims == pulls[id].claims + 1
                && after[id].dial == pulls[id].dial
            &&& other != id ==> after.contains_key(other) == pulls.contains_key(other)
                && after[other] == pulls[other]
        }),
{
}

/// What a dial came to is known to all that wait for it: one that connected leaves its
/// pull listed and claimed as it was, and no other pull is touched.
pub proof fn settled_dials_reach_their_pull(
    pulls: Map<u64, PullView>,
    id: u64,
    other: u64,
    reason: Seq<char>,
)
    requires
        pulls.contains_key(id),
        other != id,
    ensures
        ({
            let up = dial_settled(pulls, id, DialView::Connected);
            let down = dial_settled(pulls, id, DialView::Failed(reason));
            &&& up.contains_key(id) && up[id].dial is Connected && up[id].listed
                == pulls[id].listed && up[id].claims == pulls[id].claims && up[id].name
                == pulls[id].name
            &&& down.contains_key(id) ==> down[id].dial == DialView::Failed(reason)
                && !down[id].listed && down[id].claims == pulls[id].claims
            &&& !down.contains_key(id) ==> pulls[id].claims == 0
            &&& up.contains_key(other) == pulls.contains_key(other) && up[other] == pulls[other]
            &&& down.contains_key(other) == pulls.contains_key(other) && down[other]
                == pulls[other]
        }),
{
}

/// A guard that is given back takes one claim away, and the last one on a retired pull
/// takes the pull with it; nothing else changes.
pub proof fn a_guard_is_one_claim(pulls: Map<u64, PullView>, id: u64, other: u64)
    requires
        pulls.contains_key(id),
        pulls[id].claims > 0,
        other != id,
    ensures
        ({
            let after = released(pulls, id);
            &&& after.contains_key(id) <==> pulls[id].listed || pulls[id].claims > 1
            &&& after.contains_key(id) ==> after[id].claims == pulls[id].claims - 1
                && after[id].listed == pulls[id].listed && after[id].dial == pulls[id].dial
                && after[id].name == pulls[id].name
            &&& after.contains_key(other) == pulls.contains_key(other) && after[other]
                == pulls[other]
        }),
{
}

/// Retiring a pull takes it off the list, and with it the pull unless a session still
/// holds a guard on it.
pub proof fn retired_pulls_are_off_the_list(pulls: Map<u64, PullView>, id: u64)
    requires
        pulls.contains_key(id),
        pulls[id].listed,
    ensures
        unlisted(pulls, id).contains_key(id) <==> pulls[id].claims > 0,
        pulls[id].claims > 0 ==> !unlisted(pulls, id)[id].listed && unlisted(pulls, id)[id].claims
            == pulls[id].claims && unlisted(pulls, id)[id].dial == pulls[id].dial,
{
}

/// A pull that nobody claims or reads any more is lingered on and then closed; one that
/// is claimed waits for that to end, and one that is read waits for its readers, unless
/// its producers are gone.
pub proof fn quiet_pulls_are_closed(claimed: bool, used: bool, linger: Duration)
    ensures
        holder_decides(false, false, HolderEvent::Look, linger) == HolderAction::Linger(linger),
        holder_decides(false, false, HolderEvent::Lingered, linger) == HolderAction::Close,
        holder_decides(claimed, used, HolderEvent::ProducersGone, linger) == HolderAction::Linger(
            linger,
        ),
        holder_decides(true, used, HolderEvent::Look, linger) == HolderAction::AwaitUnclaimed,
        holder_decides(true, used, HolderEvent::Lingered, linger) == HolderAction::AwaitUnclaimed,
        holder_decides(false, true, HolderEvent::Look, linger) == HolderAction::AwaitUnread,
        holder_decides(false, true, HolderEvent::Lingered, linger) == HolderAction::AwaitUnread,
{
}

/// The root of a name is what stands before its first slash, and all of a name without
/// one.
pub proof fn roots_end_at_the_first_slash(root: Seq<char>, rest: Seq<char>)
    requires
        forall|i: int| 0 <= i < root.len() ==> root[i] != '/',
    ensures
        root_of(root + seq!['/'] + rest) == root,
        root_of(root) == root,
{
    text::lemma_split_joined(root, '/', rest);
    text::lemma_before(root, '/', root.len() as int);
}

/// A dial is seen as what it has come to.
pub proof fn dials_are_seen_whole(dial: Dial)
    ensures
        dial is Pending <==> dial@ is Pending,
        dial is Connected <==> dial@ is Connected,
        dial matches Dial::Failed(reason) ==> dial@ == DialView::Failed(reason@),
{
}

/// Retiring a pull that is not listed, or that nobody knows, changes nothing.
pub proof fn pulls_are_retired_once(pulls: Map<u64, PullView>, id: u64)
    requires
        !pulls.contains_key(id) || !pulls[id].listed,
    ensures
        unlisted(pulls, id) == pulls,
{
}

} // verus!
