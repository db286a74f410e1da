//! A room of peers: who is in it, whose pictures are on screen, and the chat
//! under them.

use std::collections::VecDeque;

use vstd::prelude::*;
use vstd::string::*;

use crate::args::RoomArgs;
use crate::encoding;
use crate::endpoint::EndpointId;
use crate::text;

verus! {

/// How many chat lines are kept in the scrollback.
pub const MAX_CHAT_LINES: usize = 200;

/// The name a node publishes its camera under inside the room.
pub fn broadcast_name() -> (r: &'static str)
    ensures
        r@ == "cam"@,
{
    "cam"
}

/// The short form of an endpoint id.
pub open spec fn short_text(remote: Seq<u8>) -> Seq<char> {
    encoding::hex(remote.take(5))
}

/// The short form of an endpoint id, which is what a peer without a display name
/// is called.
pub fn short(remote: EndpointId) -> (r: String)
    ensures
        r@ == short_text(remote@),
        r@ == encoding::hex(remote@.take(5)),
{
    remote.fmt_short()
}

/// The name a node goes by in the room: the one its flags give, or its short id.
pub fn display_name(args: &RoomArgs, id: EndpointId) -> (r: String)
    ensures
        r@ == (match args.display_name {
            Some(name) => name@,
            None => encoding::hex(id@.take(5)),
        }),
{
    match &args.display_name {
        Some(name) => name.clone(),
        None => short(id),
    }
}

/// Checks that gossip is running, which a room cannot do without.
pub fn check_gossip(running: bool) -> (r: Result<(), &'static str>)
    ensures
        match r {
            Ok(_) => running,
            Err(e) => !running && e@ == "gossip is not running, which a room cannot do without"@,
        },
{
    if running {
        Ok(())
    } else {
        Err("gossip is not running, which a room cannot do without")
    }
}

/// One line of the scrollback.
#[derive(Debug)]
pub struct ChatLine {
    /// Who said it, or `None` for a line the room itself produced.
    pub sender: Option<String>,
    /// What was said.
    pub text: String,
}

/// A [`ChatLine`], with its texts as sequences of characters.
pub struct LineView {
    /// Who said it.
    pub sender: Option<Seq<char>>,
    /// What was said.
    pub text: Seq<char>,
}

impl View for ChatLine {
    type V = LineView;

    open spec fn view(&self) -> LineView {
        LineView { sender: text::view_option(self.sender), text: self.text@ }
    }
}

impl ChatLine {
    /// What stands before the text of a line that somebody said.
    pub fn sender_label(&self) -> (r: Option<String>)
        ensures
            text::view_option(r) == (match self@.sender {
                Some(sender) => Some(sender + ":"@),
                None => None,
            }),
    {
        match &self.sender {
            Some(sender) => Some(text::join2(sender.as_str(), ":")),
            None => None,
        }
    }
}

/// The scrollback as views.
pub open spec fn line_views(lines: Seq<ChatLine>) -> Seq<LineView> {
    lines.map_values(|line: ChatLine| line@)
}

/// A scrollback with one more line, without its oldest line once it is full.
pub open spec fn appended(lines: Seq<LineView>, line: LineView) -> Seq<LineView> {
    let all = lines.push(line);
    if all.len() > MAX_CHAT_LINES {
        all.drop_first()
    } else {
        all
    }
}

/// The chat scrollback and the line being typed.
#[derive(Debug)]
pub struct ChatState {
    /// The scrollback, oldest line first.
    pub lines: VecDeque<ChatLine>,
    /// The line being typed.
    pub input: String,
}

impl ChatState {
    /// The scrollback.
    pub open spec fn said(self) -> Seq<LineView> {
        line_views(self.lines@)
    }

    /// Whether the scrollback is within its limit.
    pub open spec fn wf(self) -> bool {
        self.lines@.len() <= MAX_CHAT_LINES
    }

    /// An empty scrollback and nothing typed.
    pub fn new() -> (r: ChatState)
        ensures
            r.wf(),
            r.said() == Seq::<LineView>::empty(),
            r.input@ == Seq::<char>::empty(),
    {
        let r = ChatState { lines: VecDeque::new(), input: String::new() };
        assert(r.said() =~= Seq::<LineView>::empty());
        r
    }

    /// Appends a message from `sender`.
    pub fn push(&mut self, sender: String, text: String)
        ensures
            old(self).wf() ==> final(self).wf(),
            final(self).input == old(self).input,
            final(self).said() == appended(
                old(self).said(),
                LineView { sender: Some(sender@), text: text@ },
            ),
    {
        self.append(ChatLine { sender: Some(sender), text });
    }

    /// Appends a line the room produced, such as somebody joining.
    pub fn push_system(&mut self, text: String)
        ensures
            old(self).wf() ==> final(self).wf(),
            final(self).input == old(self).input,
            final(self).said() == appended(
                old(self).said(),
                LineView { sender: None, text: text@ },
            ),
    {
        self.append(ChatLine { sender: None, text });
    }

    /// Appends `line`, dropping the oldest one once the scrollback is full.
    pub fn append(&mut self, line: ChatLine)
        ensures
            old(self).wf() ==> final(self).wf(),
            final(self).input == old(self).input,
            final(self).said() == appended(old(self).said(), line@),
    {
        let ghost before = self.lines@;
        self.lines.push_back(line);
        assert(line_views(self.lines@) =~= line_views(before).push(line@));
        if self.lines.len() > MAX_CHAT_LINES {
            let ghost full = self.lines@;
            let _ = self.lines.pop_front();
            assert(line_views(self.lines@) =~= line_views(full).drop_first());
        }
    }
}

/// The scrollback keeps within its limit, ends in the line that came last, and
/// loses nothing but its oldest line.
pub proof fn scrollback_keeps_the_latest(lines: Seq<LineView>, line: LineView)
    requires
        lines.len() <= MAX_CHAT_LINES,
    ensures
        appended(lines, line).len() <= MAX_CHAT_LINES,
        appended(lines, line).last() == line,
        lines.len() < MAX_CHAT_LINES ==> appended(lines, line) == lines.push(line),
        lines.len() == MAX_CHAT_LINES ==> appended(lines, line) == lines.drop_first().push(line),
{
    assert(lines.len() == MAX_CHAT_LINES ==> lines.push(line).drop_first()
        =~= lines.drop_first().push(line));
}

/// What an empty scrollback holds after these lines were appended to it.
pub open spec fn scrolled(lines: Seq<LineView>) -> Seq<LineView>
    decreases lines.len(),
{
    if lines.len() == 0 {
        Seq::empty()
    } else {
        appended(scrolled(lines.drop_last()), lines.last())
    }
}

/// However many lines are said, the scrollback holds the latest of them in the order
/// in which they were said: all of them while there are no more than its limit, and
/// as many as its limit from there on.
pub proof fn the_scrollback_is_the_latest_lines(lines: Seq<LineView>)
    ensures
        lines.len() <= MAX_CHAT_LINES ==> scrolled(lines) == lines,
        lines.len() > MAX_CHAT_LINES ==> scrolled(lines) == lines.skip(
            lines.len() - MAX_CHAT_LINES,
        ),
    decreases lines.len(),
{
    if lines.len() > 0 {
        let front = lines.drop_last();
        the_scrollback_is_the_latest_lines(front);
        if lines.len() <= MAX_CHAT_LINES {
            assert(scrolled(lines) =~= lines);
        } else {
            assert(scrolled(lines) =~= lines.skip(lines.len() - MAX_CHAT_LINES));
        }
    } else {
        assert(scrolled(lines) =~= lines);
    }
}

/// One participant's broadcast in the grid.
#[derive(Debug)]
pub struct PeerTile {
    /// Whose it is.
    pub remote: EndpointId,
    /// The name the peer announced the broadcast under.
    pub name: String,
    /// The number the window knows the tile's picture and session by.
    pub id: u64,
}

/// A [`PeerTile`], with its texts as sequences of characters.
pub struct TileView {
    /// Whose it is.
    pub remote: Seq<u8>,
    /// The name of the broadcast.
    pub name: Seq<char>,
    /// The number of its picture and session.
    pub id: u64,
}

impl View for PeerTile {
    type V = TileView;

    open spec fn view(&self) -> TileView {
        TileView { remote: self.remote@, name: self.name@, id: self.id }
    }
}

/// The tiles as views.
pub open spec fn tile_views(tiles: Seq<PeerTile>) -> Seq<TileView> {
    tiles.map_values(|tile: PeerTile| tile@)
}

/// Which tiles are taken down.
pub enum Leaving {
    /// All of one peer's.
    Peer(Seq<u8>),
    /// Those whose sessions have closed, by their numbers.
    Sessions(Seq<u64>),
}

impl Leaving {
    /// Whether a tile is taken down.
    pub open spec fn takes(self, tile: TileView) -> bool {
        match self {
            Leaving::Peer(remote) => tile.remote == remote,
            Leaving::Sessions(closed) => closed.contains(tile.id),
        }
    }
}

/// The tiles that stay, in their order.
pub open spec fn staying(tiles: Seq<TileView>, leaving: Leaving) -> Seq<TileView> {
    tiles.filter(|tile: TileView| !leaving.takes(tile))
}

/// The numbers of the tiles that are taken down, in their order.
pub open spec fn taken_down(tiles: Seq<TileView>, leaving: Leaving) -> Seq<u64> {
    tiles.filter(|tile: TileView| leaving.takes(tile)).map_values(|tile: TileView| tile.id)
}

/// The names of the peers, by their ids.
#[derive(Debug)]
pub struct Names {
    entries: Vec<(EndpointId, String)>,
}

impl Names {
    /// Whether no peer is entered twice.
    pub closed spec fn wf(self) -> bool {
        forall|i: int, j: int|
            0 <= i < j < self.entries@.len() ==> (#[trigger] self.entries@[i]).0@ != (
            #[trigger] self.entries@[j]).0@
    }

    /// The names.
    pub closed spec fn names(self) -> Map<Seq<u8>, Seq<char>> {
        Map::new(
            |remote: Seq<u8>|
                exists|i: int| 0 <= i < self.entries@.len() && (#[trigger] self.entries@[i]).0@ == remote,
            |remote: Seq<u8>|
                self.entries@[choose|i: int|
                    0 <= i < self.entries@.len() && (#[trigger] self.entries@[i]).0@ == remote].1@,
        )
    }

    proof fn lemma_entry(self, i: int)
        requires
            self.wf(),
            0 <= i < self.entries@.len(),
        ensures
            self.names().contains_key(self.entries@[i].0@),
            self.names()[self.entries@[i].0@] == self.entries@[i].1@,
    {
        let remote = self.entries@[i].0@;
        let j = choose|j: int|
            0 <= j < self.entries@.len() && (#[trigger] self.entries@[j]).0@ == remote;
        assert(0 <= j < self.entries@.len() && self.entries@[j].0@ == remote);
        assert(i == j);
    }

    /// Nobody has a name yet.
    pub fn new() -> (r: Names)
        ensures
            r.wf(),
            r.names() == Map::<Seq<u8>, Seq<char>>::empty(),
    {
        let r = Names { entries: Vec::new() };
        assert(r.names() =~= Map::<Seq<u8>, Seq<char>>::empty());
        r
    }

    /// Where a peer is entered.
    fn find(&self, remote: EndpointId) -> (r: Option<usize>)
        requires
            self.wf(),
        ensures
            match r {
                Some(i) => i < self.entries@.len() && self.entries@[i as int].0@ == remote@
                    && self.names().contains_key(remote@) && self.names()[remote@]
                    == self.entries@[i as int].1@,
                None => !self.names().contains_key(remote@) && forall|j: int|
                    0 <= j < self.entries@.len() ==> (#[trigger] self.entries@[j]).0@ != remote@,
            },
    {
        let mut i: usize = 0;
        while i < self.entries.len()
            invariant
                self.wf(),
                i <= self.entries@.len(),
                forall|j: int| 0 <= j < i ==> (#[trigger] self.entries@[j]).0@ != remote@,
            decreases self.entries@.len() - i,
        {
            if self.entries[i].0.same(&remote) {
                proof {
                    self.lemma_entry(i as int);
                }
                return Some(i);
            }
            i = i + 1;
        }
        None
    }

    /// Enters the name of a peer, in place of the one it had.
    pub fn insert(&mut self, remote: EndpointId, name: String)
        requires
            old(self).wf(),
        ensures
            final(self).wf(),
            final(self).names() == old(self).names().insert(remote@, name@),
    {
        let ghost before = *self;
        match self.find(remote) {
            Some(i) => {
                self.entries.set(i, (remote, name));
            },
            None => {
                self.entries.push((remote, name));
            },
        }
        proof {
            let after = *self;
            assert(after.wf());
            let expected = before.names().insert(remote@, name@);
            assert forall|key: Seq<u8>| after.names().contains_key(key) == expected.contains_key(
                key,
            ) by {
                if after.names().contains_key(key) {
                    let j = choose|j: int|
                        0 <= j < after.entries@.len() && (#[trigger] after.entries@[j]).0@ == key;
                    if key != remote@ {
                        before.lemma_entry(j);
                    }
                }
                if expected.contains_key(key) {
                    if key == remote@ {
                        let at = choose|j: int|
                            0 <= j < after.entries@.len() && (#[trigger] after.entries@[j]).0@
                                == remote@;
                        if before.names().contains_key(remote@) {
                            let j = choose|j: int|
                                0 <= j < before.entries@.len() && (#[trigger] before.entries@[j]).0@
                                    == remote@;
                            assert(after.entries@[j].0@ == remote@);
                        } else {
                            assert(after.entries@[before.entries@.len() as int].0@ == remote@);
                        }
                    } else {
                        let j = choose|j: int|
                            0 <= j < before.entries@.len() && (#[trigger] before.entries@[j]).0@
                                == key;
                        assert(after.entries@[j].0@ == key);
                    }
                }
            }
            assert forall|key: Seq<u8>| after.names().contains_key(key) implies after.names()[key]
                == expected[key] by {
                let j = choose|j: int|
                    0 <= j < after.entries@.len() && (#[trigger] after.entries@[j]).0@ == key;
                after.lemma_entry(j);
                if key != remote@ {
                    before.lemma_entry(j);
                }
            }
            assert(after.names() =~= expected);
        }
    }

    /// Takes the name of a peer out.
    pub fn remove(&mut self, remote: EndpointId)
        requires
            old(self).wf(),
        ensures
            final(self).wf(),
            final(self).names() == old(self).names().remove(remote@),
    {
        let ghost before = *self;
        match self.find(remote) {
            Some(i) => {
                let _ = self.entries.remove(i);
                proof {
                    let after = *self;
                    let at = i as int;
                    assert(after.entries@ =~= before.entries@.remove(at));
                    assert(after.wf()) by {
                        assert forall|a: int, b: int| 0 <= a < b < after.entries@.len() implies (
                        #[trigger] after.entries@[a]).0@ != (#[trigger] after.entries@[b]).0@ by {
                            let x = if a < at {
                                a
                            } else {
                                a + 1
                            };
                            let y = if b < at {
                                b
                            } else {
                                b + 1
                            };
                            assert(after.entries@[a] == before.entries@[x]);
                            assert(after.entries@[b] == before.entries@[y]);
                        }
                    }
                    let expected = before.names().remove(remote@);
                    assert forall|key: Seq<u8>| after.names().contains_key(key)
                        == expected.contains_key(key) by {
                        if after.names().contains_key(key) {
                            let j = choose|j: int|
                                0 <= j < after.entries@.len() && (#[trigger] after.entries@[j]).0@
                                    == key;
                            let x = if j < at {
                                j
                            } else {
                                j + 1
                            };
                            assert(after.entries@[j] == before.entries@[x]);
                            before.lemma_entry(x);
                            assert(before.entries@[at].0@ == remote@);
                            assert(x != at);
                        }
                        if expected.contains_key(key) {
                            let j = choose|j: int|
                                0 <= j < before.entries@.len() && (#[trigger] before.entries@[j]).0@
                                    == key;
                            let x = if j < at {
                                j
                            } else {
                                j - 1
                            };
                            assert(after.entries@[x] == before.entries@[j]);
                        }
                    }
                    assert forall|key: Seq<u8>| after.names().contains_key(key) implies
                        after.names()[key] == expected[key] by {
                        let j = choose|j: int|
                            0 <= j < after.entries@.len() && (#[trigger] after.entries@[j]).0@ == key;
                        after.lemma_entry(j);
                        let x = if j < at {
                            j
                        } else {
                            j + 1
                        };
                        assert(after.entries@[j] == before.entries@[x]);
                        before.lemma_entry(x);
                    }
                    assert(after.names() =~= expected);
                }
            },
            None => {
                assert(self.names().remove(remote@) =~= self.names());
            },
        }
    }

    /// The name to show for `remote`, falling back to its short endpoint id.
    pub fn label(&self, remote: EndpointId) -> (r: String)
        requires
            self.wf(),
        ensures
            r@ == label_of(self.names(), remote@),
    {
        match self.find(remote) {
            Some(i) => self.entries[i].1.clone(),
            None => short(remote),
        }
    }
}

/// The name to show for a peer, falling back to its short endpoint id.
pub open spec fn label_of(names: Map<Seq<u8>, Seq<char>>, remote: Seq<u8>) -> Seq<char> {
    if names.contains_key(remote) {
        names[remote]
    } else {
        short_text(remote)
    }
}

/// What a room reports.
#[derive(Debug)]
pub enum RoomEvent {
    /// A peer joined, under this name if it gave one.
    PeerJoined {
        /// Who joined.
        remote: EndpointId,
        /// The name it goes by.
        display_name: Option<String>,
    },
    /// A peer left.
    PeerLeft {
        /// Who left.
        remote: EndpointId,
    },
    /// A peer's broadcast was subscribed to.
    BroadcastSubscribed {
        /// Whose it is.
        remote: EndpointId,
        /// The broadcast's name.
        name: String,
    },
    /// A peer said something.
    ChatReceived {
        /// Who said it.
        remote: EndpointId,
        /// What was said.
        text: String,
    },
    /// Anything else, which the window has nothing to draw for.
    Other,
}

/// The room window.
#[derive(Debug)]
pub struct RoomApp {
    /// The name this node announced, used to label its own chat lines.
    pub display_name: String,
    /// The peers' broadcasts, in the order they were opened.
    pub peers: Vec<PeerTile>,
    /// Display names by peer.
    pub names: Names,
    /// The chat.
    pub chat: ChatState,
}

impl RoomApp {
    /// Whether the parts of the window are in order.
    pub open spec fn wf(self) -> bool {
        self.names.wf() && self.chat.wf()
    }

    /// The tiles.
    pub open spec fn tiles(self) -> Seq<TileView> {
        tile_views(self.peers@)
    }

    /// Opens the window on an empty room.
    pub fn new(display_name: String) -> (r: RoomApp)
        ensures
            r.wf(),
            r.display_name == display_name,
            r.tiles() == Seq::<TileView>::empty(),
            r.names.names() == Map::<Seq<u8>, Seq<char>>::empty(),
            r.chat.said() == Seq::<LineView>::empty(),
            r.chat.input@ == Seq::<char>::empty(),
    {
        let r = RoomApp {
            display_name,
            peers: Vec::new(),
            names: Names::new(),
            chat: ChatState::new(),
        };
        assert(r.tiles() =~= Seq::<TileView>::empty());
        r
    }

    /// Applies what the room reported. Returns the numbers of the tiles to shut
    /// down, whose sessions stay open: a peer may hold several broadcasts on one.
    pub fn on_event(&mut self, event: RoomEvent) -> (r: Vec<u64>)
        requires
            old(self).wf(),
        ensures
            final(self).wf(),
            final(self).display_name == old(self).display_name,
            final(self).chat.input == old(self).chat.input,
            match event {
                RoomEvent::PeerJoined { remote, display_name } => {
                    let name = match display_name {
                        Some(name) => name@,
                        None => short_text(remote@),
                    };
                    &&& final(self).names.names() == old(self).names.names().insert(remote@, name)
                    &&& final(self).chat.said() == appended(
                        old(self).chat.said(),
                        LineView { sender: None, text: name + " joined"@ },
                    )
                    &&& final(self).tiles() == old(self).tiles()
                    &&& r@.len() == 0
                },
                RoomEvent::PeerLeft { remote } => {
                    let name = label_of(old(self).names.names(), remote@);
                    &&& final(self).names.names() == old(self).names.names().remove(remote@)
                    &&& final(self).chat.said() == appended(
                        old(self).chat.said(),
                        LineView { sender: None, text: name + " left"@ },
                    )
                    &&& final(self).tiles() == staying(old(self).tiles(), Leaving::Peer(remote@))
                    &&& r@ == taken_down(old(self).tiles(), Leaving::Peer(remote@))
                },
                RoomEvent::ChatReceived { remote, text } => {
                    &&& final(self).names.names() == old(self).names.names()
                    &&& final(self).chat.said() == appended(
                        old(self).chat.said(),
                        LineView {
                            sender: Some(label_of(old(self).names.names(), remote@)),
                            text: text@,
                        },
                    )
                    &&& final(self).tiles() == old(self).tiles()
                    &&& r@.len() == 0
                },
                _ => *final(self) == *old(self) && r@.len() == 0,
            },
    {
        match event {
            RoomEvent::PeerJoined { remote, display_name } => {
                let name = match display_name {
                    Some(name) => name,
                    None => short(remote),
                };
                self.chat.push_system(text::join2(name.as_str(), " joined"));
                self.names.insert(remote, name);
                Vec::new()
            },
            RoomEvent::PeerLeft { remote } => {
                let name = self.names.label(remote);
                self.chat.push_system(text::join2(name.as_str(), " left"));
                self.names.remove(remote);
                let mut leaving: Vec<bool> = Vec::new();
                let mut i: usize = 0;
                while i < self.peers.len()
                    invariant
                        i <= self.peers@.len(),
                        leaving@.len() == i,
                        forall|j: int|
                            0 <= j < i ==> #[trigger] leaving@[j] == (self.peers@[j].remote@
                                == remote@),
                    decreases self.peers@.len() - i,
                {
                    leaving.push(self.peers[i].remote.same(&remote));
                    i = i + 1;
                }
                self.close_tiles(leaving, Ghost(Leaving::Peer(remote@)))
            },
            RoomEvent::ChatReceived { remote, text } => {
                let name = self.names.label(remote);
                self.chat.push(name, text);
                Vec::new()
            },
            RoomEvent::BroadcastSubscribed { .. } => Vec::new(),
            RoomEvent::Other => Vec::new(),
        }
    }

    /// A peer's broadcast has been opened and goes into the grid.
    pub fn opened(&mut self, tile: PeerTile)
        requires
            old(self).wf(),
        ensures
            final(self).wf(),
            final(self).tiles() == old(self).tiles().push(tile@),
            final(self).names == old(self).names,
            final(self).chat == old(self).chat,
            final(self).display_name == old(self).display_name,
    {
        let ghost before = self.peers@;
        self.peers.push(tile);
        assert(tile_views(self.peers@) =~= tile_views(before).push(tile@));
    }

    /// Drops the tiles whose sessions have closed, and returns their numbers.
    ///
    /// A peer that left is covered by what the room reports; one whose connection
    /// simply failed leaves its tile behind.
    pub fn drop_closed(&mut self, closed: &Vec<u64>) -> (r: Vec<u64>)
        requires
            old(self).wf(),
        ensures
            final(self).wf(),
            final(self).tiles() == staying(old(self).tiles(), Leaving::Sessions(closed@)),
            r@ == taken_down(old(self).tiles(), Leaving::Sessions(closed@)),
            final(self).names == old(self).names,
            final(self).chat == old(self).chat,
            final(self).display_name == old(self).display_name,
    {
        let mut leaving: Vec<bool> = Vec::new();
        let mut i: usize = 0;
        while i < self.peers.len()
            invariant
                i <= self.peers@.len(),
                leaving@.len() == i,
                forall|j: int|
                    0 <= j < i ==> #[trigger] leaving@[j] == closed@.contains(self.peers@[j].id),
            decreases self.peers@.len() - i,
        {
            leaving.push(holds(closed, self.peers[i].id));
            i = i + 1;
        }
        self.close_tiles(leaving, Ghost(Leaving::Sessions(closed@)))
    }

    /// Removes the tiles that are marked, and returns their numbers.
    fn close_tiles(&mut self, leaving: Vec<bool>, Ghost(who): Ghost<Leaving>) -> (r: Vec<u64>)
        requires
            leaving@.len() == old(self).peers@.len(),
            forall|j: int|
                0 <= j < leaving@.len() ==> #[trigger] leaving@[j] == who.takes(
                    old(self).peers@[j]@,
                ),
        ensures
            final(self).tiles() == staying(old(self).tiles(), who),
            r@ == taken_down(old(self).tiles(), who),
            final(self).names == old(self).names,
            final(self).chat == old(self).chat,
            final(self).display_name == old(self).display_name,
    {
        let ghost all = self.tiles();
        let ghost keeps = |tile: TileView| !who.takes(tile);
        let ghost takes = |tile: TileView| who.takes(tile);
        let ghost number = |tile: TileView| tile.id;
        let mut gone: Vec<u64> = Vec::new();
        let mut index: usize = 0;
        let mut seen: usize = 0;
        proof {
            reveal(Seq::filter);
            assert(all.take(0) =~= Seq::<TileView>::empty());
            assert(all.take(0).filter(keeps) + all.skip(0) =~= all);
            assert(all.take(0).filter(takes).map_values(number) =~= gone@);
        }
        while seen < leaving.len()
            invariant
                keeps == (|tile: TileView| !who.takes(tile)),
                takes == (|tile: TileView| who.takes(tile)),
                number == (|tile: TileView| tile.id),
                seen <= leaving@.len() == all.len(),
                forall|j: int| 0 <= j < leaving@.len() ==> #[trigger] leaving@[j] == who.takes(all[j]),
                index == all.take(seen as int).filter(keeps).len(),
                self.tiles() == all.take(seen as int).filter(keeps) + all.skip(seen as int),
                gone@ == all.take(seen as int).filter(takes).map_values(number),
                self.names == old(self).names,
                self.chat == old(self).chat,
                self.display_name == old(self).display_name,
            decreases leaving@.len() - seen,
        {
            let ghost before = self.peers@;
            let ghost kept = all.take(seen as int).filter(keeps);
            let ghost down = all.take(seen as int).filter(takes);
            proof {
                reveal(Seq::filter);
                assert(all.take(seen + 1).drop_last() =~= all.take(seen as int));
                assert(all.take(seen + 1).last() == all[seen as int]);
                assert(tile_views(self.peers@).len() == self.peers@.len());
                assert(all.skip(seen as int)[0] == all[seen as int]);
                assert(self.tiles()[index as int] == all[seen as int]);
                assert(self.peers@[index as int]@ == all[seen as int]);
            }
            if leaving[seen] {
                let tile = self.peers.remove(index);
                gone.push(tile.id);
                proof {
                    assert(self.tiles() =~= kept + all.skip(seen + 1)) by {
                        assert forall|k: int| 0 <= k < self.tiles().len() implies self.tiles()[k]
                            == (kept + all.skip(seen + 1))[k] by {
                            let from = if k < index {
                                k
                            } else {
                                k + 1
                            };
                            assert(tile_views(before)[from] == (kept + all.skip(seen as int))[from]);
                        }
                    }
                    assert(gone@ =~= down.push(all[seen as int]).map_values(number));
                }
            } else {
                index = index + 1;
                assert(self.tiles() =~= kept.push(all[seen as int]) + all.skip(seen + 1));
            }
            seen = seen + 1;
        }
        proof {
            assert(all.take(seen as int) =~= all);
            assert(all.filter(keeps) + all.skip(seen as int) =~= all.filter(keeps));
        }
        gone
    }

    /// Sends what is typed, and shows it here: the room echoes nothing back to
    /// its own sender. Returns the text to send; nothing comes of an empty line.
    pub fn send_chat(&mut self) -> (r: Option<String>)
        requires
            old(self).wf(),
        ensures
            final(self).wf(),
            final(self).tiles() == old(self).tiles(),
            final(self).names == old(self).names,
            final(self).display_name == old(self).display_name,
            ({
                let typed = text::trimmed(old(self).chat.input@);
                if typed.len() == 0 {
                    *final(self) == *old(self) && r is None
                } else {
                    &&& text::view_option(r) == Some(typed)
                    &&& final(self).chat.input@ == Seq::<char>::empty()
                    &&& final(self).chat.said() == appended(
                        old(self).chat.said(),
                        LineView { sender: Some(old(self).display_name@), text: typed },
                    )
                }
            }),
    {
        let typed = text::trim(self.chat.input.as_str()).to_owned();
        if typed.as_str().unicode_len() == 0 {
            return None;
        }
        self.chat.input = String::new();
        self.chat.push(self.display_name.clone(), typed.clone());
        Some(typed)
    }

    /// What the top bar says about who is here, this node included.
    pub fn participants(&self) -> (r: String)
        ensures
            r@ == text::decimal(self.tiles().len() + 1) + " participants"@,
    {
        let count = text::wide_decimal_text(self.peers.len() as u128 + 1);
        text::join2(count.as_str(), " participants")
    }

    /// The label of this node's own tile.
    pub fn own_label(&self) -> (r: String)
        ensures
            r@ == self.display_name@ + " (you)"@,
    {
        text::join2(self.display_name.as_str(), " (you)")
    }

    /// The label of a peer's tile, if there is one at this place.
    pub fn tile_label(&self, index: usize) -> (r: Option<String>)
        requires
            self.wf(),
        ensures
            text::view_option(r) == if index < self.tiles().len() {
                Some(label_of(self.names.names(), self.tiles()[index as int].remote))
            } else {
                None
            },
    {
        if index < self.peers.len() {
            Some(self.names.label(self.peers[index].remote))
        } else {
            None
        }
    }
}

/// A peer that left has no tile and no name any more, and everybody else keeps
/// theirs.
pub proof fn leaving_takes_one_peer(
    tiles: Seq<TileView>,
    names: Map<Seq<u8>, Seq<char>>,
    remote: Seq<u8>,
)
    ensures
        forall|i: int|
            0 <= i < staying(tiles, Leaving::Peer(remote)).len() ==> (#[trigger] staying(
                tiles,
                Leaving::Peer(remote),
            )[i]).remote != remote,
        forall|i: int|
            0 <= i < tiles.len() && (#[trigger] tiles[i]).remote != remote ==> staying(
                tiles,
                Leaving::Peer(remote),
            ).contains(tiles[i]),
        !names.remove(remote).contains_key(remote),
        forall|other: Seq<u8>|
            other != remote ==> label_of(names.remove(remote), other) == #[trigger] label_of(
                names,
                other,
            ),
{
    let keeps = |tile: TileView| !Leaving::Peer(remote).takes(tile);
    let stay = staying(tiles, Leaving::Peer(remote));
    assert forall|i: int| 0 <= i < stay.len() implies (#[trigger] stay[i]).remote != remote by {
        tiles.lemma_filter_pred(keeps, i);
    }
    assert forall|i: int|
        0 <= i < tiles.len() && (#[trigger] tiles[i]).remote != remote implies stay.contains(
        tiles[i],
    ) by {
        tiles.lemma_filter_contains(keeps, i);
    }
}

/// How many columns a grid of `count` tiles has: the square root rounded up, and
/// at least one.
pub open spec fn is_columns(cols: int, count: int) -> bool {
    &&& cols >= 1
    &&& cols * cols >= count
    &&& cols == 1 || (cols - 1) * (cols - 1) < count
}

/// How many rows of `cols` tiles hold `count` of them: as few as can be, and at
/// least one.
pub open spec fn is_rows(rows: int, cols: int, count: int) -> bool {
    &&& rows >= 1
    &&& cols * rows >= count
    &&& rows == 1 || cols * (rows - 1) < count
}

/// Every tile has a place in the grid, no row but a first is empty, and the grid
/// is never taller than it is wide.
pub proof fn grids_are_squarish(count: int, cols: int, rows: int, tile: int)
    requires
        is_columns(cols, count),
        is_rows(rows, cols, count),
        0 <= tile < count,
    ensures
        rows <= cols,
        0 <= tile / cols < rows,
        0 <= tile % cols < cols,
        tile == (tile / cols) * cols + tile % cols,
{
    assert(rows <= cols) by (nonlinear_arith)
        requires
            cols >= 1,
            rows >= 1,
            cols * cols >= count,
            rows == 1 || cols * (rows - 1) < count,
    ;
    assert(0 <= tile / cols < rows && 0 <= tile % cols < cols && tile == (tile / cols) * cols + tile
        % cols) by (nonlinear_arith)
        requires
            cols >= 1,
            0 <= tile < count,
            cols * rows >= count,
    ;
}

/// What stands in a place of the grid.
#[derive(Debug, Clone, Copy, PartialEq, Eq, Structural)]
pub enum Cell {
    /// Nothing: the last row is not full.
    Empty,
    /// This node's own picture, which comes first.
    Own,
    /// A peer's tile, by its place among them.
    Peer(usize),
}

/// What stands in a place of a grid of `count` tiles.
pub fn cell_at(count: usize, cols: usize, row: usize, col: usize) -> (r: Cell)
    requires
        row * cols + col <= usize::MAX,
    ensures
        r == (if row * cols + col >= count {
            Cell::Empty
        } else if row * cols + col == 0 {
            Cell::Own
        } else {
            Cell::Peer((row * cols + col - 1) as usize)
        }),
{
    proof {
        assert(0 <= row * cols) by (nonlinear_arith)
            requires
                row >= 0,
                cols >= 0,
        ;
    }
    let index: usize = row * cols + col;
    if index >= count {
        Cell::Empty
    } else if index == 0 {
        Cell::Own
    } else {
        Cell::Peer(index - 1)
    }
}

/// Columns and rows for `count` tiles. A square-ish grid wastes the least room.
pub fn layout(count: usize) -> (r: (usize, usize))
    ensures
        is_columns(r.0 as int, count as int),
        is_rows(r.1 as int, r.0 as int, count as int),
        r.0 >= 1 && r.0 * r.0 >= count,
        r.0 == 1 || (r.0 - 1) * (r.0 - 1) < count,
        r.1 >= 1 && r.0 * r.1 >= count,
        r.1 == 1 || r.0 * (r.1 - 1) < count,
{
    let mut cols: usize = 1;
    while (cols as u128) * (cols as u128) < count as u128
        invariant
            1 <= cols <= count || cols == 1,
            cols * cols <= u128::MAX,
            cols == 1 || (cols - 1) * (cols - 1) < count,
        decreases count - cols,
    {
        proof {
            assert(cols * cols >= cols) by (nonlinear_arith)
                requires
                    cols >= 1,
            ;
        }
        cols = cols + 1;
        proof {
            assert(cols * cols <= u128::MAX) by (nonlinear_arith)
                requires
                    0 <= cols <= u64::MAX,
            ;
        }
    }
    proof {
        let c = cols as int;
        let n = count as int;
        let q = n / c;
        assert(n == c * q + n % c && 0 <= n % c < c) by (nonlinear_arith)
            requires
                c > 0,
                q == n / c,
        ;
        assert(c * (q + 1) == c * q + c) by (nonlinear_arith);
        assert(c * (q - 1) == c * q - c) by (nonlinear_arith);
        assert(q <= n) by (nonlinear_arith)
            requires
                c >= 1,
                n >= 0,
                q == n / c,
        ;
        assert(c * 0 == 0) by (nonlinear_arith);
        assert(q <= c * q) by (nonlinear_arith)
            requires
                c >= 1,
                q >= 0,
        ;
    }
    let full: usize = count / cols;
    let rows: usize = if count % cols == 0 {
        full
    } else {
        full + 1
    };
    let rows: usize = if rows == 0 {
        1
    } else {
        rows
    };
    (cols, rows)
}

/// Whether a number is in a list.
fn holds(list: &Vec<u64>, n: u64) -> (r: bool)
    ensures
        r == list@.contains(n),
{
    let mut i: usize = 0;
    while i < list.len()
        invariant
            i <= list@.len(),
            forall|j: int| 0 <= j < i ==> list@[j] != n,
        decreases list@.len() - i,
    {
        if list[i] == n {
            return true;
        }
        i = i + 1;
    }
    false
}

/// The short form of an id is its first five bytes in hexadecimal, and a peer is called
/// by the name that it gave, or by that form where it gave none.
pub proof fn peers_are_called_by_their_names(
    names: Map<Seq<u8>, Seq<char>>,
    remote: Seq<u8>,
    name: Seq<char>,
)
    ensures
        label_of(names.insert(remote, name), remote) == name,
        label_of(names.remove(remote), remote) == encoding::hex(remote.take(5)),
        short_text(remote) == encoding::hex(remote.take(5)),
{
}

/// The scrollback holds two hundred lines at most, and a further line goes to its end.
pub proof fn the_scrollback_holds_two_hundred(lines: Seq<LineView>, line: LineView)
    requires
        lines.len() <= 200,
    ensures
        appended(lines, line).len() <= 200,
        appended(lines, line).last() == line,
        lines.len() < 200 ==> appended(lines, line) == lines.push(line),
        lines.len() == 200 ==> appended(lines, line) == lines.skip(1).push(line),
{
    if lines.len() == 200 {
        assert(lines.push(line).drop_first() =~= lines.skip(1).push(line));
    }
}

/// Tiles come down exactly where they belong to the peer that left, or to a session
/// that closed; the others stay, and those that came down are reported by number.
pub proof fn tiles_come_down_with_their_sessions(
    tiles: Seq<TileView>,
    remote: Seq<u8>,
    closed: Seq<u64>,
    tile: TileView,
    id: u64,
)
    requires
        tiles.contains(tile),
    ensures
        staying(tiles, Leaving::Peer(remote)).contains(tile) <==> tile.remote != remote,
        staying(tiles, Leaving::Sessions(closed)).contains(tile) <==> !closed.contains(tile.id),
        tile.remote == remote ==> taken_down(tiles, Leaving::Peer(remote)).contains(tile.id),
        closed.contains(tile.id) ==> taken_down(tiles, Leaving::Sessions(closed)).contains(tile.id),
        forall|i: int|
            0 <= i < taken_down(tiles, Leaving::Sessions(closed)).len() ==> closed.contains(
                #[trigger] taken_down(tiles, Leaving::Sessions(closed))[i],
            ),
        taken_down(tiles, Leaving::Peer(remote)).contains(id) ==> exists|k: int|
            0 <= k < tiles.len() && (#[trigger] tiles[k]).remote == remote && tiles[k].id == id,
{
    broadcast use vstd::seq_lib::group_filter_ensures;

    let peer = Leaving::Peer(remote);
    let sessions = Leaving::Sessions(closed);
    let gone = |t: TileView| peer.takes(t);
    let ended = |t: TileView| sessions.takes(t);
    let kept = |t: TileView| !peer.takes(t);
    let open = |t: TileView| !sessions.takes(t);
    let at = tiles.index_of(tile);
    assert(tiles[at] == tile);
    if tile.remote == remote {
        assert(gone(tile));
        assert(tiles.filter(gone).contains(tile));
        let n = tiles.filter(gone).index_of(tile);
        assert(taken_down(tiles, peer)[n] == tile.id);
    } else {
        assert(kept(tile));
    }
    if closed.contains(tile.id) {
        assert(ended(tile));
        assert(tiles.filter(ended).contains(tile));
        let n = tiles.filter(ended).index_of(tile);
        assert(taken_down(tiles, sessions)[n] == tile.id);
    } else {
        assert(open(tile));
    }
    assert forall|i: int| 0 <= i < taken_down(tiles, sessions).len() implies closed.contains(
        #[trigger] taken_down(tiles, sessions)[i],
    ) by {
        assert(ended(tiles.filter(ended)[i]));
    }
    if taken_down(tiles, peer).contains(id) {
        let i = taken_down(tiles, peer).index_of(id);
        let t = tiles.filter(gone)[i];
        assert(gone(t));
        assert(tiles.filter(gone).contains(t));
        tiles.lemma_filter_contains_rev(gone, t);
        let k = tiles.index_of(t);
        assert(tiles[k] == t);
    }
}

/// Chat lines and tiles are seen with all that they hold.
pub proof fn rooms_are_seen_whole(line: ChatLine, tile: PeerTile)
    ensures
        line@.sender == text::view_option(line.sender) && line@.text == line.text@,
        tile@.remote == tile.remote@ && tile@.name == tile.name@ && tile@.id == tile.id,
{
}

/// Tiles come down and stay in the order they stand in: what becomes of two rows of
/// tiles side by side is what becomes of each, side by side.
pub proof fn tiles_keep_their_order(a: Seq<TileView>, b: Seq<TileView>, leaving: Leaving)
    ensures
        staying(a + b, leaving) == staying(a, leaving) + staying(b, leaving),
        taken_down(a + b, leaving) == taken_down(a, leaving) + taken_down(b, leaving),
{
    Seq::filter_distributes_over_add(a, b, |tile: TileView| !leaving.takes(tile));
    Seq::filter_distributes_over_add(a, b, |tile: TileView| leaving.takes(tile));
    assert(taken_down(a + b, leaving) =~= taken_down(a, leaving) + taken_down(b, leaving));
}

/// The window shows a tile for each that was opened, in their order.
pub proof fn every_tile_is_seen(app: RoomApp)
    ensures
        app.tiles().len() == app.peers@.len(),
        forall|i: int| 0 <= i < app.peers@.len() ==> #[trigger] app.tiles()[i] == app.peers@[i]@,
{
}

/// The scrollback shows every line, in the order they were said.
pub proof fn every_line_is_seen(chat: ChatState)
    ensures
        chat.said().len() == chat.lines@.len(),
        forall|i: int| 0 <= i < chat.lines@.len() ==> #[trigger] chat.said()[i] == chat.lines@[i]@,
{
}

} // verus!
