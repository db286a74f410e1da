//! Tickets that carry everything a subscriber needs to reach a broadcast.
//!
//! A [`LiveTicket`] is a publisher's endpoint id and the name of one of its
//! broadcasts, in a form that survives a chat message or a QR code. Addresses
//! are deliberately absent: they are looked up from the id, and a list of them
//! would only make for a denser code that is harder to scan.

use std::str::FromStr;

use vstd::prelude::*;
use vstd::string::*;
use vstd::utf8::*;

use crate::encoding;
use crate::endpoint;
use crate::endpoint::{decode_endpoint_id, EndpointAddr, EndpointId, IdError};
use crate::text;

verus! {

/// The scheme of a ticket's URI.
pub open spec fn scheme() -> Seq<char> {
    "iroh-live:"@
}

/// What a ticket says: a valid endpoint id and a broadcast name.
pub struct TicketView {
    /// The 32 bytes of the publisher's id.
    pub id: Seq<u8>,
    /// The broadcast's name.
    pub name: Seq<char>,
}

/// All that tells one ticket from another.
pub struct TicketKey {
    /// What it says.
    pub says: TicketView,
    /// The addresses beside it.
    pub addrs: Seq<Seq<char>>,
}

/// Ticket for subscribing to a live broadcast.
///
/// Written as a URI: `iroh-live:<base64url(endpoint id)>/<name>`.
#[derive(Debug, PartialEq, Eq)]
pub struct LiveTicket {
    /// The publisher's endpoint, holding its id and no addresses.
    pub endpoint: EndpointAddr,
    /// The broadcast name to subscribe to.
    pub broadcast_name: String,
}

impl View for LiveTicket {
    type V = TicketView;

    open spec fn view(&self) -> TicketView {
        TicketView { id: self.endpoint.id@, name: self.broadcast_name@ }
    }
}

impl Clone for LiveTicket {
    fn clone(&self) -> (r: LiveTicket)
        ensures
            r@ == self@,
            r.full() == self.full(),
            r.endpoint.addrs@.len() == self.endpoint.addrs@.len(),
    {
        LiveTicket {
            endpoint: self.endpoint.clone(),
            broadcast_name: self.broadcast_name.clone(),
        }
    }
}

/// What is wrong with a text that was meant as a ticket.
#[derive(Debug, Clone, Copy, PartialEq, Eq, Structural)]
pub enum TicketFault {
    /// A URI without the slash that ends its id.
    MissingSeparator,
    /// The id of a URI is not base64url.
    InvalidBase64,
    /// The address of the oldest form is not base32.
    InvalidBase32,
    /// The bytes are as long as an id and are none.
    InvalidEndpointId,
    /// The bytes are neither an id nor an endpoint address.
    InvalidEndpointAddr,
}

/// Why a text is not a ticket.
#[derive(Debug, Clone, Copy, PartialEq, Eq, Structural)]
pub struct TicketError {
    /// What is wrong with it.
    pub fault: TicketFault,
    /// Whether the text carried neither mark of a ticket, the scheme and the
    /// `@`, and was read as a bare URI for want of anything better.
    pub unmarked: bool,
}

/// The text of a ticket.
pub open spec fn uri(t: TicketView) -> Seq<char> {
    scheme() + encoding::base64url(t.id) + seq!['/'] + t.name
}

/// What is wrong with the bytes that a ticket carries.
pub open spec fn id_fault(e: IdError) -> TicketFault {
    match e {
        IdError::InvalidId => TicketFault::InvalidEndpointId,
        IdError::InvalidAddr => TicketFault::InvalidEndpointAddr,
    }
}

/// The ticket for `name` whose id is in `bytes`.
pub open spec fn ticket_of(bytes: Seq<u8>, name: Seq<char>) -> Result<TicketView, TicketFault> {
    match endpoint::id_in(bytes) {
        Ok(id) => Ok(TicketView { id, name }),
        Err(e) => Err(id_fault(e)),
    }
}

/// Whether a text is short enough to be decoded.
pub open spec fn decodable(s: Seq<char>) -> bool {
    encode_utf8(s).len() <= encoding::decodable_len()
}

/// A ticket from what follows the scheme: the id up to the first slash, and the
/// name after it.
pub open spec fn read_uri(rest: Seq<char>) -> Result<TicketView, TicketFault> {
    match text::split_at_first(rest, '/') {
        None => Err(TicketFault::MissingSeparator),
        Some((id, name)) => match encoding::base64url_bytes(id) {
            Some(bytes) if decodable(id) => ticket_of(bytes, name),
            _ => Err(TicketFault::InvalidBase64),
        },
    }
}

/// A ticket in the oldest form: the name up to the first `@`, and an endpoint
/// address in base32 after it.
pub open spec fn read_legacy(s: Seq<char>) -> Result<TicketView, TicketFault> {
    match text::split_at_first(s, '@') {
        None => read_uri(s),
        Some((name, addr)) => match encoding::base32_bytes(addr) {
            Some(bytes) if decodable(addr) => ticket_of(bytes, name),
            _ => Err(TicketFault::InvalidBase32),
        },
    }
}

/// The ticket in a text, with the white space around it left out.
pub open spec fn read(s: Seq<char>) -> Result<TicketView, TicketError> {
    let s = text::trimmed(s);
    let read = if text::has_prefix(s, scheme()) {
        read_uri(s.skip(scheme().len() as int))
    } else {
        read_legacy(s)
    };
    match read {
        Ok(t) => Ok(t),
        Err(fault) => Err(
            TicketError {
                fault,
                unmarked: !text::has_prefix(s, scheme()) && text::split_at_first(s, '@') is None,
            },
        ),
    }
}

/// A ticket from the bytes it carries and its name.
fn assemble(bytes: &[u8], name: &str) -> (r: Result<LiveTicket, TicketFault>)
    ensures
        match r {
            Ok(t) => ticket_of(bytes@, name@) == Ok::<TicketView, TicketFault>(t@)
                && t.endpoint.addrs@.len() == 0 && endpoint::is_endpoint_id(t@.id),
            Err(e) => ticket_of(bytes@, name@) == Err::<TicketView, TicketFault>(e),
        },
{
    match decode_endpoint_id(bytes) {
        Ok(id) => Ok(LiveTicket::new(id, name.to_owned())),
        Err(IdError::InvalidId) => Err(TicketFault::InvalidEndpointId),
        Err(IdError::InvalidAddr) => Err(TicketFault::InvalidEndpointAddr),
    }
}

impl LiveTicket {
    /// Creates a new ticket for `broadcast_name` on the endpoint `endpoint_id`.
    pub fn new(endpoint_id: EndpointId, broadcast_name: String) -> (r: LiveTicket)
        ensures
            r.endpoint.id == endpoint_id,
            r.endpoint.addrs@.len() == 0,
            r.broadcast_name == broadcast_name,
            r@ == (TicketView { id: endpoint_id@, name: broadcast_name@ }),
    {
        LiveTicket { endpoint: EndpointAddr::new(endpoint_id), broadcast_name }
    }

    /// Returns the publisher's endpoint id.
    pub fn endpoint_id(&self) -> (r: EndpointId)
        ensures
            r == self.endpoint.id,
            r@ == self@.id,
    {
        self.endpoint.id
    }

    /// All that a ticket holds: what it says, and the addresses beside it.
    pub open spec fn full(self) -> TicketKey {
        TicketKey { says: self@, addrs: text::views(self.endpoint.addrs@) }
    }

    /// Whether two tickets lead to the same broadcast by the same addresses.
    pub open spec fn equals(self, other: LiveTicket) -> bool {
        self.full() == other.full()
    }

    /// Whether two tickets lead to the same broadcast by the same addresses.
    pub fn same(&self, other: &LiveTicket) -> (r: bool)
        ensures
            r == self.equals(*other),
    {
        proof {
            assert(self@ == other@ <==> self@.id == other@.id && self@.name == other@.name);
        }
        self.endpoint.id.same(&other.endpoint.id) && text::same(
            self.broadcast_name.as_str(),
            other.broadcast_name.as_str(),
        ) && text::same_lists(&self.endpoint.addrs, &other.endpoint.addrs)
    }

    /// Serializes to a URI string: `iroh-live:<endpoint id>/<name>`
    pub fn serialize(&self) -> (r: String)
        ensures
            r@ == uri(self@),
    {
        let id = encoding::encode_base64url(self.endpoint.id.as_bytes());
        let mut r = "iroh-live:".to_owned();
        r.append(id.as_str());
        r.append("/");
        r.append(self.broadcast_name.as_str());
        proof {
            reveal_strlit("/");
            assert("/"@ =~= seq!['/']);
        }
        r
    }

    /// Deserializes from a URI string.
    ///
    /// Also accepts the two shapes that came before: a URI whose payload is an
    /// endpoint address rather than a bare id, and the older `name@base32`
    /// form. Neither keeps its addresses.
    pub fn deserialize(s: &str) -> (r: Result<LiveTicket, TicketError>)
        ensures
            match r {
                Ok(t) => read(s@) == Ok::<TicketView, TicketError>(t@) && t.endpoint.addrs@.len()
                    == 0 && endpoint::is_endpoint_id(t@.id),
                Err(e) => read(s@) == Err::<TicketView, TicketError>(e),
            },
    {
        let s = text::trim(s);
        match text::strip_prefix(s, "iroh-live:") {
            Some(rest) => match LiveTicket::deserialize_url(rest) {
                Ok(t) => Ok(t),
                Err(fault) => Err(TicketError { fault, unmarked: false }),
            },
            None => match text::split_once(s, '@') {
                Some((name, addr)) => match LiveTicket::deserialize_legacy(name, addr) {
                    Ok(t) => Ok(t),
                    Err(fault) => Err(TicketError { fault, unmarked: false }),
                },
                None => match LiveTicket::deserialize_url(s) {
                    Ok(t) => Ok(t),
                    Err(fault) => Err(TicketError { fault, unmarked: true }),
                },
            },
        }
    }

    fn deserialize_url(rest: &str) -> (r: Result<LiveTicket, TicketFault>)
        ensures
            match r {
                Ok(t) => read_uri(rest@) == Ok::<TicketView, TicketFault>(t@)
                    && t.endpoint.addrs@.len() == 0 && endpoint::is_endpoint_id(t@.id),
                Err(e) => read_uri(rest@) == Err::<TicketView, TicketFault>(e),
            },
    {
        let (id, name) = match text::split_once(rest, '/') {
            Some(halves) => halves,
            None => return Err(TicketFault::MissingSeparator),
        };
        if id.as_bytes().len() > usize::MAX / 8 {
            return Err(TicketFault::InvalidBase64);
        }
        match encoding::decode_base64url(id) {
            Some(bytes) => {
                proof {
                    encoding::base64url_reads_back(bytes@);
                }
                assemble(bytes.as_slice(), name)
            },
            None => Err(TicketFault::InvalidBase64),
        }
    }

    fn deserialize_legacy(name: &str, addr: &str) -> (r: Result<LiveTicket, TicketFault>)
        ensures
            match r {
                Ok(t) => {
                    &&& encoding::base32_bytes(addr@) matches Some(bytes)
                    &&& decodable(addr@)
                    &&& ticket_of(bytes, name@) == Ok::<TicketView, TicketFault>(t@)
                    &&& t.endpoint.addrs@.len() == 0
                    &&& endpoint::is_endpoint_id(t@.id)
                },
                Err(e) => match encoding::base32_bytes(addr@) {
                    Some(bytes) if decodable(addr@) => ticket_of(bytes, name@) == Err::<
                        TicketView,
                        TicketFault,
                    >(e),
                    _ => e == TicketFault::InvalidBase32,
                },
            },
    {
        if addr.as_bytes().len() > usize::MAX / 8 {
            return Err(TicketFault::InvalidBase32);
        }
        match encoding::decode_base32(addr) {
            Some(bytes) => {
                proof {
                    let c = choose|c: Seq<u8>|
                        #[trigger] encoding::base32(c) == text::ascii_uppercase(addr@);
                    assert(encoding::base32(bytes@) == text::ascii_uppercase(addr@));
                    encoding::base32_injective(c, bytes@);
                }
                assemble(bytes.as_slice(), name)
            },
            None => Err(TicketFault::InvalidBase32),
        }
    }
}

impl FromStr for LiveTicket {
    type Err = TicketError;

    /// Reads a ticket as [`LiveTicket::deserialize`] does.
    fn from_str(s: &str) -> (r: Result<LiveTicket, TicketError>)
        ensures
            match r {
                Ok(t) => read(s@) == Ok::<TicketView, TicketError>(t@) && t.endpoint.addrs@.len()
                    == 0 && endpoint::is_endpoint_id(t@.id),
                Err(e) => read(s@) == Err::<TicketView, TicketError>(e),
            },
    {
        LiveTicket::deserialize(s)
    }
}


impl TicketError {
    /// The error in words.
    pub open spec fn text(self) -> Seq<char> {
        if self.unmarked {
            "invalid ticket: expected iroh-live: URI or legacy name@addr format"@
        } else {
            match self.fault {
                TicketFault::MissingSeparator => "invalid ticket URI: missing / separator"@,
                TicketFault::InvalidBase64 => "invalid base64url in ticket"@,
                TicketFault::InvalidBase32 => "invalid base32"@,
                TicketFault::InvalidEndpointId => "invalid endpoint id in ticket"@,
                TicketFault::InvalidEndpointAddr => "invalid endpoint address in ticket"@,
            }
        }
    }

    /// The error in words.
    pub fn message(&self) -> (r: &'static str)
        ensures
            r@ == self.text(),
            r@ == (if self.unmarked {
                "invalid ticket: expected iroh-live: URI or legacy name@addr format"@
            } else {
                match self.fault {
                    TicketFault::MissingSeparator => "invalid ticket URI: missing / separator"@,
                    TicketFault::InvalidBase64 => "invalid base64url in ticket"@,
                    TicketFault::InvalidBase32 => "invalid base32"@,
                    TicketFault::InvalidEndpointId => "invalid endpoint id in ticket"@,
                    TicketFault::InvalidEndpointAddr => "invalid endpoint address in ticket"@,
                }
            }),
    {
        if self.unmarked {
            return "invalid ticket: expected iroh-live: URI or legacy name@addr format";
        }
        match self.fault {
            TicketFault::MissingSeparator => "invalid ticket URI: missing / separator",
            TicketFault::InvalidBase64 => "invalid base64url in ticket",
            TicketFault::InvalidBase32 => "invalid base32",
            TicketFault::InvalidEndpointId => "invalid endpoint id in ticket",
            TicketFault::InvalidEndpointAddr => "invalid endpoint address in ticket",
        }
    }
}

/// The UTF-8 form of ASCII text has one byte to a character.
proof fn lemma_ascii_utf8_len(s: Seq<char>)
    requires
        text::all_ascii(s),
    ensures
        encode_utf8(s).len() == s.len(),
    decreases s.len(),
{
    if s.len() > 0 {
        assert forall|i: int| 0 <= i < s.drop_first().len() implies (s.drop_first()[i] as u32)
            < 128 by {
            assert(s.drop_first()[i] == s[i + 1]);
        }
        lemma_ascii_utf8_len(s.drop_first());
        assert(encode_scalar(s[0] as u32).len() == 1);
    }
}

/// The UTF-8 form of two joined texts is as long as theirs together.
proof fn lemma_utf8_len_add(a: Seq<char>, b: Seq<char>)
    ensures
        encode_utf8(a + b).len() == encode_utf8(a).len() + encode_utf8(b).len(),
    decreases a.len(),
{
    if a.len() == 0 {
        assert(a + b =~= b);
    } else {
        lemma_utf8_len_add(a.drop_first(), b);
        assert((a + b).drop_first() =~= a.drop_first() + b);
        assert((a + b)[0] == a[0]);
    }
}

/// A ticket's URI as what the reader takes apart.
proof fn lemma_read_written(bytes: Seq<u8>, name: Seq<char>)
    requires
        name.len() > 0 ==> !text::is_space(name.last()),
        decodable(encoding::base64url(bytes)),
    ensures
        read(scheme() + encoding::base64url(bytes) + seq!['/'] + name) == (match ticket_of(
            bytes,
            name,
        ) {
            Ok(t) => Ok::<TicketView, TicketError>(t),
            Err(fault) => Err(TicketError { fault, unmarked: false }),
        }),
{
    reveal_strlit("iroh-live:");
    let id = encoding::base64url(bytes);
    let s = scheme() + id + seq!['/'] + name;
    let rest = id + seq!['/'] + name;
    encoding::lemma_base64url_alphabet(bytes);
    encoding::lemma_base64url(bytes);
    assert(s[0] == 'i');
    assert(s.last() == if name.len() > 0 { name.last() } else { '/' });
    text::lemma_trimmed_same(s);
    assert(s.take(scheme().len() as int) =~= scheme());
    assert(s.skip(scheme().len() as int) =~= rest);
    text::lemma_split_joined(id, '/', name);
    encoding::base64url_reads_back(bytes);
}

/// A ticket reads back from its own text as the ticket it was, for every valid
/// endpoint id and every name that does not end in white space, which the
/// reader would trim away.
pub proof fn serialized_tickets_read_back(t: TicketView)
    requires
        t.id.len() == 32,
        t.name.len() > 0 ==> !text::is_space(t.name.last()),
    ensures
        endpoint::is_endpoint_id(t.id) ==> read(uri(t)) == Ok::<TicketView, TicketError>(t),
{
    encoding::lemma_base64url_alphabet(t.id);
    encoding::lemma_base64url(t.id);
    lemma_ascii_utf8_len(encoding::base64url(t.id));
    lemma_read_written(t.id, t.name);
}

/// White space around a ticket's text makes no difference to what it says.
pub proof fn space_around_a_ticket_is_ignored(before: Seq<char>, t: TicketView, after: Seq<char>)
    requires
        t.id.len() == 32,
        t.name.len() > 0 ==> !text::is_space(t.name.last()),
        forall|i: int| 0 <= i < before.len() ==> text::is_space(before[i]),
        forall|i: int| 0 <= i < after.len() ==> text::is_space(after[i]),
    ensures
        read(before + uri(t) + after) == read(uri(t)),
{
    reveal_strlit("iroh-live:");
    let u = uri(t);
    assert(u[0] == 'i');
    assert(u.last() == if t.name.len() > 0 { t.name.last() } else { '/' });
    text::lemma_trimmed_around(before, u, after);
    text::lemma_trimmed_same(u);
}

/// A ticket is the scheme, 43 characters of id, a slash and the name: 54 bytes
/// more than its name, whatever addresses the publisher has.
pub proof fn ticket_length(t: TicketView)
    requires
        t.id.len() == 32,
    ensures
        uri(t).len() == 54 + t.name.len(),
        encode_utf8(uri(t)).len() == 54 + encode_utf8(t.name).len(),
{
    reveal_strlit("iroh-live:");
    encoding::lemma_base64url_alphabet(t.id);
    encoding::lemma_base64url(t.id);
    let front = scheme() + encoding::base64url(t.id) + seq!['/'];
    lemma_ascii_utf8_len(front);
    lemma_utf8_len_add(front, t.name);
}

/// A URI that still carries an endpoint address reads as a ticket for the id in
/// that address, and one whose bytes are neither an id nor an address is
/// refused for that.
pub proof fn older_uris_still_read(bytes: Seq<u8>, name: Seq<char>)
    requires
        decodable(encoding::base64url(bytes)),
        name.len() > 0 ==> !text::is_space(name.last()),
    ensures
        read(scheme() + encoding::base64url(bytes) + seq!['/'] + name) == (match ticket_of(
            bytes,
            name,
        ) {
            Ok(t) => Ok::<TicketView, TicketError>(t),
            Err(fault) => Err(TicketError { fault, unmarked: false }),
        }),
{
    lemma_read_written(bytes, name);
}

/// The oldest form, a name and an endpoint address in base32 of either case,
/// reads as a ticket for the id in that address.
pub proof fn legacy_tickets_still_read(name: Seq<char>, bytes: Seq<u8>)
    requires
        decodable(encoding::base32(bytes)),
        forall|i: int| 0 <= i < name.len() ==> name[i] != '@',
        name.len() > 0 ==> !text::is_space(name[0]),
        !text::has_prefix(name, scheme()),
    ensures
        ({
            let read_back = match ticket_of(bytes, name) {
                Ok(t) => Ok::<TicketView, TicketError>(t),
                Err(fault) => Err(TicketError { fault, unmarked: false }),
            };
            &&& read(name + seq!['@'] + encoding::base32(bytes)) == read_back
            &&& read(name + seq!['@'] + text::ascii_lowercase(encoding::base32(bytes)))
                == read_back
        }),
{
    encoding::base32_reads_back(bytes);
    encoding::lemma_base32_alphabet(bytes);
    lemma_ascii_utf8_len(encoding::base32(bytes));
    lemma_ascii_utf8_len(text::ascii_lowercase(encoding::base32(bytes)));
    lemma_read_legacy(name, encoding::base32(bytes));
    lemma_read_legacy(name, text::ascii_lowercase(encoding::base32(bytes)));
}

/// A text in the oldest form as what the reader takes apart.
proof fn lemma_read_legacy(name: Seq<char>, addr: Seq<char>)
    requires
        decodable(addr),
        forall|i: int|
            0 <= i < addr.len() ==> !text::is_space(#[trigger] addr[i]) && addr[i] != ':',
        forall|i: int| 0 <= i < name.len() ==> name[i] != '@',
        name.len() > 0 ==> !text::is_space(name[0]),
        !text::has_prefix(name, scheme()),
    ensures
        read(name + seq!['@'] + addr) == (match encoding::base32_bytes(addr) {
            Some(bytes) => match ticket_of(bytes, name) {
                Ok(t) => Ok::<TicketView, TicketError>(t),
                Err(fault) => Err(TicketError { fault, unmarked: false }),
            },
            None => Err(TicketError { fault: TicketFault::InvalidBase32, unmarked: false }),
        }),
{
    reveal_strlit("iroh-live:");
    let s = name + seq!['@'] + addr;
    assert(s.last() == if addr.len() > 0 { addr.last() } else { '@' });
    assert(s[0] == if name.len() > 0 { name[0] } else { '@' });
    text::lemma_trimmed_same(s);
    assert(!text::has_prefix(s, scheme())) by {
        if text::has_prefix(s, scheme()) {
            assert forall|i: int| 0 <= i < 10 implies s[i] == scheme()[i] by {
                assert(s.take(10)[i] == scheme()[i]);
            }
            if name.len() < 10 {
                assert(s[name.len() as int] == '@');
                assert(scheme()[name.len() as int] == '@');
            } else {
                assert(name.take(10) =~= scheme());
            }
        }
    }
    text::lemma_split_joined(name, '@', addr);
}

/// A ticket is written as the scheme `iroh-live:`, its id in base64url, a slash and its
/// name, and so no two tickets are written alike.
pub proof fn tickets_are_written_apart(a: TicketView, b: TicketView)
    requires
        a.id.len() == 32,
        b.id.len() == 32,
    ensures
        uri(a) == "iroh-live:"@ + encoding::base64url(a.id) + seq!['/'] + a.name,
        uri(a) == uri(b) ==> a == b,
{
    reveal_strlit("iroh-live:");
    if uri(a) == uri(b) {
        let (x, y) = (encoding::base64url(a.id), encoding::base64url(b.id));
        encoding::lemma_base64url(a.id);
        encoding::lemma_base64url(b.id);
        assert(x.len() == 43 && y.len() == 43);
        assert(x =~= y) by {
            assert forall|i: int| 0 <= i < 43 implies x[i] == y[i] by {
                assert(uri(a)[10 + i] == x[i]);
                assert(uri(b)[10 + i] == y[i]);
            }
        }
        assert(a.name =~= b.name) by {
            assert(uri(a).skip(54) =~= a.name);
            assert(uri(b).skip(54) =~= b.name);
        }
        encoding::base64url_injective(a.id, b.id);
    }
}

/// What a URI that reads as a ticket says: the bytes of its id stand in base64url before
/// its first slash, and its name is all that follows, slashes and all. One without a
/// slash, or without base64url before it, is refused for that.
pub proof fn uris_say_what_they_carry(rest: Seq<char>)
    ensures
        match read_uri(rest) {
            Ok(t) => exists|id: Seq<char>, bytes: Seq<u8>|
                {
                    &&& rest == #[trigger] (id + seq!['/'] + t.name)
                    &&& forall|i: int| 0 <= i < id.len() ==> id[i] != '/'
                    &&& #[trigger] encoding::base64url(bytes) == id
                    &&& endpoint::id_in(bytes) == Ok::<Seq<u8>, IdError>(t.id)
                },
            Err(fault) => fault == TicketFault::MissingSeparator <==> forall|i: int|
                0 <= i < rest.len() ==> rest[i] != '/',
        },
{
    text::splits_are_at_the_first(rest, '/');
    match text::split_at_first(rest, '/') {
        Some((id, name)) => {
            assert(rest[id.len() as int] == '/');
            if read_uri(rest) is Ok {
                let bytes = encoding::base64url_bytes(id)->0;
                assert(encoding::base64url(bytes) == id);
                assert(rest == id + seq!['/'] + read_uri(rest)->Ok_0.name);
            }
        },
        None => {},
    }
}

/// Two tickets are the same where they lead to one broadcast of one endpoint by the same
/// addresses, in the same order.
pub proof fn tickets_are_told_apart(a: LiveTicket, b: LiveTicket)
    ensures
        a.equals(b) <==> {
            &&& a.endpoint.id@ == b.endpoint.id@
            &&& a.broadcast_name@ == b.broadcast_name@
            &&& a.endpoint.addrs@.len() == b.endpoint.addrs@.len()
            &&& forall|i: int|
                0 <= i < a.endpoint.addrs@.len() ==> (#[trigger] a.endpoint.addrs@[i])@
                    == b.endpoint.addrs@[i]@
        },
{
    let (x, y) = (text::views(a.endpoint.addrs@), text::views(b.endpoint.addrs@));
    assert(x.len() == a.endpoint.addrs@.len() && y.len() == b.endpoint.addrs@.len());
    if a.equals(b) {
        assert forall|i: int| 0 <= i < a.endpoint.addrs@.len() implies (
        #[trigger] a.endpoint.addrs@[i])@ == b.endpoint.addrs@[i]@ by {
            assert(x[i] == y[i]);
        }
    }
    if a.endpoint.addrs@.len() == b.endpoint.addrs@.len() && (forall|i: int|
        0 <= i < a.endpoint.addrs@.len() ==> (#[trigger] a.endpoint.addrs@[i])@
            == b.endpoint.addrs@[i]@) {
        assert(x =~= y);
    }
}

/// A text that carries neither mark of a ticket is refused as such, and any other by
/// what is wrong with it: so a refusal is unmarked exactly where there is no scheme in
/// front and no `@` in the text.
pub proof fn refusals_tell_what_was_read(s: Seq<char>)
    requires
        read(s) is Err,
    ensures
        read(s)->Err_0.unmarked <==> {
            let t = text::trimmed(s);
            &&& !(exists|rest: Seq<char>| t == #[trigger] ("iroh-live:"@ + rest))
            &&& forall|i: int| 0 <= i < t.len() ==> t[i] != '@'
        },
{
    let t = text::trimmed(s);
    reveal_strlit("iroh-live:");
    text::splits_are_at_the_first_text(t, "iroh-live:"@);
    text::splits_are_at_the_first(t, '@');
    if text::split_at_first(t, '@') is Some {
        let (a, b) = text::split_at_first(t, '@')->0;
        assert(t[a.len() as int] == '@');
    }
}

/// A text in the oldest form that reads as a ticket says its name before its first `@`,
/// and after it, in base32 of either case, the bytes of its address; one without base32
/// there is refused for that.
pub proof fn older_texts_say_what_they_carry(name: Seq<char>, addr: Seq<char>)
    requires
        forall|i: int| 0 <= i < name.len() ==> name[i] != '@',
    ensures
        match read_legacy(name + seq!['@'] + addr) {
            Ok(t) => t.name == name && exists|bytes: Seq<u8>|
                #[trigger] encoding::base32(bytes) == text::ascii_uppercase(addr)
                    && endpoint::id_in(bytes) == Ok::<Seq<u8>, IdError>(t.id),
            Err(fault) => fault == TicketFault::InvalidBase32 || exists|bytes: Seq<u8>|
                #[trigger] encoding::base32(bytes) == text::ascii_uppercase(addr) && (
                endpoint::id_in(bytes) == Err::<Seq<u8>, IdError>(IdError::InvalidId) && fault
                    == TicketFault::InvalidEndpointId || endpoint::id_in(bytes) == Err::<
                    Seq<u8>,
                    IdError,
                >(IdError::InvalidAddr) && fault == TicketFault::InvalidEndpointAddr),
        },
        read_legacy(name + seq!['@'] + addr) == Err::<TicketView, TicketFault>(
            TicketFault::InvalidBase32,
        ) <==> (forall|bytes: Seq<u8>| #[trigger]
            encoding::base32(bytes) != text::ascii_uppercase(addr)) || encode_utf8(addr).len()
            > usize::MAX / 8,
{
    text::lemma_split_joined(name, '@', addr);
    if exists|b: Seq<u8>| #[trigger] encoding::base32(b) == text::ascii_uppercase(addr) {
        let bytes = encoding::base32_bytes(addr)->0;
        assert(encoding::base32(bytes) == text::ascii_uppercase(addr));
    }
}

/// Which form a text is read in: after its mark as a URI, without one but with an `@` in
/// the oldest form, and otherwise as a URI whose mark was left out. What is wrong with it
/// is told as it was found.
pub proof fn texts_are_read_by_their_form(s: Seq<char>, rest: Seq<char>)
    ensures
        text::trimmed(s) == "iroh-live:"@ + rest ==> match read_uri(rest) {
            Ok(t) => read(s) == Ok::<TicketView, TicketError>(t),
            Err(fault) => read(s) == Err::<TicketView, TicketError>(
                TicketError { fault, unmarked: false },
            ),
        },
        !text::has_prefix(text::trimmed(s), "iroh-live:"@) && text::trimmed(s).contains('@')
            ==> match read_legacy(text::trimmed(s)) {
            Ok(t) => read(s) == Ok::<TicketView, TicketError>(t),
            Err(fault) => read(s) == Err::<TicketView, TicketError>(
                TicketError { fault, unmarked: false },
            ),
        },
        !text::has_prefix(text::trimmed(s), "iroh-live:"@) && !text::trimmed(s).contains('@')
            ==> match read_uri(text::trimmed(s)) {
            Ok(t) => read(s) == Ok::<TicketView, TicketError>(t),
            Err(fault) => read(s) == Err::<TicketView, TicketError>(
                TicketError { fault, unmarked: true },
            ),
        },
{
    let t = text::trimmed(s);
    reveal_strlit("iroh-live:");
    text::splits_are_at_the_first_text(t, "iroh-live:"@);
    text::splits_are_at_the_first(t, '@');
    if text::split_at_first(t, '@') is Some {
        let (a, b) = text::split_at_first(t, '@')->0;
        assert(t[a.len() as int] == '@');
    } else if t.contains('@') {
        let i = choose|i: int| 0 <= i < t.len() && t[i] == '@';
        assert(t[i] == '@');
    }
    if t == "iroh-live:"@ + rest {
        assert(t.skip("iroh-live:"@.len() as int) =~= rest);
    }
}

/// What a URI is refused for: no slash, no base64url before it, or bytes that are no
/// endpoint's.
pub proof fn refused_uris_are_told_why(id: Seq<char>, name: Seq<char>)
    requires
        forall|i: int| 0 <= i < id.len() ==> id[i] != '/',
    ensures
        read_uri(id) == Err::<TicketView, TicketFault>(TicketFault::MissingSeparator),
        read_uri(id + seq!['/'] + name) == Err::<TicketView, TicketFault>(
            TicketFault::InvalidBase64,
        ) <==> (forall|bytes: Seq<u8>| #[trigger] encoding::base64url(bytes) != id)
            || encode_utf8(id).len() > usize::MAX / 8,
        forall|bytes: Seq<u8>| #[trigger]
            encoding::base64url(bytes) == id && encode_utf8(id).len() <= usize::MAX / 8
                ==> match endpoint::id_in(bytes) {
                Ok(found) => read_uri(id + seq!['/'] + name) == Ok::<TicketView, TicketFault>(
                    TicketView { id: found, name },
                ),
                Err(IdError::InvalidId) => read_uri(id + seq!['/'] + name) == Err::<
                    TicketView,
                    TicketFault,
                >(TicketFault::InvalidEndpointId),
                Err(IdError::InvalidAddr) => read_uri(id + seq!['/'] + name) == Err::<
                    TicketView,
                    TicketFault,
                >(TicketFault::InvalidEndpointAddr),
            },
{
    text::lemma_split_joined(id, '/', name);
    text::lemma_before(id, '/', id.len() as int);
    assert forall|bytes: Seq<u8>| #[trigger] encoding::base64url(bytes)
        == id implies encoding::base64url_bytes(id) == Some(bytes) by {
        encoding::base64url_reads_back(bytes);
    }
    if exists|b: Seq<u8>| #[trigger] encoding::base64url(b) == id {
        let bytes = encoding::base64url_bytes(id)->0;
        assert(encoding::base64url(bytes) == id);
    }
}

} // verus!
