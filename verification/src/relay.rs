//! The rules of the relay server that need no network: what a URL asks for, what
//! a file is served as, and where the relay keeps its identity.

use vstd::prelude::*;
use vstd::string::*;

use crate::endpoint;
use crate::text;
use crate::ticket;
use crate::ticket::{LiveTicket, TicketError, TicketView};

verus! {

/// The extension of a path as the relay's file server takes it.
fn extension<'a>(path: &'a str) -> (r: &'a str)
    ensures
        r@ == text::after_last(path@, '.'),
{
    let len: usize = path.unicode_len();
    let mut at: usize = len;
    while at > 0 && path.get_char(at - 1) != '.'
        invariant
            len == path@.len(),
            at <= len,
            forall|i: int| at <= i < len ==> path@[i] != '.',
        ensures
            at <= len,
            forall|i: int| at <= i < len ==> path@[i] != '.',
            at > 0 ==> path@[at - 1] == '.',
        decreases at,
    {
        at = at - 1;
    }
    proof {
        text::lemma_after_last(path@, '.', at as int);
        assert(path@.subrange(at as int, len as int) =~= path@.skip(at as int));
    }
    path.substring_char(at, len)
}

/// The media type of a file with this extension.
pub open spec fn media_type(extension: Seq<char>) -> Seq<char> {
    if extension == "html"@ {
        "text/html; charset=utf-8"@
    } else if extension == "js"@ {
        "application/javascript; charset=utf-8"@
    } else if extension == "css"@ {
        "text/css; charset=utf-8"@
    } else if extension == "json"@ {
        "application/json"@
    } else if extension == "wasm"@ {
        "application/wasm"@
    } else if extension == "svg"@ {
        "image/svg+xml"@
    } else if extension == "png"@ {
        "image/png"@
    } else if extension == "ico"@ {
        "image/x-icon"@
    } else {
        "application/octet-stream"@
    }
}

/// The media type that a file is served as, by what follows the last dot of its
/// path.
pub fn mime_from_path(path: &str) -> (r: &'static str)
    ensures
        r@ == media_type(text::after_last(path@, '.')),
        text::after_last(path@, '.') == "html"@ ==> r@ == "text/html; charset=utf-8"@,
        text::after_last(path@, '.') == "js"@ ==> r@ == "application/javascript; charset=utf-8"@,
        text::after_last(path@, '.') == "css"@ ==> r@ == "text/css; charset=utf-8"@,
        text::after_last(path@, '.') == "json"@ ==> r@ == "application/json"@,
        text::after_last(path@, '.') == "wasm"@ ==> r@ == "application/wasm"@,
        text::after_last(path@, '.') == "svg"@ ==> r@ == "image/svg+xml"@,
        text::after_last(path@, '.') == "png"@ ==> r@ == "image/png"@,
        text::after_last(path@, '.') == "ico"@ ==> r@ == "image/x-icon"@,
        text::after_last(path@, '.') != "html"@
            && text::after_last(path@, '.') != "js"@
            && text::after_last(path@, '.') != "css"@
            && text::after_last(path@, '.') != "json"@
            && text::after_last(path@, '.') != "wasm"@
            && text::after_last(path@, '.') != "svg"@
            && text::after_last(path@, '.') != "png"@
            && text::after_last(path@, '.') != "ico"@ ==> r@ == "application/octet-stream"@,
{
    let extension = extension(path);
    proof {
        reveal_strlit("html");
        reveal_strlit("js");
        reveal_strlit("css");
        reveal_strlit("json");
        reveal_strlit("wasm");
        reveal_strlit("svg");
        reveal_strlit("png");
        reveal_strlit("ico");
        assert("html"@[0] == 'h');
        assert("css"@[0] == 'c');
        assert("json"@[0] == 'j' && "json"@.len() == 4 && "js"@.len() == 2);
        assert("wasm"@[0] == 'w');
        assert("svg"@[0] == 's');
        assert("png"@[0] == 'p');
        assert("ico"@[0] == 'i');
    }
    if text::same(extension, "html") {
        "text/html; charset=utf-8"
    } else if text::same(extension, "js") {
        "application/javascript; charset=utf-8"
    } else if text::same(extension, "css") {
        "text/css; charset=utf-8"
    } else if text::same(extension, "json") {
        "application/json"
    } else if text::same(extension, "wasm") {
        "application/wasm"
    } else if text::same(extension, "svg") {
        "image/svg+xml"
    } else if text::same(extension, "png") {
        "image/png"
    } else if text::same(extension, "ico") {
        "image/x-icon"
    } else {
        "application/octet-stream"
    }
}

/// The broadcast name in the path of a URL: what follows its first character,
/// which is the leading slash, or some other character of one byte. A path of a
/// single character names nothing.
pub fn name_from_url_path(path: &str) -> (r: Option<String>)
    requires
        path@.len() > 0 ==> (path@[0] as u32) < 128,
    ensures
        match r {
            Some(name) => path@.len() > 1 && name@ == path@.skip(1),
            None => path@.len() <= 1,
        },
{
    let len: usize = path.unicode_len();
    if len > 1 {
        proof {
            assert(path@.subrange(1, len as int) =~= path@.skip(1));
        }
        Some(path.substring_char(1, len).to_owned())
    } else {
        None
    }
}

/// The ticket that a URL's path asks the relay to pull, if it names one.
///
/// A name that happens to parse as a ticket is a pull request; anything else is
/// an ordinary broadcast name that the relay already knows or does not.
pub fn ticket_from_url_path(path: &str) -> (r: Option<LiveTicket>)
    requires
        path@.len() > 0 ==> (path@[0] as u32) < 128,
    ensures
        match r {
            Some(t) => path@.len() > 1 && ticket::read(path@.skip(1)) == Ok::<
                TicketView,
                TicketError,
            >(t@) && t.endpoint.addrs@.len() == 0,
            None => path@.len() <= 1 || ticket::read(path@.skip(1)) is Err,
        },
{
    match name_from_url_path(path) {
        Some(name) => match LiveTicket::deserialize(name.as_str()) {
            Ok(t) => Some(t),
            Err(_) => None,
        },
        None => None,
    }
}

/// A ticket in the path of a URL is pulled as that ticket, whatever slashes its
/// name holds.
pub proof fn ticket_urls_are_pulled(t: TicketView)
    requires
        t.id.len() == 32,
        t.name.len() > 0 ==> !text::is_space(t.name.last()),
    ensures
        endpoint::is_endpoint_id(t.id) ==> ticket::read((seq!['/'] + ticket::uri(t)).skip(1))
            == Ok::<TicketView, TicketError>(t),
{
    assert((seq!['/'] + ticket::uri(t)).skip(1) =~= ticket::uri(t));
    ticket::serialized_tickets_read_back(t);
}

/// A name without a slash or an `@` is an ordinary broadcast name, not a ticket.
pub proof fn plain_names_are_not_tickets(name: Seq<char>)
    requires
        forall|i: int| 0 <= i < name.len() ==> name[i] != '/' && name[i] != '@',
    ensures
        ticket::read(name) is Err,
{
    let s = text::trimmed(name);
    let t = name.skip(text::leading(name) as int);
    text::lemma_leading_fits(name);
    text::lemma_trailing_fits(t);
    assert forall|i: int| 0 <= i < s.len() implies s[i] != '/' && s[i] != '@' by {
        assert(s[i] == name[i + text::leading(name)]);
    }
    text::lemma_before(s, '@', s.len() as int);
    text::lemma_before(s, '/', s.len() as int);
    if text::has_prefix(s, ticket::scheme()) {
        let rest = s.skip(ticket::scheme().len() as int);
        assert forall|i: int| 0 <= i < rest.len() implies rest[i] != '/' by {
            assert(rest[i] == s[i + ticket::scheme().len()]);
        }
        text::lemma_before(rest, '/', rest.len() as int);
    }
}

/// Where the relay keeps its identity, within its data directory.
pub fn iroh_secret_key_file() -> (r: &'static str)
    ensures
        r@ == "iroh_secret_key"@,
{
    "iroh_secret_key"
}

/// Reads the relay's identity from what its file holds: exactly 32 bytes.
///
/// Losing the identity renames the relay and strands every ticket that anyone
/// is holding, so a file that cannot be read is an error rather than a reason
/// for a new one.
pub fn secret_key_from_file(bytes: &[u8]) -> (r: Option<[u8; 32]>)
    ensures
        match r {
            Some(key) => key@ == bytes@,
            None => bytes@.len() != 32,
        },
{
    if bytes.len() != 32 {
        return None;
    }
    let mut key: [u8; 32] = [0u8; 32];
    let mut i: usize = 0;
    while i < 32
        invariant
            i <= 32,
            bytes@.len() == 32,
            forall|j: int| 0 <= j < i ==> key@[j] == bytes@[j],
        decreases 32 - i,
    {
        key[i] = bytes[i];
        i = i + 1;
    }
    assert(key@ =~= bytes@);
    Some(key)
}

/// Which address the HTTP server binds: the one that was asked for, or the one
/// the QUIC server ended up on when the two were asked to share.
pub fn http_bind<A>(shared: bool, http: A, quic: A) -> (r: A)
    ensures
        r == (if shared {
            quic
        } else {
            http
        }),
{
    if shared {
        quic
    } else {
        http
    }
}

/// What answers a request for the certificate: its fingerprint, or nothing where
/// there is no certificate.
pub fn fingerprint(fingerprints: &Vec<String>) -> (r: String)
    ensures
        r@ == (if fingerprints@.len() > 0 {
            fingerprints@[0]@
        } else {
            Seq::empty()
        }),
{
    if fingerprints.len() > 0 {
        fingerprints[0].clone()
    } else {
        String::new()
    }
}

/// The media type that a file is served with, or `None` where there is no such
/// file and the answer is that it was not found.
pub fn served_as(path: &str, found: bool) -> (r: Option<&'static str>)
    ensures
        match r {
            Some(mime) => found && mime@ == media_type(text::after_last(path@, '.')),
            None => !found,
        },
{
    if found {
        Some(mime_from_path(path))
    } else {
        None
    }
}

/// What the relay prints once it listens: the port for programs to read, and the
/// two addresses for people.
pub fn listening_lines(http_port: u16, quic_port: u16) -> (r: Vec<String>)
    ensures
        text::views(r@) == seq![
            "http port: "@ + text::decimal(http_port as nat),
            "iroh-live relay listening at http://localhost:"@ + text::decimal(http_port as nat),
            "iroh-live relay listening at https://localhost:"@ + text::decimal(quic_port as nat),
        ],
{
    let http = text::decimal_text(http_port as u64);
    let quic = text::decimal_text(quic_port as u64);
    let r = vec![
        text::join2("http port: ", http.as_str()),
        text::join2("iroh-live relay listening at http://localhost:", http.as_str()),
        text::join2("iroh-live relay listening at https://localhost:", quic.as_str()),
    ];
    assert(text::views(r@) =~= seq![
        "http port: "@ + text::decimal(http_port as nat),
        "iroh-live relay listening at http://localhost:"@ + text::decimal(http_port as nat),
        "iroh-live relay listening at https://localhost:"@ + text::decimal(quic_port as nat),
    ]);
    r
}

} // verus!
