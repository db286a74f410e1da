//! Tickets, the encodings they are made of, and what a relay does with them.

use iroh_live::call::{disconnect_reason, Call, CloseReason, DisconnectReason};
use iroh_live::endpoint::{decode_endpoint_id, EndpointAddr, EndpointId, IdError};
use iroh_live::live::{GossipChoice, LiveBuilder};
use iroh_live::pull::{
    local_root, HolderAction, HolderEvent, PullOutcome, PullState,
};
use iroh_live::relay::{
    fingerprint, http_bind, iroh_secret_key_file, listening_lines, mime_from_path,
    name_from_url_path, secret_key_from_file, served_as, ticket_from_url_path,
};
use iroh_live::ticket::{LiveTicket, TicketFault};
use iroh_live::time::Duration;

fn test_endpoint_id() -> EndpointId {
    let key = iroh::SecretKey::generate().public();
    EndpointId::from_bytes(key.as_bytes()).expect("a public key is an id")
}

fn id(byte: u8) -> EndpointId {
    let key = iroh::SecretKey::from_bytes(&[byte; 32]).public();
    EndpointId::from_bytes(key.as_bytes()).expect("a public key is an id")
}

/// An endpoint address as a publisher on a multi-homed host reports it, in the
/// bytes that tickets used to carry.
fn encoded_endpoint_addr(id: &EndpointId) -> Vec<u8> {
    let id = iroh::EndpointId::from_bytes(id.as_bytes()).expect("an id");
    let mut addr = iroh::EndpointAddr::from(id);
    for port in 0..10u16 {
        addr = addr.with_ip_addr(format!("172.17.{port}.1:51923").parse().expect("valid"));
    }
    postcard::to_stdvec(&addr).expect("encode")
}

#[test]
fn round_trip() {
    let ticket = LiveTicket::new(test_endpoint_id(), "my-stream".to_string());
    let s = ticket.serialize();
    assert!(s.starts_with("iroh-live:"), "should start with scheme: {s}");
    assert!(s.ends_with("/my-stream"), "should end with /name: {s}");
    let parsed = LiveTicket::deserialize(&s).expect("parse");
    assert_eq!(parsed, ticket);
}

#[test]
fn display_fromstr_round_trip() {
    let ticket = LiveTicket::new(test_endpoint_id(), "test".to_string());
    let s = ticket.serialize();
    let parsed = s.parse::<LiveTicket>().expect("parse");
    assert_eq!(parsed, ticket);
}

#[test]
fn a_ticket_carries_no_addresses() {
    let ticket = LiveTicket::new(test_endpoint_id(), "my-stream".to_string());
    assert!(ticket.endpoint.addrs.is_empty());
    // 10 for the scheme, 43 for a base64url endpoint id, one separator.
    assert_eq!(ticket.serialize().len(), 10 + 43 + 1 + "my-stream".len());
}

#[test]
fn a_ticket_that_still_lists_addresses_parses_without_them() {
    // Those tickets keep working, minus their addresses: the id is what a
    // subscriber resolves from now.
    let id = test_endpoint_id();
    let encoded = data_encoding::BASE64URL_NOPAD.encode(&encoded_endpoint_addr(&id));
    let old = format!("iroh-live:{encoded}/my-stream");

    let parsed = LiveTicket::deserialize(&old).expect("parse the older format");
    assert_eq!(parsed.endpoint_id(), id);
    assert!(parsed.endpoint.addrs.is_empty());
    assert!(
        parsed.serialize().len() < old.len() / 2,
        "the point of the change: {} against {}",
        parsed.serialize().len(),
        old.len()
    );
}

#[test]
fn legacy_format_still_parses() {
    // The oldest format of all: name@BASE32(postcard(EndpointAddr)).
    let id = test_endpoint_id();
    let encoded =
        data_encoding::BASE32_NOPAD.encode(&encoded_endpoint_addr(&id)).to_ascii_lowercase();
    let legacy = format!("hello@{encoded}");

    let parsed = LiveTicket::deserialize(&legacy).expect("parse legacy");
    assert_eq!(parsed.broadcast_name, "hello");
    assert_eq!(parsed.endpoint_id(), id);
}

#[test]
fn rejects_garbage() {
    assert!(LiveTicket::deserialize("not-a-ticket").is_err());
}

#[test]
fn a_ticket_qr_stays_sparse() {
    // A QR code holds 84 bytes in 37 modules at the default error correction
    // level, and 37 modules is three pixels each on a 122 px e-paper panel.
    let ticket = LiveTicket::new(test_endpoint_id(), "my-stream-name".to_string());
    let s = ticket.serialize();
    assert!(s.len() <= 84, "ticket too long for a sparse QR: {}", s.len());
}

#[test]
fn ticket_round_trip() {
    let key = iroh::SecretKey::from_bytes(&[23u8; 32]);
    let id = EndpointId::from_bytes(key.public().as_bytes()).expect("an id");
    let ticket = LiveTicket::new(id, "test-stream".to_string());
    let ticket_str = ticket.serialize();

    let parsed = LiveTicket::deserialize(&ticket_str).expect("parse ticket");
    assert_eq!(parsed.broadcast_name, "test-stream");
    assert_eq!(parsed.endpoint, ticket.endpoint);
}

#[test]
fn reject_invalid_ticket() {
    let result = LiveTicket::deserialize("not-a-valid-ticket");
    assert!(result.is_err());
}

#[test]
fn non_ticket_name_does_not_parse() {
    // Regular broadcast names should NOT parse as tickets.
    let result = LiveTicket::deserialize("hello");
    assert!(result.is_err());
    let result = LiveTicket::deserialize("my-stream-360p");
    assert!(result.is_err());
}

#[test]
fn each_fault_has_its_message() {
    let message = |text: &str| LiveTicket::deserialize(text).unwrap_err().message();
    let fault = |text: &str| LiveTicket::deserialize(text).unwrap_err().fault;
    assert_eq!(message("iroh-live:abc"), "invalid ticket URI: missing / separator");
    assert_eq!(message("iroh-live:!!/name"), "invalid base64url in ticket");
    assert_eq!(message("name@!!!"), "invalid base32");
    assert_eq!(
        message("hello"),
        "invalid ticket: expected iroh-live: URI or legacy name@addr format"
    );
    // Thirty-two bytes that are no point of the curve.
    let bytes = bad_id();
    let text = data_encoding::BASE64URL_NOPAD.encode(&bytes);
    assert_eq!(fault(&format!("iroh-live:{text}/a")), TicketFault::InvalidEndpointId);
    let short = data_encoding::BASE64URL_NOPAD.encode(&[1u8, 2, 3]);
    assert_eq!(fault(&format!("iroh-live:{short}/a")), TicketFault::InvalidEndpointAddr);
}

/// Thirty-two bytes that are not an endpoint id.
fn bad_id() -> [u8; 32] {
    for byte in 0..=255u8 {
        let bytes = [byte; 32];
        if iroh::EndpointId::from_bytes(&bytes).is_err() {
            return bytes;
        }
    }
    unreachable!("half of all strings are no point of the curve")
}

#[test]
fn space_around_a_ticket_is_left_out() {
    let ticket = LiveTicket::new(id(3), "a".to_string());
    let padded = format!(" \u{2003}\n{}\t ", ticket.serialize());
    assert_eq!(LiveTicket::deserialize(&padded), Ok(ticket));
    // White space at the end of the name itself does not survive.
    let spaced = LiveTicket::new(id(3), "a ".to_string());
    let read = LiveTicket::deserialize(&spaced.serialize()).expect("parse");
    assert_eq!(read.broadcast_name, "a");
}

#[test]
fn a_name_may_hold_slashes_and_at_signs() {
    let ticket = LiveTicket::new(id(4), "calls/a@b/c".to_string());
    assert_eq!(LiveTicket::deserialize(&ticket.serialize()), Ok(ticket));
}

#[test]
fn tickets_differ_by_their_addresses_too() {
    let ticket = LiveTicket::new(id(5), "a".to_string());
    let mut other = ticket.clone();
    assert!(ticket.same(&other));
    other.endpoint.addrs.push("192.0.2.1:1".to_string());
    assert!(!ticket.same(&other));
    assert!(!ticket.same(&LiveTicket::new(id(6), "a".to_string())));
    assert!(!ticket.same(&LiveTicket::new(id(5), "b".to_string())));
}

#[test]
fn ids_are_written_as_hexadecimal() {
    let key = iroh::SecretKey::from_bytes(&[9; 32]).public();
    let id = EndpointId::from_bytes(key.as_bytes()).expect("an id");
    assert_eq!(id.to_text(), data_encoding::HEXLOWER.encode(key.as_bytes()));
    assert_eq!(id.to_text(), key.to_string());
    assert_eq!(id.fmt_short(), key.fmt_short().to_string());
    assert_eq!(id.fmt_short(), id.to_text()[..10]);
    assert!(EndpointId::from_bytes(&bad_id()).is_none());
    assert_eq!(decode_endpoint_id(id.as_bytes()), Ok(id));
    assert_eq!(decode_endpoint_id(&bad_id()), Err(IdError::InvalidId));
    assert_eq!(decode_endpoint_id(&[]), Err(IdError::InvalidAddr));
    assert!(EndpointAddr::new(id).addrs.is_empty());
}

#[test]
fn a_call_is_published_under_its_callers_id() {
    let caller = id(8);
    assert_eq!(Call::path(caller), format!("calls/{}", caller.to_text()));
    assert_ne!(Call::path(id(8)), Call::path(id(9)));
    assert_eq!(disconnect_reason(Some(CloseReason::LocallyClosed)), DisconnectReason::LocalClose);
    assert_eq!(
        disconnect_reason(Some(CloseReason::ApplicationClosed)),
        DisconnectReason::RemoteClose
    );
    assert_eq!(disconnect_reason(Some(CloseReason::Other)), DisconnectReason::TransportError);
    assert_eq!(disconnect_reason(None), DisconnectReason::RemoteClose);
}

#[test]
fn a_node_is_built_step_by_step() {
    let plain: LiveBuilder<u8, u8> = LiveBuilder::new(1);
    assert_eq!(plain.into_parts(), (1, GossipChoice::Disabled, false));
    let full: LiveBuilder<u8, u8> = LiveBuilder::new(1).with_gossip().with_router();
    assert_eq!(full.into_parts(), (1, GossipChoice::Internal, true));
    let given: LiveBuilder<u8, u8> = LiveBuilder::new(1).gossip(2);
    assert_eq!(given.into_parts(), (1, GossipChoice::External(2), false));
}

#[test]
fn a_relay_pulls_the_tickets_in_its_urls() {
    let ticket = LiveTicket::new(id(10), "a/b".to_string());
    let path = format!("/{}", ticket.serialize());
    assert_eq!(ticket_from_url_path(&path), Some(ticket));
    assert_eq!(ticket_from_url_path("/hello"), None);
    assert_eq!(ticket_from_url_path("/"), None);
    assert_eq!(name_from_url_path("/hello"), Some("hello".to_string()));
    assert_eq!(name_from_url_path("/"), None);
    assert_eq!(name_from_url_path(""), None);
}

#[test]
fn files_are_served_by_their_extension() {
    assert_eq!(mime_from_path("index.html"), "text/html; charset=utf-8");
    assert_eq!(mime_from_path("a.b/app.js"), "application/javascript; charset=utf-8");
    assert_eq!(mime_from_path("style.css"), "text/css; charset=utf-8");
    assert_eq!(mime_from_path("x.wasm"), "application/wasm");
    assert_eq!(mime_from_path("png"), "image/png");
    assert_eq!(mime_from_path("x.PNG"), "application/octet-stream");
    assert_eq!(served_as("x.svg", true), Some("image/svg+xml"));
    assert_eq!(served_as("x.svg", false), None);
    assert_eq!(fingerprint(&vec!["ab".to_string(), "cd".to_string()]), "ab");
    assert_eq!(fingerprint(&vec![]), "");
}

#[test]
fn a_relay_keeps_its_identity_in_thirty_two_bytes() {
    assert_eq!(iroh_secret_key_file(), "iroh_secret_key");
    assert_eq!(secret_key_from_file(&[7; 32]), Some([7; 32]));
    assert_eq!(secret_key_from_file(&[7; 31]), None);
    assert_eq!(secret_key_from_file(&[7; 33]), None);
    assert_eq!(http_bind(true, 1, 2), 2);
    assert_eq!(http_bind(false, 1, 2), 1);
    assert_eq!(
        listening_lines(4443, 65535),
        [
            "http port: 4443",
            "iroh-live relay listening at http://localhost:4443",
            "iroh-live relay listening at https://localhost:65535",
        ]
    );
}

#[test]
fn pulls_of_one_ticket_share_a_dial() {
    let ticket = LiveTicket::new(id(11), "a".to_string());
    let mut pulls = PullState::new();
    let (first, dials) = pulls.pull(&ticket);
    assert!(dials);
    let (second, again) = pulls.pull(&ticket);
    assert!(!again);
    assert_eq!(first.pull_id(), second.pull_id());
    assert!(matches!(pulls.outcome(&first), PullOutcome::Wait));
    pulls.dialed(first.pull_id(), Ok(()));
    assert!(matches!(pulls.outcome(&first), PullOutcome::Ready));
    assert!(matches!(pulls.outcome(&second), PullOutcome::Ready));
    let (other, dials) = pulls.pull(&LiveTicket::new(id(12), "a".to_string()));
    assert!(dials);
    assert_ne!(other.pull_id(), first.pull_id());
}

#[test]
fn a_failed_dial_is_not_joined_by_the_next_session() {
    let ticket = LiveTicket::new(id(11), "a".to_string());
    let mut pulls = PullState::new();
    let (guard, _) = pulls.pull(&ticket);
    pulls.dialed(guard.pull_id(), Err("no route".to_string()));
    match pulls.outcome(&guard) {
        PullOutcome::Failed(err) => {
            assert_eq!(err, format!("failed to pull {}: no route", ticket.serialize()));
        }
        other => panic!("not a failure: {other:?}"),
    }
    let (_, dials) = pulls.pull(&ticket);
    assert!(dials);
}

#[test]
fn a_pull_that_was_dropped_is_a_failure() {
    let ticket = LiveTicket::new(id(11), "a".to_string());
    let (guard, _) = PullState::new().pull(&ticket);
    match PullState::new().outcome(&guard) {
        PullOutcome::Failed(err) => assert_eq!(
            err,
            format!(
                "failed to pull {}: the pull was dropped before it connected",
                ticket.serialize()
            )
        ),
        other => panic!("not a failure: {other:?}"),
    }
}

#[test]
fn sessions_that_leave_stop_neither_the_dial_nor_the_others() {
    let ticket = LiveTicket::new(id(11), "a".to_string());
    let mut pulls = PullState::new();
    let (first, dials) = pulls.pull(&ticket);
    assert!(dials);
    let pull = first.pull_id();
    let (second, again) = pulls.pull(&ticket);
    assert!(!again);
    // The one that dials leaves, then everybody, and the dial is still joined.
    pulls.release(first);
    assert!(matches!(pulls.outcome(&second), PullOutcome::Wait));
    pulls.release(second);
    let (third, again) = pulls.pull(&ticket);
    assert!(!again);
    assert_eq!(third.pull_id(), pull);
    let (fourth, again) = pulls.pull(&ticket);
    assert!(!again);
    pulls.dialed(pull, Err("no route".to_string()));
    assert!(matches!(pulls.outcome(&third), PullOutcome::Failed(_)));
    assert!(matches!(pulls.outcome(&fourth), PullOutcome::Failed(_)));
    let (fifth, dials) = pulls.pull(&ticket);
    assert!(dials);
    assert_ne!(fifth.pull_id(), pull);
}

#[test]
fn a_quiet_pull_lingers_before_it_closes() {
    let ticket = LiveTicket::new(id(11), "a".to_string());
    let linger = Duration::from_secs(7);
    let mut pulls = PullState::new().with_linger(linger);
    let (guard, _) = pulls.pull(&ticket);
    let pull = guard.pull_id();
    pulls.dialed(pull, Ok(()));
    assert_eq!(pulls.hold(pull, HolderEvent::Look, true), HolderAction::AwaitUnclaimed);
    pulls.release(guard);
    assert_eq!(pulls.hold(pull, HolderEvent::Look, true), HolderAction::AwaitUnread);
    assert_eq!(pulls.hold(pull, HolderEvent::Look, false), HolderAction::Linger(linger));
    assert_eq!(pulls.hold(pull, HolderEvent::Lingered, true), HolderAction::AwaitUnread);
    assert_eq!(pulls.hold(pull, HolderEvent::Lingered, false), HolderAction::Close);
    let (_, dials) = pulls.pull(&ticket);
    assert!(dials, "a retired pull is not joined");
}

#[test]
fn a_mirror_lands_under_its_ticket() {
    let ticket = LiveTicket::new(id(11), "a/b".to_string());
    let text = ticket.serialize();
    assert_eq!(format!("{}/a/b", local_root(&text)), text);
    assert_eq!(local_root("plain"), "plain");
}
