//! Endpoints: who a peer is, and where it was last seen.

use vstd::prelude::*;

use crate::encoding;
use crate::text;

verus! {

/// Whether 32 bytes are the compressed form of a point on the signing curve,
/// which is what an endpoint's identity is.
pub uninterp spec fn is_endpoint_id(bytes: Seq<u8>) -> bool;

/// The id in a postcard-encoded endpoint address, if the bytes are one.
pub uninterp spec fn address_id(bytes: Seq<u8>) -> Option<Seq<u8>>;

/// Reads an id with `iroh::EndpointId::from_bytes`.
///
/// It succeeds for some byte strings and fails for others, by the bytes alone,
/// and an id that was read holds the very bytes it was read from.
#[verifier::external_body]
fn endpoint_id_bytes(bytes: &[u8; 32]) -> (r: Option<[u8; 32]>)
    ensures
        match r {
            Some(id) => is_endpoint_id(bytes@) && id@ == bytes@,
            None => !is_endpoint_id(bytes@),
        },
{
    iroh::EndpointId::from_bytes(bytes).ok().map(|id| *id.as_bytes())
}

/// Reads an `iroh::EndpointAddr` with `postcard::from_bytes` and keeps its id.
///
/// Whether that succeeds, and with which id, follows from the bytes. An address
/// starts with the 32 bytes of its id, which have to be a valid one, and spends
/// at least one more byte on its list of addresses.
#[verifier::external_body]
fn postcard_address_id(bytes: &[u8]) -> (r: Option<[u8; 32]>)
    ensures
        match r {
            Some(id) => {
                &&& address_id(bytes@) == Some(id@)
                &&& bytes@.len() > 32
                &&& id@ == bytes@.take(32)
                &&& is_endpoint_id(id@)
            },
            None => address_id(bytes@) is None,
        },
{
    postcard::from_bytes::<iroh::EndpointAddr>(bytes).ok().map(|addr| *addr.id.as_bytes())
}

/// Writes an id with the `Display` of `iroh::EndpointId`: lowercase
/// hexadecimal. Bytes that are no id have none.
#[verifier::external_body]
fn endpoint_id_text(bytes: &[u8; 32]) -> (r: String)
    requires
        is_endpoint_id(bytes@),
    ensures
        r@ == encoding::hex(bytes@),
{
    iroh::EndpointId::from_bytes(bytes).expect("a valid id").to_string()
}

/// Writes an id with `iroh::EndpointId::fmt_short`: the first five bytes in
/// lowercase hexadecimal.
#[verifier::external_body]
fn endpoint_id_short_text(bytes: &[u8; 32]) -> (r: String)
    requires
        is_endpoint_id(bytes@),
    ensures
        r@ == encoding::hex(bytes@.take(5)),
{
    iroh::EndpointId::from_bytes(bytes).expect("a valid id").fmt_short().to_string()
}

/// The identity of an endpoint: a valid public key.
#[derive(Debug, Clone, Copy, PartialEq, Eq)]
pub struct EndpointId {
    bytes: [u8; 32],
}

impl View for EndpointId {
    type V = Seq<u8>;

    closed spec fn view(&self) -> Seq<u8> {
        self.bytes@
    }
}

impl EndpointId {
    #[verifier::type_invariant]
    spec fn valid(self) -> bool {
        is_endpoint_id(self.bytes@)
    }

    /// Every id is 32 bytes that name a valid key.
    pub fn as_bytes(&self) -> (r: &[u8; 32])
        ensures
            r@ == self@,
            is_endpoint_id(self@),
    {
        proof {
            use_type_invariant(self);
        }
        &self.bytes
    }

    /// Reads an id from its 32 bytes, or nothing if they name no valid key.
    pub fn from_bytes(bytes: &[u8; 32]) -> (r: Option<EndpointId>)
        ensures
            match r {
                Some(id) => is_endpoint_id(bytes@) && id@ == bytes@,
                None => !is_endpoint_id(bytes@),
            },
    {
        match endpoint_id_bytes(bytes) {
            Some(id) => Some(EndpointId { bytes: id }),
            None => None,
        }
    }

    /// The id as lowercase hexadecimal.
    pub fn to_text(&self) -> (r: String)
        ensures
            r@ == encoding::hex(self@),
    {
        proof {
            use_type_invariant(self);
        }
        endpoint_id_text(&self.bytes)
    }

    /// The start of the id as lowercase hexadecimal, for people to read.
    pub fn fmt_short(&self) -> (r: String)
        ensures
            r@ == encoding::hex(self@.take(5)),
    {
        proof {
            use_type_invariant(self);
        }
        endpoint_id_short_text(&self.bytes)
    }

    /// Whether two ids are the same.
    pub fn same(&self, other: &EndpointId) -> (r: bool)
        ensures
            r == (self@ == other@),
    {
        let mut i: usize = 0;
        while i < 32
            invariant
                i <= 32,
                forall|j: int| 0 <= j < i ==> self.bytes@[j] == other.bytes@[j],
            decreases 32 - i,
        {
            if self.bytes[i] != other.bytes[i] {
                assert(self@[i as int] != other@[i as int]);
                return false;
            }
            i = i + 1;
        }
        assert(self@ =~= other@);
        true
    }
}

/// An endpoint and the addresses it is known to answer at, written out.
///
/// An empty list is how to say "look this one up".
#[derive(Debug, PartialEq, Eq)]
pub struct EndpointAddr {
    /// Who the endpoint is.
    pub id: EndpointId,
    /// Where it was last seen.
    pub addrs: Vec<String>,
}

impl Clone for EndpointAddr {
    fn clone(&self) -> (r: EndpointAddr)
        ensures
            r.id == self.id,
            text::views(r.addrs@) == text::views(self.addrs@),
            r.addrs@.len() == self.addrs@.len(),
    {
        let addrs = text::clone_all(&self.addrs);
        assert(text::views(addrs@).len() == addrs@.len());
        assert(text::views(self.addrs@).len() == self.addrs@.len());
        EndpointAddr { id: self.id, addrs }
    }
}

impl EndpointAddr {
    /// An endpoint to be looked up by its id alone.
    pub fn new(id: EndpointId) -> (r: EndpointAddr)
        ensures
            r.id == id,
            r.addrs@.len() == 0,
    {
        EndpointAddr { id, addrs: Vec::new() }
    }
}

/// Why bytes name no endpoint.
#[derive(Debug, Clone, Copy, PartialEq, Eq, Structural)]
pub enum IdError {
    /// 32 bytes, but not those of a valid key.
    InvalidId,
    /// Some other number of bytes, and not an endpoint address either.
    InvalidAddr,
}

/// The id in the bytes that a ticket carries: 32 bytes are the id itself, any
/// other number has to be an endpoint address, of which the id is kept.
pub open spec fn id_in(bytes: Seq<u8>) -> Result<Seq<u8>, IdError> {
    if bytes.len() == 32 {
        if is_endpoint_id(bytes) {
            Ok(bytes)
        } else {
            Err(IdError::InvalidId)
        }
    } else {
        match address_id(bytes) {
            Some(id) => Ok(id),
            None => Err(IdError::InvalidAddr),
        }
    }
}

/// Reads the endpoint id out of the bytes that a ticket carries.
pub fn decode_endpoint_id(bytes: &[u8]) -> (r: Result<EndpointId, IdError>)
    ensures
        match r {
            Ok(id) => id_in(bytes@) == Ok::<Seq<u8>, IdError>(id@) && is_endpoint_id(id@) && bytes@.len()
                >= 32 && id@ == bytes@.take(32),
            Err(e) => id_in(bytes@) == Err::<Seq<u8>, IdError>(e),
        },
        bytes@.len() == 32 && is_endpoint_id(bytes@) ==> (r matches Ok(id) && id@ == bytes@),
        bytes@.len() == 32 && !is_endpoint_id(bytes@) ==> (r matches Err(e) && e is InvalidId),
        bytes@.len() != 32 && address_id(bytes@) is Some ==> (r matches Ok(id) && Some(id@)
            == address_id(bytes@)),
        bytes@.len() != 32 && address_id(bytes@) is None ==> (r matches Err(e) && e is InvalidAddr),
{
    if bytes.len() == 32 {
        let mut id: [u8; 32] = [0u8; 32];
        let mut i: usize = 0;
        while i < 32
            invariant
                i <= 32,
                bytes@.len() == 32,
                forall|j: int| 0 <= j < i ==> id@[j] == bytes@[j],
            decreases 32 - i,
        {
            id[i] = bytes[i];
            i = i + 1;
        }
        assert(id@ =~= bytes@);
        assert(bytes@.take(32) =~= bytes@);
        match EndpointId::from_bytes(&id) {
            Some(id) => Ok(id),
            None => Err(IdError::InvalidId),
        }
    } else {
        match postcard_address_id(bytes) {
            Some(id) => Ok(EndpointId { bytes: id }),
            None => Err(IdError::InvalidAddr),
        }
    }
}

} // verus!
