//! What sidebars and hooks send to the daemon.

use vstd::bytes::u64_from_le_bytes;
use vstd::bytes::u64_to_le_bytes;
use vstd::prelude::*;

use crate::runtime;

verus! {

/// Kind byte of a request for the snapshot.
pub const REQUEST_SNAPSHOT: u8 = 1;

/// Kind byte of the news that the snapshot is outdated.
pub const REQUEST_INVALIDATE: u8 = 2;

/// What a sidebar or a hook asks of the daemon.
#[derive(Clone, Copy, Debug, PartialEq, Eq, Structural)]
pub enum Request {
    /// The snapshot, unless it is still the one of this generation.
    Snapshot { generation: u64 },
    /// To take the snapshot for outdated.
    Invalidate,
}

/// A request on the wire: the protocol, its kind, and eight bytes that hold the
/// generation with the most significant byte first, or zeros.
pub open spec fn encoded(request: Request) -> Seq<u8> {
    match request {
        Request::Snapshot { generation } => seq![runtime::PROTOCOL_VERSION, REQUEST_SNAPSHOT]
            + vstd::bytes::spec_u64_to_le_bytes(generation).reverse(),
        Request::Invalidate => seq![runtime::PROTOCOL_VERSION, REQUEST_INVALIDATE] + seq![
            0u8,
            0u8,
            0u8,
            0u8,
            0u8,
            0u8,
            0u8,
            0u8,
        ],
    }
}

/// The request that ten bytes hold, if they are of this protocol.
pub open spec fn decoded(bytes: Seq<u8>) -> Option<Request> {
    if bytes.len() != 10 || bytes[0] != runtime::PROTOCOL_VERSION {
        None
    } else if bytes[1] == REQUEST_SNAPSHOT {
        Some(
            Request::Snapshot {
                generation: vstd::bytes::spec_u64_from_le_bytes(bytes.skip(2).reverse()),
            },
        )
    } else if bytes[1] == REQUEST_INVALIDATE {
        Some(Request::Invalidate)
    } else {
        None
    }
}

/// Writes a request.
pub fn encode_request(request: Request) -> (bytes: Vec<u8>)
    ensures
        bytes@ == encoded(request),
        bytes@.len() == 10,
{
    let mut bytes: Vec<u8> = Vec::new();
    bytes.push(runtime::PROTOCOL_VERSION);
    match request {
        Request::Snapshot { generation } => {
            bytes.push(REQUEST_SNAPSHOT);
            let least_first = u64_to_le_bytes(generation);
            for i in 0..8usize
                invariant
                    least_first@.len() == 8,
                    bytes@ == seq![runtime::PROTOCOL_VERSION, REQUEST_SNAPSHOT]
                        + least_first@.reverse().take(i as int),
            {
                bytes.push(least_first[7 - i]);
            }
            assert(least_first@.reverse().take(8) == least_first@.reverse());
        },
        Request::Invalidate => {
            bytes.push(REQUEST_INVALIDATE);
            for i in 0..8usize
                invariant
                    bytes@ == seq![runtime::PROTOCOL_VERSION, REQUEST_INVALIDATE] + seq![
                        0u8,
                        0u8,
                        0u8,
                        0u8,
                        0u8,
                        0u8,
                        0u8,
                        0u8,
                    ].take(i as int),
            {
                bytes.push(0);
            }
        },
    }
    bytes
}

/// Reads a request.
pub fn decode_request(bytes: &[u8]) -> (request: Option<Request>)
    ensures
        request == decoded(bytes@),
{
    if bytes.len() != 10 || bytes[0] != runtime::PROTOCOL_VERSION {
        return None;
    }
    let kind: u8 = bytes[1];
    if kind == REQUEST_SNAPSHOT {
        let mut least_first: Vec<u8> = Vec::new();
        for i in 0..8usize
            invariant
                bytes@.len() == 10,
                least_first@ == bytes@.skip(2).reverse().take(i as int),
        {
            least_first.push(bytes[9 - i]);
        }
        assert(least_first@ == bytes@.skip(2).reverse());
        Some(Request::Snapshot { generation: u64_from_le_bytes(least_first.as_slice()) })
    } else if kind == REQUEST_INVALIDATE {
        Some(Request::Invalidate)
    } else {
        None
    }
}

/// A request arrives as it was sent.
pub proof fn requests_round_trip(request: Request)
    ensures
        decoded(encoded(request)) == Some(request),
        encoded(request).len() == 10,
{
    vstd::bytes::lemma_auto_spec_u64_to_from_le_bytes();
    if let Request::Snapshot { generation } = request {
        let least_first = vstd::bytes::spec_u64_to_le_bytes(generation);
        assert(encoded(request).skip(2).reverse() =~= least_first);
    }
}

/// A request of another protocol is never answered.
pub proof fn foreign_requests_are_refused(bytes: Seq<u8>)
    requires
        bytes.len() > 0,
        bytes[0] != runtime::PROTOCOL_VERSION,
    ensures
        decoded(bytes) is None,
{
}

/// A request has ten bytes: the version of the protocol, what is asked for, and
/// the generation, its highest byte first; it is zero where there is none.
pub proof fn requests_are_written_highest_byte_first(generation: u64, i: int)
    ensures
        ({
            let snapshot = encoded(Request::Snapshot { generation });
            let outdated = encoded(Request::Invalidate);
            &&& snapshot.len() == 10 && outdated.len() == 10
            &&& snapshot[0] == 2 && outdated[0] == 2
            &&& snapshot[1] == 1 && outdated[1] == 2
            &&& snapshot[2] == ((generation >> 56) & 0xff) as u8
            &&& snapshot[3] == ((generation >> 48) & 0xff) as u8
            &&& snapshot[4] == ((generation >> 40) & 0xff) as u8
            &&& snapshot[5] == ((generation >> 32) & 0xff) as u8
            &&& snapshot[6] == ((generation >> 24) & 0xff) as u8
            &&& snapshot[7] == ((generation >> 16) & 0xff) as u8
            &&& snapshot[8] == ((generation >> 8) & 0xff) as u8
            &&& snapshot[9] == (generation & 0xff) as u8
            &&& 2 <= i < 10 ==> outdated[i] == 0
        }),
{
    vstd::bytes::spec_u64_to_le_bytes_to_open(generation);
}

/// Bytes of another length, of another version or that ask for anything else are
/// no request.
pub proof fn only_known_requests_are_read(bytes: Seq<u8>)
    ensures
        decoded(bytes) is Some ==> bytes.len() == 10 && bytes[0] == 2 && (bytes[1] == 1 || bytes[1]
            == 2),
        bytes.len() == 10 && bytes[0] == 2 && bytes[1] == 2 ==> decoded(bytes) == Some(
            Request::Invalidate,
        ),
        bytes.len() == 10 && bytes[0] == 2 && bytes[1] == 1 ==> decoded(bytes) is Some && encoded(
            decoded(bytes)->0,
        ) == bytes,
{
    vstd::bytes::lemma_auto_spec_u64_to_from_le_bytes();
    if bytes.len() == 10 && bytes[0] == 2 && bytes[1] == 1 {
        let tail = bytes.skip(2).reverse();
        assert(tail.len() == 8);
        assert(tail.reverse() =~= bytes.skip(2));
        assert(encoded(decoded(bytes)->0) =~= bytes);
    }
}

} // verus!
