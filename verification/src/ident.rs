//! Connection identifiers: eight random bytes, written as sixteen
//! hexadecimal digits.

use crate::chatsession::{ChatSession, ConnectionHandle, Session};
use rand::Rng;
use vstd::prelude::*;

verus! {

/// The lower-case hexadecimal digit for a value below sixteen.
pub open spec fn hex_digit(value: nat) -> char {
    if value == 0 {
        '0'
    } else if value == 1 {
        '1'
    } else if value == 2 {
        '2'
    } else if value == 3 {
        '3'
    } else if value == 4 {
        '4'
    } else if value == 5 {
        '5'
    } else if value == 6 {
        '6'
    } else if value == 7 {
        '7'
    } else if value == 8 {
        '8'
    } else if value == 9 {
        '9'
    } else if value == 10 {
        'a'
    } else if value == 11 {
        'b'
    } else if value == 12 {
        'c'
    } else if value == 13 {
        'd'
    } else if value == 14 {
        'e'
    } else {
        'f'
    }
}

/// Two hexadecimal digits for each byte, the high half first.
pub open spec fn hex(bytes: Seq<u8>) -> Seq<char> {
    Seq::new(
        2 * bytes.len(),
        |i: int|
            if i % 2 == 0 {
                hex_digit((bytes[i / 2] / 16) as nat)
            } else {
                hex_digit((bytes[i / 2] % 16) as nat)
            },
    )
}

/// Whether `c` is a lower-case hexadecimal digit.
pub open spec fn is_hex_digit(c: char) -> bool {
    exists|value: nat| value < 16 && c == hex_digit(value)
}

/// Whether `id` has the form of a connection identifier.
pub open spec fn is_connection_id(id: Seq<char>) -> bool {
    &&& id.len() == 16
    &&& forall|i: int| 0 <= i < id.len() ==> is_hex_digit(#[trigger] id[i])
}

/// Calls `hex::encode`, which writes each byte as two lower-case
/// hexadecimal digits, the high half first, and nothing else.
#[verifier::external_body]
fn hex_encode(bytes: &[u8; 8]) -> (text: String)
    ensures
        text@ == hex(bytes@),
{
    hex::encode(bytes)
}

/// Calls `rand::thread_rng` and draws eight bytes from it with `Rng::gen`.
/// Nothing is claimed of the bytes. The generator is seeded from the
/// operating system when a thread first uses it, and gives up if the
/// system has no entropy to offer.
#[verifier::external_body]
fn random_bytes() -> (bytes: [u8; 8])
{
    rand::thread_rng().gen()
}

/// The identifier that stands for the eight bytes.
pub fn connection_id(bytes: &[u8; 8]) -> (id: String)
    ensures
        id@ == hex(bytes@),
        is_connection_id(id@),
{
    let id = hex_encode(bytes);
    proof {
        assert forall|i: int| 0 <= i < id@.len() implies is_hex_digit(#[trigger] id@[i]) by {
            let byte = bytes@[i / 2];
            if i % 2 == 0 {
                assert((byte / 16) < 16 && id@[i] == hex_digit((byte / 16) as nat));
            } else {
                assert((byte % 16) < 16 && id@[i] == hex_digit((byte % 16) as nat));
            }
        }
    }
    id
}

/// A fresh identifier, drawn at random.
pub fn fresh_connection_id() -> (id: String)
    ensures
        is_connection_id(id@),
{
    let bytes = random_bytes();
    connection_id(&bytes)
}

/// The session of a connection that was accepted at the time `now` and is
/// reached under `addr`. Its identifier is drawn at random.
pub fn accept(addr: ConnectionHandle, now: u64) -> (session: ChatSession)
    ensures
        is_connection_id(session@.id),
        session@ == Session::opened(session@.id, addr, now),
{
    ChatSession::new(fresh_connection_id(), addr, now)
}

} // verus!
