//! The process-duplication handshake's wire format and its loop decision.
//! The protocol exchanges single 4-byte little-endian words over a pipe: the
//! child repeatedly announces readiness with a zero word and polls for an
//! acknowledgement; the parent, once it has opened the child's namespace
//! file, acknowledges by sending the child's own process id, upon which the
//! child exits. The pipe I/O itself stays with the caller; this module fixes
//! what the words mean.

use vstd::prelude::*;
use vstd::bytes::{
    lemma_auto_spec_u32_to_from_le_bytes, spec_u32_from_le_bytes, spec_u32_to_le_bytes,
    u32_from_le_bytes, u32_to_le_bytes,
};

verus! {

/// The word a child writes to announce that its namespace is ready.
pub const READY_WORD: u32 = 0;

/// What the handshake child does after polling one acknowledgement word.
#[derive(Clone, Copy, Debug, PartialEq, Eq, Structural)]
pub enum HandshakeStep {
    SendReady,
    Exit,
}

/// Encodes one handshake word as the 4 little-endian bytes written to the
/// pipe.
pub fn encode_word(v: u32) -> (r: Vec<u8>)
    ensures
        r@ == spec_u32_to_le_bytes(v),
        r@.len() == 4,
{
    proof {
        lemma_auto_spec_u32_to_from_le_bytes();
    }
    u32_to_le_bytes(v)
}

/// Decodes the 4 bytes read from the pipe into one handshake word.
pub fn decode_word(b: &[u8]) -> (r: u32)
    requires
        b@.len() == 4,
    ensures
        r == spec_u32_from_le_bytes(b@),
{
    u32_from_le_bytes(b)
}

/// Round-trip law: decoding an encoded handshake word gives the word back,
/// so a pid sent through the pipe arrives unaltered.
pub proof fn lemma_word_round_trip(v: u32)
    ensures
        spec_u32_from_le_bytes(spec_u32_to_le_bytes(v)) == v,
{
    lemma_auto_spec_u32_to_from_le_bytes();
    assert(spec_u32_to_le_bytes(v).len() == 4);
}

/// The child's loop decision: it exits only on reading its own process id,
/// and otherwise keeps itself — and with it its namespace — alive by
/// announcing readiness again.
pub fn child_handshake_step(my_pid: u32, word: u32) -> (r: HandshakeStep)
    ensures
        r == (if word == my_pid {
            HandshakeStep::Exit
        } else {
            HandshakeStep::SendReady
        }),
{
    if word == my_pid {
        HandshakeStep::Exit
    } else {
        HandshakeStep::SendReady
    }
}

} // verus!
