use crate::token::{
    address_bytes, hmac_sha256, token_check, token_for, RetryAuthority, SourceAddress,
    MAX_CONN_ID_LEN,
};
use vstd::prelude::*;

verus! {

/// What the acceptor reads from the header of a packet that no tracked connection claims.
pub struct PacketHeader {
    /// The packet is an Initial handshake packet.
    pub is_initial: bool,
    /// The transport speaks the packet's version.
    pub version_supported: bool,
    /// The destination connection identifier that the client chose.
    pub dcid: Vec<u8>,
    /// The address validation token; empty when the client sent none.
    pub token: Vec<u8>,
}

/// What to do with such a packet.
pub enum AcceptAction {
    /// Drop the packet and send nothing.
    Drop,
    /// Answer with a version negotiation packet.
    NegotiateVersion,
    /// Answer with a retry packet that carries `token` and names `scid`; keep no state.
    Retry { scid: Vec<u8>, token: Vec<u8> },
    /// Create the connection, as `scid`, for the original destination `odcid`.
    Accept { scid: Vec<u8>, odcid: Vec<u8> },
}

/// Decides how the server answers a packet that no tracked connection claims. A packet
/// without a token is only ever challenged with a retry; a connection is created only for
/// a token that this authority minted for the packet's source.
pub fn decide(auth: &RetryAuthority, hdr: &PacketHeader, from: &SourceAddress) -> (r:
    AcceptAction)
    ensures
        !hdr.is_initial ==> r is Drop,
        hdr.is_initial && !hdr.version_supported ==> r is NegotiateVersion,
        hdr.is_initial && hdr.version_supported ==> match r {
            AcceptAction::Drop => hdr.dcid@.len() > MAX_CONN_ID_LEN || (hdr.token@.len() > 0 && (
            token_check(auth.token_key(), address_bytes(*from), hdr.token@) is None
                || hdr.dcid@.len() != MAX_CONN_ID_LEN)),
            AcceptAction::NegotiateVersion => false,
            AcceptAction::Retry { scid, token } => hdr.dcid@.len() <= MAX_CONN_ID_LEN
                && hdr.token@.len() == 0 && scid@ == hmac_sha256(
                auth.conn_id_key(),
                hdr.dcid@,
            ).subrange(0, MAX_CONN_ID_LEN as int) && token@ == token_for(
                auth.token_key(),
                address_bytes(*from),
                hdr.dcid@,
            ),
            AcceptAction::Accept { scid, odcid } => hdr.dcid@.len() == MAX_CONN_ID_LEN
                && hdr.token@.len() > 0 && token_check(
                auth.token_key(),
                address_bytes(*from),
                hdr.token@,
            ) == Some(odcid@) && scid@ == hdr.dcid@,
        },
{
    if !hdr.is_initial {
        return AcceptAction::Drop;
    }
    if !hdr.version_supported {
        return AcceptAction::NegotiateVersion;
    }
    if hdr.dcid.len() > MAX_CONN_ID_LEN {
        return AcceptAction::Drop;
    }
    if hdr.token.len() == 0 {
        let scid = auth.derive_connection_id(hdr.dcid.as_slice());
        let token = auth.mint_token(hdr.dcid.as_slice(), from);
        return AcceptAction::Retry { scid, token };
    }
    match auth.validate_token(from, hdr.token.as_slice()) {
        None => AcceptAction::Drop,
        Some(odcid) => {
            if hdr.dcid.len() != MAX_CONN_ID_LEN {
                AcceptAction::Drop
            } else {
                AcceptAction::Accept { scid: hdr.dcid.clone(), odcid }
            }
        },
    }
}

} // verus!
