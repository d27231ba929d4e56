//! Deciding whether a datagram originated from this host, so that the
//! relay's own transmissions, received back over a shared broadcast
//! domain, are not relayed again in an endless loop.
//!
//! The check works by probing: the caller binds a throwaway UDP socket to
//! the wildcard address of the source's family (see
//! [`IpAddress::wildcard_of_family`]), connects it toward the source
//! address — which sends nothing — and reads back the local address the
//! operating system chose for that association. The decision itself is
//! pure and lives here: the source is ours exactly when the chosen local
//! IP equals the source IP. Any probe failure counts as "not ours", so a
//! failure can only relay too much, never drop a genuine wake request.

use vstd::prelude::*;
use crate::{IpAddress, SocketAddress};

verus! {

/// Whether a probe outcome identifies the source address as this host's
/// own: the probe succeeded and the local IP the OS chose to reach the
/// source is the source's IP itself. Ports play no part.
pub open spec fn spec_is_our_ip(source: SocketAddress, probed_local: Option<
    SocketAddress,
>) -> bool {
    match probed_local {
        Some(local) => local.ip == source.ip,
        None => false,
    }
}

/// Checks if an address is our own machine.
///
/// `probed_local` is the local address of a throwaway socket connected
/// toward `source`, or nothing if that probe failed at any stage.
pub fn is_our_ip(source: &SocketAddress, probed_local: &Option<SocketAddress>) -> (r: bool)
    ensures
        r == spec_is_our_ip(*source, *probed_local),
{
    match probed_local {
        Some(local) => local.ip == source.ip,
        None => false,
    }
}

/// Self-filter symmetry: a source whose probe reports the source's own IP
/// as the local one is classified as this host; a source whose probe
/// reports a different IP, or whose probe failed, never is.
pub proof fn lemma_self_filter_symmetry(source: SocketAddress, probed_local: Option<
    SocketAddress,
>)
    ensures
        spec_is_our_ip(source, probed_local) <==> (probed_local matches Some(local)
            && local.ip == source.ip),
{
}

} // verus!
