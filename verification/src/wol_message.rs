//! The magic-packet wire format: six `0xff` synchronization bytes followed
//! by sixteen repetitions of the six-byte target hardware address, with an
//! optional trailing secure-on secret that the parser ignores.

use vstd::prelude::*;
use vstd::slice::{slice_index_get, slice_subrange};
use crate::MacAddress;

verus! {

/// Length of the synchronization header.
pub const WOL_HEADER_SIZE: usize = 6;

/// Length of a hardware address.
pub const WOL_MAC_SIZE: usize = 6;

/// Number of times the target address is repeated after the header.
pub const WOL_MAC_REPETITIONS: usize = 16;

/// Size of a magic packet without a trailing secret.
pub const WOL_MAX_SIZE: usize = WOL_HEADER_SIZE + WOL_MAC_SIZE * WOL_MAC_REPETITIONS;

/// The target address carried by a magic packet: the first six bytes after
/// the header.
pub open spec fn parsed_mac(s: Seq<u8>) -> Seq<u8> {
    s.subrange(6, 12)
}

/// The `k`-th of the sixteen six-byte repetitions that follow the header.
pub open spec fn repetition(s: Seq<u8>, k: int) -> Seq<u8> {
    s.subrange(6 + 6 * k, 12 + 6 * k)
}

/// A buffer is a magic packet when it is at least 102 bytes long, starts
/// with six `0xff` bytes, and the sixteen repetitions after the header are
/// all byte-identical. Bytes beyond the 102nd are ignored.
pub open spec fn is_magic_packet(s: Seq<u8>) -> bool {
    &&& s.len() >= 102
    &&& (forall|i: int| 0 <= i < 6 ==> s[i] == 0xff)
    &&& (forall|k: int| 0 <= k < 16 ==> #[trigger] repetition(s, k) == parsed_mac(s))
}

/// What parsing a buffer yields: the target address of a magic packet,
/// nothing otherwise.
pub open spec fn spec_parse(s: Seq<u8>) -> Option<Seq<u8>> {
    if is_magic_packet(s) {
        Some(parsed_mac(s))
    } else {
        None
    }
}

/// Split off the first `n` bytes of the buffer, advancing it past them;
/// a buffer shorter than `n` is left unchanged and yields nothing.
pub fn advance_buffer_by<'a>(msg: &mut &'a [u8], n: usize) -> (r: Option<&'a [u8]>)
    ensures
        n <= old(msg)@.len() ==> {
            &&& r matches Some(chunk)
            &&& chunk@ == old(msg)@.subrange(0, n as int)
            &&& final(msg)@ == old(msg)@.subrange(n as int, old(msg)@.len() as int)
        },
        n > old(msg)@.len() ==> r is None && final(msg)@ == old(msg)@,
{
    let cur: &'a [u8] = *msg;
    if n > cur.len() {
        return None;
    }
    let chunk = slice_subrange(cur, 0, n);
    *msg = slice_subrange(cur, n, cur.len());
    Some(chunk)
}

/// Parse one received datagram as a magic packet.
///
/// Yields the target address exactly when the buffer satisfies
/// [`is_magic_packet`]; anything else — too short, a corrupted header, or
/// repetitions that disagree — yields nothing. Trailing bytes after the
/// sixteenth repetition are ignored.
pub fn parse_wol_message(msg: &[u8]) -> (r: Option<MacAddress>)
    ensures
        r matches Some(m) ==> is_magic_packet(msg@) && m@ == parsed_mac(msg@),
        r is None ==> !is_magic_packet(msg@),
{
    let ghost s = msg@;
    let mut rest: &[u8] = msg;
    let header = match advance_buffer_by(&mut rest, WOL_HEADER_SIZE) {
        Some(h) => h,
        None => {
            return None;
        },
    };
    let mut i: usize = 0;
    while i < WOL_HEADER_SIZE
        invariant
            s == msg@,
            i <= 6,
            s.len() >= 6,
            header@ == s.subrange(0, 6),
            forall|t: int| 0 <= t < i ==> s[t] == 0xff,
        decreases 6 - i,
    {
        if *slice_index_get(header, i) != 0xff {
            proof {
                assert(s[i as int] != 0xff);
            }
            return None;
        }
        i += 1;
    }
    let mac_chunk = match advance_buffer_by(&mut rest, WOL_MAC_SIZE) {
        Some(c) => c,
        None => {
            return None;
        },
    };
    proof {
        assert(mac_chunk@ =~= s.subrange(6, 12));
    }
    let bytes: [u8; 6] = [
        *slice_index_get(mac_chunk, 0),
        *slice_index_get(mac_chunk, 1),
        *slice_index_get(mac_chunk, 2),
        *slice_index_get(mac_chunk, 3),
        *slice_index_get(mac_chunk, 4),
        *slice_index_get(mac_chunk, 5),
    ];
    proof {
        assert(bytes@ =~= parsed_mac(s));
        assert(rest@ =~= s.subrange(12, s.len() as int));
        assert(repetition(s, 0) == parsed_mac(s));
    }
    let mut k: usize = 1;
    while k < WOL_MAC_REPETITIONS
        invariant
            s == msg@,
            1 <= k <= 16,
            s.len() >= 6 + 6 * k,
            rest@ == s.subrange(6 + 6 * (k as int), s.len() as int),
            bytes@ == parsed_mac(s),
            forall|t: int| 0 <= t < k ==> #[trigger] repetition(s, t) == parsed_mac(s),
        decreases 16 - k,
    {
        let rep = match advance_buffer_by(&mut rest, WOL_MAC_SIZE) {
            Some(c) => c,
            None => {
                proof {
                    assert(s.len() < 102);
                }
                return None;
            },
        };
        proof {
            assert(rep@ =~= repetition(s, k as int));
            assert(rest@ =~= s.subrange(6 + 6 * (k as int + 1), s.len() as int));
        }
        let mut j: usize = 0;
        while j < WOL_MAC_SIZE
            invariant
                s == msg@,
                j <= 6,
                1 <= k < 16,
                s.len() >= 12 + 6 * k,
                rep@ == repetition(s, k as int),
                bytes@ == parsed_mac(s),
                forall|t: int| 0 <= t < j ==> repetition(s, k as int)[t] == parsed_mac(s)[t],
            decreases 6 - j,
        {
            if *slice_index_get(rep, j) != bytes[j] {
                proof {
                    assert(repetition(s, k as int)[j as int] != parsed_mac(s)[j as int]);
                    assert(repetition(s, k as int) != parsed_mac(s));
                }
                return None;
            }
            j += 1;
        }
        proof {
            assert(repetition(s, k as int) =~= parsed_mac(s));
        }
        k += 1;
    }
    let m = MacAddress { bytes };
    proof {
        assert(is_magic_packet(s));
    }
    Some(m)
}

/// Build a fresh magic packet for a target address, appending the caller's
/// secure-on secret, if any, after the sixteenth repetition.
pub fn build_magic_packet(mac: &MacAddress, password: Option<&Vec<u8>>) -> (r: Vec<u8>)
    ensures
        is_magic_packet(r@),
        parsed_mac(r@) == mac@,
        match password {
            Some(p) => r@.len() == 102 + p@.len() && r@.skip(102) == p@,
            None => r@.len() == 102,
        },
{
    let mut out: Vec<u8> = Vec::new();
    let mut i: usize = 0;
    while i < WOL_HEADER_SIZE
        invariant
            i <= 6,
            out@.len() == i,
            forall|t: int| 0 <= t < i ==> out@[t] == 0xff,
        decreases 6 - i,
    {
        out.push(0xff);
        i += 1;
    }
    let mut k: usize = 0;
    while k < WOL_MAC_REPETITIONS
        invariant
            k <= 16,
            out@.len() == 6 + 6 * k,
            forall|t: int| 0 <= t < 6 ==> out@[t] == 0xff,
            forall|t: int| 0 <= t < k ==> #[trigger] repetition(out@, t) == mac@,
        decreases 16 - k,
    {
        let ghost prev = out@;
        let mut j: usize = 0;
        while j < WOL_MAC_SIZE
            invariant
                j <= 6,
                out@ == prev + mac@.take(j as int),
            decreases 6 - j,
        {
            out.push(mac.bytes[j]);
            proof {
                assert(out@ =~= prev + mac@.take(j as int + 1));
            }
            j += 1;
        }
        proof {
            assert(out@ =~= prev + mac@);
            assert forall|x: int| 0 <= x < prev.len() implies out@[x] == prev[x] by {}
            assert(repetition(out@, k as int) =~= mac@);
            assert forall|t: int| 0 <= t < k implies #[trigger] repetition(out@, t) == mac@ by {
                assert(repetition(out@, t) =~= repetition(prev, t));
            }
        }
        k += 1;
    }
    let ghost body = out@;
    if let Some(p) = password {
        let mut j: usize = 0;
        while j < p.len()
            invariant
                j <= p@.len(),
                out@ == body + p@.take(j as int),
            decreases p@.len() - j,
        {
            out.push(*slice_index_get(p.as_slice(), j));
            proof {
                assert(out@ =~= body + p@.take(j as int + 1));
            }
            j += 1;
        }
        proof {
            assert(out@ =~= body + p@);
            assert(out@.skip(102) =~= p@);
        }
    }
    proof {
        assert(forall|x: int| 0 <= x < 102 ==> out@[x] == body[x]);
        assert forall|i: int| 0 <= i < 6 implies out@[i] == 0xff by {
            assert(out@[i] == body[i]);
        }
        assert forall|t: int| 0 <= t < 16 implies #[trigger] repetition(out@, t) == mac@ by {
            assert(repetition(out@, t) =~= repetition(body, t));
        }
        assert(parsed_mac(out@) == repetition(out@, 0));
        assert(is_magic_packet(out@));
    }
    out
}

/// Round trip: any buffer laid out as a magic packet for a target — as
/// [`build_magic_packet`] produces — parses back to that same target.
pub proof fn lemma_round_trip(s: Seq<u8>, m: Seq<u8>)
    requires
        is_magic_packet(s),
        parsed_mac(s) == m,
    ensures
        spec_parse(s) == Some(m),
{
}

/// Any buffer shorter than 102 bytes — in particular any proper prefix of
/// a minimal magic packet — parses to nothing.
pub proof fn lemma_truncated_rejected(s: Seq<u8>)
    requires
        s.len() < 102,
    ensures
        spec_parse(s) is None,
{
}

/// Flipping any single bit within the six header bytes of a magic packet
/// makes parsing yield nothing.
pub proof fn lemma_corrupted_header_rejected(s: Seq<u8>, i: int, b: u8)
    requires
        is_magic_packet(s),
        0 <= i < 6,
        b < 8,
    ensures
        spec_parse(s.update(i, s[i] ^ (1u8 << b))) is None,
{
    let x = s[i];
    assert(x == 0xff);
    assert(0xffu8 ^ (1u8 << b) != 0xff) by (bit_vector)
        requires
            b < 8,
    ;
    let s2 = s.update(i, x ^ (1u8 << b));
    assert(s2[i] != 0xff);
}

/// A buffer in which one of the sixteen repetitions differs from the
/// target carried by the first parses to nothing, however valid the rest
/// of it is.
pub proof fn lemma_mismatched_repetition_rejected(s: Seq<u8>, k: int)
    requires
        0 <= k < 16,
        repetition(s, k) != parsed_mac(s),
    ensures
        spec_parse(s) is None,
{
}

/// Trailing bytes — such as a four- or six-byte secure-on secret — after
/// a complete magic packet leave parsing unchanged.
pub proof fn lemma_trailing_bytes_tolerated(s: Seq<u8>, t: Seq<u8>)
    requires
        is_magic_packet(s),
    ensures
        spec_parse(s + t) == Some(parsed_mac(s)),
{
    let c = s + t;
    assert(forall|i: int| 0 <= i < 6 ==> c[i] == 0xff);
    assert(parsed_mac(c) =~= parsed_mac(s));
    assert forall|k: int| 0 <= k < 16 implies #[trigger] repetition(c, k) == parsed_mac(c) by {
        assert(repetition(c, k) =~= repetition(s, k));
    }
    assert(is_magic_packet(c));
}

} // verus!
