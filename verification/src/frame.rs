//! The frame filter: layered validation of one captured link-layer frame
//! (Ethernet, then IPv4, then UDP) and extraction of the UDP payload when
//! either port equals the target port.
use vstd::prelude::*;
use vstd::slice::{slice_subrange, slice_to_vec};

verus! {

/// The fixed UDP port whose traffic the pipeline selects.
pub const TARGET_PORT: u16 = 5056;

/// Upper bound, in bytes, on one captured link-layer frame, with headroom
/// for VLAN tagging; also used as the capture channel's buffer size.
pub const MAX_FRAME_SIZE: usize = 1600;

/// Length of an Ethernet header: two MAC addresses and the ether-type.
pub const ETH_HEADER_LEN: usize = 14;

/// The ether-type that announces an IPv4 packet.
pub const ETHERTYPE_IPV4: u16 = 0x0800;

/// Shortest well-formed IPv4 header: five 32-bit words, no options.
pub const IPV4_MIN_HEADER_LEN: usize = 20;

/// The IPv4 protocol number of UDP.
pub const IP_PROTO_UDP: u8 = 17;

/// Length of a UDP header: source port, destination port, length, checksum.
pub const UDP_HEADER_LEN: usize = 8;

/// The big-endian 16-bit value spelled by two bytes.
pub open spec fn be16(hi: u8, lo: u8) -> int {
    hi * 256 + lo
}

/// Whether the frame holds a full Ethernet header announcing IPv4.
pub open spec fn eth_is_ipv4(frame: Seq<u8>) -> bool {
    &&& frame.len() >= ETH_HEADER_LEN
    &&& be16(frame[12], frame[13]) == ETHERTYPE_IPV4
}

/// The bytes following the Ethernet header.
pub open spec fn eth_payload(frame: Seq<u8>) -> Seq<u8> {
    frame.skip(ETH_HEADER_LEN as int)
}

/// The IPv4 header length in bytes, read from the low nibble of the first
/// header byte (a count of 32-bit words).
pub open spec fn ipv4_header_len(ip: Seq<u8>) -> int {
    (ip[0] & 0x0f) * 4
}

/// The IPv4 total length field: header plus data, in bytes.
pub open spec fn ipv4_total_len(ip: Seq<u8>) -> int {
    be16(ip[2], ip[3])
}

/// Whether the byte sequence begins with a well-formed IPv4 packet that is
/// wholly contained in it: the fixed header is present, the header length
/// covers at least the fixed header, and the total length covers the header
/// without running past the captured bytes. A capture may append link-layer
/// padding after `ipv4_total_len` bytes; such padding is not packet data.
pub open spec fn ipv4_ok(ip: Seq<u8>) -> bool {
    &&& ip.len() >= IPV4_MIN_HEADER_LEN
    &&& ipv4_header_len(ip) >= IPV4_MIN_HEADER_LEN
    &&& ipv4_total_len(ip) >= ipv4_header_len(ip)
    &&& ipv4_total_len(ip) <= ip.len()
}

/// Whether the IPv4 packet's next-level protocol is UDP.
pub open spec fn ipv4_is_udp(ip: Seq<u8>) -> bool {
    ip[9] == IP_PROTO_UDP
}

/// The IPv4 packet's data: the bytes between the end of its header and its
/// total length, excluding any trailing link-layer padding.
pub open spec fn ipv4_payload(ip: Seq<u8>) -> Seq<u8> {
    ip.subrange(ipv4_header_len(ip), ipv4_total_len(ip))
}

/// The UDP source port.
pub open spec fn udp_source(udp: Seq<u8>) -> int {
    be16(udp[0], udp[1])
}

/// The UDP destination port.
pub open spec fn udp_destination(udp: Seq<u8>) -> int {
    be16(udp[2], udp[3])
}

/// The UDP datagram's application data: everything after its header.
pub open spec fn udp_payload(udp: Seq<u8>) -> Seq<u8> {
    udp.skip(UDP_HEADER_LEN as int)
}

/// Whether one captured frame is selected by the filter: Ethernet announcing
/// IPv4, a well-formed IPv4 packet carrying UDP, a full UDP header, and one
/// of the two ports equal to the target port.
pub open spec fn frame_accepted(frame: Seq<u8>) -> bool {
    &&& eth_is_ipv4(frame)
    &&& ipv4_ok(eth_payload(frame))
    &&& ipv4_is_udp(eth_payload(frame))
    &&& udp_payload_len(frame) >= 0
    &&& {
        let udp = ipv4_payload(eth_payload(frame));
        udp_source(udp) == TARGET_PORT || udp_destination(udp) == TARGET_PORT
    }
}

/// How many application bytes the frame's UDP datagram carries; negative
/// when the IPv4 data is too short to hold a UDP header.
pub open spec fn udp_payload_len(frame: Seq<u8>) -> int {
    ipv4_total_len(eth_payload(frame)) - ipv4_header_len(eth_payload(frame))
        - UDP_HEADER_LEN
}

/// The payload the filter yields for an accepted frame.
pub open spec fn frame_payload(frame: Seq<u8>) -> Seq<u8> {
    udp_payload(ipv4_payload(eth_payload(frame)))
}

/// What the frame filter returns on any frame: the exact UDP payload of an
/// accepted frame, and nothing otherwise.
pub open spec fn spec_filter_frame(frame: Seq<u8>) -> Option<Seq<u8>> {
    if frame_accepted(frame) {
        Some(frame_payload(frame))
    } else {
        None
    }
}

/// Reads the big-endian 16-bit value at byte offset `i`.
fn be16_at(bytes: &[u8], i: usize) -> (r: u16)
    requires
        i + 1 < bytes@.len(),
    ensures
        r == be16(bytes@[i as int], bytes@[i as int + 1]),
{
    (bytes[i] as u16) * 256 + (bytes[i + 1] as u16)
}

/// Classifies one captured frame, returning a copy of its UDP payload
/// exactly when the frame is Ethernet carrying IPv4 carrying UDP and one of
/// the UDP ports is the target port; every malformed, truncated or foreign
/// frame yields nothing.
pub fn filter_frame(frame: &[u8]) -> (r: Option<Vec<u8>>)
    ensures
        (match r {
            Some(p) => frame_accepted(frame@) && p@ == frame_payload(frame@),
            None => !frame_accepted(frame@),
        }),
{
    if frame.len() < ETH_HEADER_LEN {
        return None;
    }
    let ethertype = be16_at(frame, 12);
    if ethertype != ETHERTYPE_IPV4 {
        return None;
    }
    let ip_len = frame.len() - ETH_HEADER_LEN;
    let ghost ip = eth_payload(frame@);
    if ip_len < IPV4_MIN_HEADER_LEN {
        return None;
    }
    let header_len = ((frame[ETH_HEADER_LEN] & 0x0f) as usize) * 4;
    assert(header_len == ipv4_header_len(ip)) by {
        assert(ip[0] == frame@[ETH_HEADER_LEN as int]);
    }
    if header_len < IPV4_MIN_HEADER_LEN {
        return None;
    }
    let total_len = be16_at(frame, ETH_HEADER_LEN + 2) as usize;
    assert(total_len == ipv4_total_len(ip)) by {
        assert(ip[2] == frame@[ETH_HEADER_LEN as int + 2]);
        assert(ip[3] == frame@[ETH_HEADER_LEN as int + 3]);
    }
    if total_len < header_len || total_len > ip_len {
        return None;
    }
    let proto = frame[ETH_HEADER_LEN + 9];
    assert(proto == ip[9]);
    if proto != IP_PROTO_UDP {
        return None;
    }
    let udp_len = total_len - header_len;
    if udp_len < UDP_HEADER_LEN {
        return None;
    }
    let udp_off = ETH_HEADER_LEN + header_len;
    let ghost udp = ipv4_payload(ip);
    assert(udp =~= frame@.subrange(udp_off as int, ETH_HEADER_LEN + total_len));
    let source = be16_at(frame, udp_off);
    let destination = be16_at(frame, udp_off + 2);
    assert(source == udp_source(udp) && destination == udp_destination(udp)) by {
        assert(udp[0] == frame@[udp_off as int]);
        assert(udp[1] == frame@[udp_off as int + 1]);
        assert(udp[2] == frame@[udp_off as int + 2]);
        assert(udp[3] == frame@[udp_off as int + 3]);
    }
    if source != TARGET_PORT && destination != TARGET_PORT {
        return None;
    }
    let payload = slice_to_vec(slice_subrange(
        frame,
        udp_off + UDP_HEADER_LEN,
        ETH_HEADER_LEN + total_len,
    ));
    assert(payload@ =~= udp_payload(udp));
    Some(payload)
}

/// The payloads that one capture worker forwards for a sequence of frames
/// captured on its interface, in capture order: the filter applied to each
/// frame in turn, keeping what it yields.
pub open spec fn matched_payloads(frames: Seq<Seq<u8>>) -> Seq<Seq<u8>>
    decreases frames.len(),
{
    if frames.len() == 0 {
        Seq::empty()
    } else {
        match spec_filter_frame(frames.last()) {
            Some(p) => matched_payloads(frames.drop_last()).push(p),
            None => matched_payloads(frames.drop_last()),
        }
    }
}

/// Capture order is preserved through the filter: the payloads of a run of
/// frames followed by another run are the payloads of the first run followed
/// by the payloads of the second, so a frame captured later can never place
/// its payload before that of an earlier frame from the same interface.
pub proof fn lemma_matched_payloads_append(a: Seq<Seq<u8>>, b: Seq<Seq<u8>>)
    ensures
        matched_payloads(a + b) == matched_payloads(a) + matched_payloads(b),
    decreases b.len(),
{
    if b.len() == 0 {
        assert(a + b =~= a);
        assert(matched_payloads(a) + matched_payloads(b) =~= matched_payloads(a));
    } else {
        lemma_matched_payloads_append(a, b.drop_last());
        assert((a + b).drop_last() =~= a + b.drop_last());
        assert((a + b).last() == b.last());
        match spec_filter_frame(b.last()) {
            Some(p) => {
                assert(matched_payloads(a) + matched_payloads(b) =~= (matched_payloads(a)
                    + matched_payloads(b.drop_last())).push(p));
            },
            None => {},
        }
    }
}

/// Zero false positives: a frame that fails any validation step contributes
/// nothing to the forwarded stream.
pub proof fn lemma_rejected_frame_dropped(frame: Seq<u8>)
    requires
        !frame_accepted(frame),
    ensures
        matched_payloads(seq![frame]) == Seq::<Seq<u8>>::empty(),
{
    reveal_with_fuel(matched_payloads, 2);
    assert(seq![frame].drop_last() =~= Seq::<Seq<u8>>::empty());
}

/// An accepted frame contributes exactly its UDP payload.
pub proof fn lemma_accepted_frame_forwarded(frame: Seq<u8>)
    requires
        frame_accepted(frame),
    ensures
        matched_payloads(seq![frame]) == seq![frame_payload(frame)],
{
    reveal_with_fuel(matched_payloads, 2);
    assert(seq![frame].drop_last() =~= Seq::<Seq<u8>>::empty());
    assert(matched_payloads(seq![frame]) =~= seq![frame_payload(frame)]);
}

/// A malformed frame immediately followed by an accepted frame on the same
/// interface yields exactly one payload: the accepted frame's.
pub proof fn lemma_malformed_then_valid(bad: Seq<u8>, good: Seq<u8>)
    requires
        !frame_accepted(bad),
        frame_accepted(good),
    ensures
        matched_payloads(seq![bad, good]) == seq![frame_payload(good)],
{
    assert(seq![bad, good].drop_last() =~= seq![bad]);
    lemma_rejected_frame_dropped(bad);
    assert(matched_payloads(seq![bad, good]) =~= seq![frame_payload(good)]);
}

/// Runs the filter over the frames captured on one interface, in capture
/// order, and returns the payloads the worker forwards, in that order.
pub fn filter_frames(frames: &Vec<Vec<u8>>) -> (payloads: Vec<Vec<u8>>)
    ensures
        payloads.deep_view() == matched_payloads(frames.deep_view()),
{
    let mut payloads: Vec<Vec<u8>> = Vec::new();
    let mut i: usize = 0;
    while i < frames.len()
        invariant
            i <= frames.len(),
            payloads.deep_view() == matched_payloads(frames.deep_view().take(i as int)),
        decreases frames.len() - i,
    {
        let ghost prefix = frames.deep_view().take(i as int);
        let ghost next = frames.deep_view().take(i as int + 1);
        assert(next.drop_last() =~= prefix);
        assert(frames.deep_view()[i as int] =~= frames@[i as int]@);
        assert(next.last() == frames@[i as int]@);
        match filter_frame(frames[i].as_slice()) {
            Some(p) => {
                let ghost before = payloads.deep_view();
                payloads.push(p);
                assert(payloads.deep_view() =~~= before.push(p@));
                assert(payloads.deep_view() == matched_payloads(next));
            },
            None => {
                assert(payloads.deep_view() == matched_payloads(next));
            },
        }
        i = i + 1;
    }
    assert(frames.deep_view().take(frames.len() as int) =~= frames.deep_view());
    payloads
}

} // verus!
