use vstd::prelude::*;
use crate::checksum::{checksum, checksum_spec, law_checksum_field_verifies, ones_sum, sum_words};
use crate::envelope::{be16_at, be32_at, write_be32, NetPacket, HEAD_LEN};

verus! {

// The IPv4 and ICMP field handling and both checksums are this library's own
// logic: no crate that it depends on offers them.

pub const ICMP_PROTOCOL: u8 = 1;
pub const ECHO_REQUEST: u8 = 8;
pub const ECHO_REPLY: u8 = 0;

/// Length of the IPv4 header of `ip`, from its IHL field.
pub open spec fn ihl(ip: Seq<u8>) -> int {
    (ip[0] % 16) as int * 4
}

/// Whether `ip` is an IPv4 packet carrying an ICMP echo request to `gateway`.
pub open spec fn is_echo_to(ip: Seq<u8>, gateway: u32) -> bool {
    &&& ip.len() >= 20
    &&& ip[0] / 16 == 4
    &&& ihl(ip) >= 20
    &&& ihl(ip) + 8 <= ip.len()
    &&& ip[9] == ICMP_PROTOCOL
    &&& be32_at(ip, 16) == gateway
    &&& ip[ihl(ip)] == ECHO_REQUEST
}

/// `new` is the echo reply to the request `old`: addresses set to `src` and
/// `dst`, the ICMP type turned to reply, both checksums recomputed, and every
/// other byte kept.
pub open spec fn is_echo_reply(old: Seq<u8>, new: Seq<u8>, src: u32, dst: u32) -> bool {
    let h = ihl(old);
    &&& new.len() == old.len()
    &&& be32_at(new, 12) == src
    &&& be32_at(new, 16) == dst
    &&& new[h] == ECHO_REPLY
    &&& forall|j: int|
        0 <= j < old.len() && !(10 <= j < 20) && j != h && j != h + 2 && j != h + 3 ==> new[j]
            == old[j]
    &&& be16_at(new, 10) == checksum_spec(new.subrange(0, h).update(10, 0).update(11, 0))
    &&& be16_at(new, h + 2) == checksum_spec(new.subrange(h, new.len() as int).update(2, 0).update(3, 0))
}

/// What the gateway answers to `packet`.
pub open spec fn icmp_reply_spec(packet: &NetPacket, gateway: u32, r: Option<NetPacket>) -> bool {
    &&& r is Some <==> is_echo_to(packet.payload_spec(), gateway)
    &&& r matches Some(q) ==> {
        &&& q.wf()
        &&& q.gateway_spec()
        &&& q.encrypted_spec() == packet.encrypted_spec()
        &&& q.protocol_spec() == packet.protocol_spec()
        &&& q.transport_spec() == packet.transport_spec()
        &&& q.source_spec() == packet.destination_spec()
        &&& q.destination_spec() == packet.source_spec()
        &&& is_echo_reply(
            packet.payload_spec(),
            q.payload_spec(),
            packet.destination_spec(),
            packet.source_spec(),
        )
    }
}

/// Answers, as the gateway, an ICMP echo request addressed to `gateway`:
/// the reply goes back from the frame's destination to its source, marked as
/// made by the server. Any other frame gets no answer here.
#[verifier::rlimit(60)]
pub fn gateway_icmp_reply(packet: &NetPacket, gateway: u32) -> (r: Option<NetPacket>)
    requires
        packet.wf(),
    ensures
        icmp_reply_spec(packet, gateway, r),
{
    let len = packet.data_len - HEAD_LEN;
    let ghost ip = packet.payload_spec();
    if len < 20 {
        return None;
    }
    let b0 = packet.buffer[HEAD_LEN];
    let h: usize = ((b0 % 16) as usize) * 4;
    if b0 / 16 != 4 || h < 20 || h + 8 > len || packet.buffer[HEAD_LEN + 9] != ICMP_PROTOCOL {
        return None;
    }
    if crate::envelope::read_be32(packet.buffer.as_slice(), HEAD_LEN + 16) != gateway {
        assert(be32_at(packet.buffer@, HEAD_LEN + 16) == be32_at(ip, 16));
        return None;
    }
    assert(be32_at(packet.buffer@, HEAD_LEN + 16) == be32_at(ip, 16));
    if packet.buffer[HEAD_LEN + h] != ECHO_REQUEST {
        return None;
    }
    let src = packet.source();
    let dst = packet.destination();
    let mut q = NetPacket::new(packet.to_bytes()).unwrap();
    assert(q.payload_spec() =~= ip);
    let end = q.data_len;
    let icmp = HEAD_LEN + h;
    q.set_byte(icmp, ECHO_REPLY);
    q.set_byte(icmp + 2, 0);
    q.set_byte(icmp + 3, 0);
    let c1 = checksum(&q.buffer, icmp, end);
    let ghost before_c1 = q.buffer@;
    q.set_byte(icmp + 2, (c1 / 256) as u8);
    q.set_byte(icmp + 3, (c1 % 256) as u8);
    let ghost after_c1 = q.buffer@;
    write_be32(&mut q.buffer, HEAD_LEN + 12, dst);
    write_be32(&mut q.buffer, HEAD_LEN + 16, src);
    q.set_byte(HEAD_LEN + 10, 0);
    q.set_byte(HEAD_LEN + 11, 0);
    let c2 = checksum(&q.buffer, HEAD_LEN, icmp);
    let ghost before_c2 = q.buffer@;
    q.set_byte(HEAD_LEN + 10, (c2 / 256) as u8);
    q.set_byte(HEAD_LEN + 11, (c2 % 256) as u8);
    let ghost after_c2 = q.buffer@;
    q.set_source(dst);
    q.set_destination(src);
    q.set_gateway_flag(true);
    proof {
        let np = q.payload_spec();
        let hh = h as int;
        assert(ihl(ip) == hh);
        assert(forall|j: int| 12 <= j < end ==> q.buffer@[j] == after_c2[j]);
        assert(np.subrange(hh, np.len() as int).update(2, 0).update(3, 0) =~= before_c1.subrange(
            icmp as int,
            end as int,
        ));
        assert(np.subrange(0, hh).update(10, 0).update(11, 0) =~= before_c2.subrange(
            HEAD_LEN as int,
            icmp as int,
        ));
        assert(np[10] == after_c2[22] && np[11] == after_c2[23]);
        assert(np[hh + 2] == after_c1[icmp + 2] && np[hh + 3] == after_c1[icmp + 3]);
        assert(be32_at(np, 12) == be32_at(after_c2, 24));
        assert(be32_at(np, 16) == be32_at(after_c2, 28));
    }
    Some(q)
}

/// Every echo reply that the gateway sends passes the receiver's checks: the
/// ones'-complement sums of its IPv4 header and of its ICMP message are 0xffff.
pub proof fn law_echo_reply_checksums_verify(packet: &NetPacket, gateway: u32, q: NetPacket)
    requires
        icmp_reply_spec(packet, gateway, Some(q)),
    ensures
        ones_sum(sum_words(q.payload_spec().subrange(0, ihl(q.payload_spec())), 0)) == 65535,
        ones_sum(
            sum_words(
                q.payload_spec().subrange(ihl(q.payload_spec()), q.payload_spec().len() as int),
                0,
            ),
        ) == 65535,
{
    let old = packet.payload_spec();
    let new = q.payload_spec();
    let h = ihl(old);
    assert(new[0] == old[0]);
    assert(ihl(new) == h);
    let hd = new.subrange(0, h);
    assert(hd.update(10, 0).update(11, 0) =~= new.subrange(0, h).update(10, 0).update(11, 0));
    law_checksum_field_verifies(hd, 10);
    let ic = new.subrange(h, new.len() as int);
    law_checksum_field_verifies(ic, 2);
}

} // verus!
