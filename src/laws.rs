use vstd::prelude::*;
use crate::allocator::{
    allocation, clients_after, entry_after, first_device, first_free_from, has_device, held_by_other,
    index_of, Error,
};
use crate::dispatch::{has_context, is_handshake, route_spec, Dispatch};
use crate::envelope::NetPacket;
use crate::sessions::cipher_lookup;
use crate::entity::{holds, in_range, range_hi, range_lo, ClientInfo, PeerAddr};
use crate::server::{has_group, ServerPacketHandler};
use crate::sessions::addr_lookup;

verus! {

/// The client list of a well-formed group: keys in range, not the gateway, none repeated.
pub open spec fn clients_wf(gateway: u32, mask: u32, c: Seq<ClientInfo>) -> bool {
    &&& forall|i: int|
        0 <= i < c.len() ==> #[trigger] in_range(gateway, mask, c[i].virtual_ip)
            && c[i].virtual_ip != gateway
    &&& forall|i: int, j: int|
        0 <= i < c.len() && 0 <= j < c.len() && i != j ==> #[trigger] c[i].virtual_ip
            != #[trigger] c[j].virtual_ip
}

/// Rewriting the entry of the first client of a device keeps it first.
proof fn lemma_first_device_rewritten(c: Seq<ClientInfo>, dev: Seq<char>, e: ClientInfo)
    requires
        has_device(c, dev),
        e.device_id@ == dev,
    ensures
        has_device(c.update(first_device(c, dev), e), dev),
        first_device(c.update(first_device(c, dev), e), dev) == first_device(c, dev),
{
    crate::allocator::lemma_first_device(c, dev, 0);
    let k = first_device(c, dev);
    if k >= c.len() {
        let w = choose|w: int| 0 <= w < c.len() && c[w].device_id@ == dev;
        assert(false);
    }
    let n = c.update(k, e);
    assert(n[k].device_id@ == dev);
    crate::allocator::lemma_first_device(n, dev, 0);
    let f = first_device(n, dev);
    if f < k {
        assert(n[f] == c[f]);
    }
    if f > k {
        assert(n[k].device_id@ != dev);
    }
}

/// A device's entry appended to a list without it is its first entry.
proof fn lemma_first_device_appended(c: Seq<ClientInfo>, dev: Seq<char>, e: ClientInfo)
    requires
        !has_device(c, dev),
        e.device_id@ == dev,
    ensures
        has_device(c.push(e), dev),
        first_device(c.push(e), dev) == c.len(),
{
    let n = c.push(e);
    let last = c.len() as int;
    assert(n[last].device_id@ == dev);
    crate::allocator::lemma_first_device(n, dev, 0);
    let f = first_device(n, dev);
    if f < last {
        assert(n[f] == c[f]);
        assert(false);
    }
}

/// A device that registers again without asking for an address gets the
/// address its previous registration got.
#[verifier::rlimit(30)]
pub proof fn law_reregistration_keeps_address(
    gateway: u32,
    mask: u32,
    c: Seq<ClientInfo>,
    broadcast: u32,
    device_id: String,
    name: String,
    client_secret: bool,
    addr: PeerAddr,
    tcp_sender: Option<tokio::sync::mpsc::Sender<Vec<u8>>>,
    allow_first: bool,
    allow_again: bool,
    v: u32,
)
    requires
        clients_wf(gateway, mask, c),
        allocation(gateway, mask, c, broadcast, 0, device_id@, allow_first) == Ok::<u32, Error>(v),
    ensures
        allocation(
            gateway,
            mask,
            clients_after(c, v, device_id, name, client_secret, addr, tcp_sender),
            broadcast,
            0,
            device_id@,
            allow_again,
        ) == Ok::<u32, Error>(v),
{
    let dev = device_id@;
    let n = clients_after(c, v, device_id, name, client_secret, addr, tcp_sender);
    crate::allocator::lemma_first_device(c, dev, 0);
    if has_device(c, dev) {
        let k = first_device(c, dev);
        if k >= c.len() {
            let w = choose|w: int| 0 <= w < c.len() && c[w].device_id@ == dev;
            assert(false);
        }
        assert(c[k].virtual_ip == v);
        assert(holds(c, v));
        let j = index_of(c, v);
        assert(j == k);
        let e = entry_after(Some(c[k]), v, device_id, name, client_secret, addr, tcp_sender);
        assert(n == c.update(k, e));
        lemma_first_device_rewritten(c, dev, e);
    } else {
        crate::allocator::lemma_first_free(
            c,
            gateway,
            range_hi(gateway, mask),
            range_lo(gateway, mask),
        );
        assert(!holds(c, v));
        let e = entry_after(None, v, device_id, name, client_secret, addr, tcp_sender);
        assert(n == c.push(e));
        lemma_first_device_appended(c, dev, e);
        assert(n[c.len() as int].virtual_ip == v);
    }
}

/// A device that asks for a valid address that no client holds gets that
/// address, whatever address it held before.
pub proof fn law_free_requested_address_granted(
    gateway: u32,
    mask: u32,
    c: Seq<ClientInfo>,
    broadcast: u32,
    vip: u32,
    device_id: Seq<char>,
    allow_ip_change: bool,
)
    requires
        vip != 0,
        vip != gateway,
        vip != broadcast,
        in_range(gateway, mask, vip),
        !holds(c, vip),
    ensures
        allocation(gateway, mask, c, broadcast, vip, device_id, allow_ip_change) == Ok::<u32, Error>(
            vip,
        ),
{
}

/// Asking for the gateway or the broadcast address is refused as invalid.
pub proof fn law_gateway_and_broadcast_refused(
    gateway: u32,
    mask: u32,
    c: Seq<ClientInfo>,
    broadcast: u32,
    vip: u32,
    device_id: Seq<char>,
    allow_ip_change: bool,
)
    requires
        vip != 0,
        vip == gateway || vip == broadcast,
    ensures
        allocation(gateway, mask, c, broadcast, vip, device_id, allow_ip_change) == Err::<u32, Error>(
            Error::InvalidIp,
        ),
{
}

proof fn lemma_no_free(c: Seq<ClientInfo>, gateway: u32, hi: int, ip: int)
    requires
        forall|a: int| ip <= a < hi && a != gateway ==> #[trigger] holds(c, a as u32),
        hi <= u32::MAX + 1,
        0 <= ip,
    ensures
        first_free_from(c, gateway, hi, ip) is None,
    decreases hi - ip,
{
    if ip < hi {
        lemma_no_free(c, gateway, hi, ip + 1);
    }
}

/// When every address of the range but the gateway is held, a new device
/// that asks for no address is refused: the group is full.
pub proof fn law_full_group_exhausted(
    gateway: u32,
    mask: u32,
    c: Seq<ClientInfo>,
    broadcast: u32,
    device_id: Seq<char>,
    allow_ip_change: bool,
)
    requires
        forall|a: u32| #[trigger] in_range(gateway, mask, a) && a != gateway ==> holds(c, a),
        !has_device(c, device_id),
    ensures
        allocation(gateway, mask, c, broadcast, 0, device_id, allow_ip_change) == Err::<u32, Error>(
            Error::AddressExhausted,
        ),
{
    let lo = range_lo(gateway, mask);
    let hi = range_hi(gateway, mask);
    assert forall|a: int| lo <= a < hi && a != gateway implies #[trigger] holds(c, a as u32) by {
        assert(in_range(gateway, mask, a as u32));
    }
    lemma_no_free(c, gateway, hi, lo);
}

/// A peer whose address the session table binds to an existing group has a
/// context, so `get_context` finds it; registration leaves the peer so bound.
pub proof fn law_registered_peer_has_context(
    h: &ServerPacketHandler,
    addr: PeerAddr,
    token: Seq<char>,
    vip: u32,
)
    requires
        addr_lookup(h.addr_sessions@, addr) == Some((token, vip)),
        has_group(h.groups@, token),
    ensures
        has_context(h, addr),
{
}

/// An encrypted frame (other than a handshake) is refused for want of a key
/// exactly when its address has no cipher session.
pub proof fn law_encrypted_needs_session(
    h: &ServerPacketHandler,
    packet: &NetPacket,
    addr: PeerAddr,
    r: Result<Dispatch, Error>,
)
    requires
        route_spec(h, packet, addr, r),
        packet.encrypted_spec(),
        !is_handshake(packet.protocol_spec(), packet.transport_spec()),
    ensures
        (r == Err::<Dispatch, Error>(Error::NoKey)) <==> cipher_lookup(h.cipher_sessions@, addr)
            is None,
{
}

} // verus!
