use vstd::prelude::*;
use vstd::utf8::encode_utf8;
use crate::entity::{holds, in_range, range_hi, range_lo, ClientInfo, NetworkInfo, PeerAddr};

verus! {

/// Why a request was dropped.
#[derive(Debug, PartialEq, Eq)]
pub enum Error {
    /// An encrypted frame came from an address without a cipher session.
    NoKey,
    /// A request that needs a session came from an address without one.
    Disconnect,
    /// The token is not on the allowlist.
    TokenError,
    /// The requested virtual IP is the gateway, the broadcast address, or outside the range.
    InvalidIp,
    /// The requested virtual IP is held by another device.
    IpAlreadyExists,
    /// No free virtual IP is left in the group.
    AddressExhausted,
    /// Anything else, with a message.
    Other(String),
}

/// A parsed registration request.
pub struct RegistrationRequest {
    pub token: String,
    pub device_id: String,
    pub name: String,
    pub version: String,
    /// The virtual IP the client asks for; 0 lets the server choose.
    pub virtual_ip: u32,
    pub client_secret: bool,
    pub allow_ip_change: bool,
    pub is_fast: bool,
}

/// Length in bytes of the UTF-8 form of `s`.
pub open spec fn byte_len(s: Seq<char>) -> int {
    encode_utf8(s).len() as int
}

pub open spec fn len_ok(s: Seq<char>) -> bool {
    1 <= byte_len(s) <= 128
}

/// What `check_reg` reports for a request.
pub open spec fn check_reg_spec(token: Seq<char>, device_id: Seq<char>, name: Seq<char>) -> Result<
    (),
    Seq<char>,
> {
    if !len_ok(token) {
        Err("group length error"@)
    } else if !len_ok(device_id) {
        Err("device_id length error"@)
    } else if !len_ok(name) {
        Err("name length error"@)
    } else {
        Ok(())
    }
}

/// Checks that token, device id and name are each 1 to 128 bytes long.
pub fn check_reg(request: &RegistrationRequest) -> (r: Result<(), Error>)
    ensures
        check_reg_spec(request.token@, request.device_id@, request.name@) matches Ok(_) <==> r
            is Ok,
        check_reg_spec(request.token@, request.device_id@, request.name@) matches Err(m) ==> (
        r matches Err(Error::Other(s)) && s@ == m),
{
    let t: usize = request.token.as_str().as_bytes().len();
    if t == 0 || t > 128 {
        let m = String::from_str("group length error");
        proof {
            reveal_strlit("group length error");
        }
        return Err(Error::Other(m));
    }
    let d: usize = request.device_id.as_str().as_bytes().len();
    if d == 0 || d > 128 {
        let m = String::from_str("device_id length error");
        proof {
            reveal_strlit("device_id length error");
        }
        return Err(Error::Other(m));
    }
    let n: usize = request.name.as_str().as_bytes().len();
    if n == 0 || n > 128 {
        let m = String::from_str("name length error");
        proof {
            reveal_strlit("name length error");
        }
        return Err(Error::Other(m));
    }
    Ok(())
}


/// Whether `ip` is held by a client whose device id is not `dev`.
pub open spec fn held_by_other(c: Seq<ClientInfo>, ip: u32, dev: Seq<char>) -> bool {
    exists|i: int| 0 <= i < c.len() && c[i].virtual_ip == ip && c[i].device_id@ != dev
}

/// Whether some client is registered under `dev`.
pub open spec fn has_device(c: Seq<ClientInfo>, dev: Seq<char>) -> bool {
    exists|i: int| 0 <= i < c.len() && c[i].device_id@ == dev
}

/// Position of the first client at or after `i` registered under `dev`
/// (the length of `c` if there is none).
pub open spec fn first_device_from(c: Seq<ClientInfo>, dev: Seq<char>, i: int) -> int
    decreases c.len() - i,
{
    if i >= c.len() || i < 0 {
        c.len() as int
    } else if c[i].device_id@ == dev {
        i
    } else {
        first_device_from(c, dev, i + 1)
    }
}

/// Position of the first client registered under `dev`.
pub open spec fn first_device(c: Seq<ClientInfo>, dev: Seq<char>) -> int {
    first_device_from(c, dev, 0)
}

/// `first_device_from` is the least matching position at or after `i`.
pub proof fn lemma_first_device(c: Seq<ClientInfo>, dev: Seq<char>, i: int)
    requires
        0 <= i <= c.len(),
    ensures
        i <= first_device_from(c, dev, i) <= c.len(),
        first_device_from(c, dev, i) < c.len() ==> c[first_device_from(c, dev, i)].device_id@
            == dev,
        forall|j: int| i <= j < first_device_from(c, dev, i) ==> c[j].device_id@ != dev,
    decreases c.len() - i,
{
    if i < c.len() && c[i].device_id@ != dev {
        lemma_first_device(c, dev, i + 1);
    }
}

/// The lowest address at or after `ip`, below `hi`, that is neither the gateway nor held.
pub open spec fn first_free_from(c: Seq<ClientInfo>, gateway: u32, hi: int, ip: int) -> Option<
    u32,
>
    decreases hi - ip,
{
    if ip >= hi || ip < 0 || ip > u32::MAX {
        None
    } else if ip != gateway && !holds(c, ip as u32) {
        Some(ip as u32)
    } else {
        first_free_from(c, gateway, hi, ip + 1)
    }
}

/// The address that a registration gets in a group with the given gateway,
/// mask and clients, or why it gets none.
pub open spec fn allocation(
    gateway: u32,
    mask: u32,
    c: Seq<ClientInfo>,
    broadcast: u32,
    vip: u32,
    dev: Seq<char>,
    allow_ip_change: bool,
) -> Result<u32, Error> {
    if vip != 0 && (vip == gateway || vip == broadcast || !in_range(gateway, mask, vip)) {
        Err(Error::InvalidIp)
    } else if vip != 0 && held_by_other(c, vip, dev) && !allow_ip_change {
        Err(Error::IpAlreadyExists)
    } else if vip != 0 && !held_by_other(c, vip, dev) {
        Ok(vip)
    } else if has_device(c, dev) {
        Ok(c[first_device(c, dev)].virtual_ip)
    } else {
        match first_free_from(c, gateway, range_hi(gateway, mask), range_lo(gateway, mask)) {
            Some(ip) => Ok(ip),
            None => Err(Error::AddressExhausted),
        }
    }
}

/// `allocation` on the current state of `net`.
pub open spec fn net_allocation(
    net: &NetworkInfo,
    broadcast: u32,
    vip: u32,
    dev: Seq<char>,
    allow_ip_change: bool,
) -> Result<u32, Error> {
    allocation(net.gateway_ip, net.mask_ip, net.clients@, broadcast, vip, dev, allow_ip_change)
}

/// Position of the client that holds `ip`.
pub open spec fn index_of(c: Seq<ClientInfo>, ip: u32) -> int {
    choose|i: int| 0 <= i < c.len() && c[i].virtual_ip == ip
}

/// The client entry that a registration writes: the request's fields, online,
/// keeping the status report of the entry it replaces.
pub open spec fn entry_after(
    prev: Option<ClientInfo>,
    vip: u32,
    device_id: String,
    name: String,
    client_secret: bool,
    addr: PeerAddr,
    tcp_sender: Option<tokio::sync::mpsc::Sender<Vec<u8>>>,
) -> ClientInfo {
    ClientInfo {
        device_id,
        name,
        client_secret,
        address: addr,
        online: true,
        virtual_ip: vip,
        tcp_sender,
        client_status: match prev {
            Some(p) => p.client_status,
            None => None,
        },
    }
}

/// The client list after `vip` was given to a registration: the holder's entry
/// is rewritten in place, or a new entry is appended.
pub open spec fn clients_after(
    c: Seq<ClientInfo>,
    vip: u32,
    device_id: String,
    name: String,
    client_secret: bool,
    addr: PeerAddr,
    tcp_sender: Option<tokio::sync::mpsc::Sender<Vec<u8>>>,
) -> Seq<ClientInfo> {
    if holds(c, vip) {
        let k = index_of(c, vip);
        c.update(
            k,
            entry_after(Some(c[k]), vip, device_id, name, client_secret, addr, tcp_sender),
        )
    } else {
        c.push(entry_after(None, vip, device_id, name, client_secret, addr, tcp_sender))
    }
}

pub proof fn lemma_first_free(c: Seq<ClientInfo>, gateway: u32, hi: int, ip: int)
    ensures
        first_free_from(c, gateway, hi, ip) matches Some(v) ==> ip <= v < hi && v != gateway
            && !holds(c, v),
    decreases hi - ip,
{
    if ip >= hi || ip < 0 || ip > u32::MAX {
    } else if ip != gateway && !holds(c, ip as u32) {
    } else {
        lemma_first_free(c, gateway, hi, ip + 1);
    }
}

/// The lowest free address of `[lo, hi)`, skipping the gateway.
fn first_free(net: &NetworkInfo, lo: u64, hi: u64) -> (r: Option<u32>)
    requires
        hi <= u32::MAX as int + 1,
        lo <= hi,
    ensures
        r == first_free_from(net.clients@, net.gateway_ip, hi as int, lo as int),
{
    let mut ip: u64 = lo;
    while ip < hi
        invariant
            lo <= ip <= hi,
            hi <= u32::MAX as int + 1,
            first_free_from(net.clients@, net.gateway_ip, hi as int, lo as int) == first_free_from(
                net.clients@,
                net.gateway_ip,
                hi as int,
                ip as int,
            ),
        decreases hi - ip,
    {
        let cand: u32 = ip as u32;
        if cand != net.gateway_ip && net.find_index(cand).is_none() {
            return Some(cand);
        }
        ip = ip + 1;
    }
    None
}

/// Decides which address a registration gets in `net`, without changing it.
pub fn choose_vip(net: &NetworkInfo, broadcast: u32, request: &RegistrationRequest) -> (r: Result<
    u32,
    Error,
>)
    requires
        net.wf(),
    ensures
        r == net_allocation(
            net,
            broadcast,
            request.virtual_ip,
            request.device_id@,
            request.allow_ip_change,
        ),
        r matches Ok(v) ==> in_range(net.gateway_ip, net.mask_ip, v) && v != net.gateway_ip,
{
    let ghost c = net.clients@;
    let ghost dev = request.device_id@;
    let lo: u64 = (net.gateway_ip & net.mask_ip) as u64 + 1;
    let hi: u64 = (net.gateway_ip | !net.mask_ip) as u64;
    let mut virtual_ip: u32 = request.virtual_ip;
    if virtual_ip != 0 {
        if virtual_ip == net.gateway_ip || virtual_ip == broadcast || !(lo <= virtual_ip as u64
            && (virtual_ip as u64) < hi) {
            return Err(Error::InvalidIp);
        }
        match net.find_index(virtual_ip) {
            Some(k) => {
                if net.clients[k].device_id != request.device_id {
                    assert(held_by_other(c, request.virtual_ip, dev));
                    if !request.allow_ip_change {
                        return Err(Error::IpAlreadyExists);
                    }
                    virtual_ip = 0;
                } else {
                    assert(!held_by_other(c, request.virtual_ip, dev));
                }
            },
            None => {},
        }
    }
    if virtual_ip == 0 {
        match net.find_device(&request.device_id) {
            Some(k) => {
                virtual_ip = net.clients[k].virtual_ip;
                assert(has_device(c, dev));
                proof {
                    lemma_first_device(c, dev, 0);
                }
                assert(first_device(c, dev) == k as int);
                assert(in_range(net.gateway_ip, net.mask_ip, c[k as int].virtual_ip));
            },
            None => {
                if lo <= hi {
                    match first_free(net, lo, hi) {
                        Some(ip) => {
                            proof {
                                lemma_first_free(c, net.gateway_ip, hi as int, lo as int);
                            }
                            virtual_ip = ip;
                        },
                        None => {
                            return Err(Error::AddressExhausted);
                        },
                    }
                } else {
                    return Err(Error::AddressExhausted);
                }
            },
        }
    }
    Ok(virtual_ip)
}

/// Writes the entry of `virtual_ip` (rewriting the holder's, or appending one)
/// and moves the epoch on by one.
fn record(
    net: &mut NetworkInfo,
    virtual_ip: u32,
    request: &RegistrationRequest,
    addr: PeerAddr,
    tcp_sender: Option<tokio::sync::mpsc::Sender<Vec<u8>>>,
)
    requires
        old(net).wf(),
        old(net).epoch < u64::MAX,
        in_range(old(net).gateway_ip, old(net).mask_ip, virtual_ip),
        virtual_ip != old(net).gateway_ip,
    ensures
        final(net).wf(),
        final(net).gateway_ip == old(net).gateway_ip,
        final(net).mask_ip == old(net).mask_ip,
        final(net).network_ip == old(net).network_ip,
        final(net).epoch == old(net).epoch + 1,
        final(net).clients@ == clients_after(
            old(net).clients@,
            virtual_ip,
            request.device_id,
            request.name,
            request.client_secret,
            addr,
            tcp_sender,
        ),
{
    let ghost c = net.clients@;
    let entry_dev = request.device_id.clone();
    let entry_name = request.name.clone();
    match net.find_index(virtual_ip) {
        Some(k) => {
            let prev = net.clients.remove(k);
            let ghost prev_g = prev;
            let entry = ClientInfo {
                device_id: entry_dev,
                name: entry_name,
                client_secret: request.client_secret,
                address: addr,
                online: true,
                virtual_ip,
                tcp_sender,
                client_status: prev.client_status,
            };
            net.clients.insert(k, entry);
            proof {
                assert(holds(c, virtual_ip));
                let j = index_of(c, virtual_ip);
                assert(c[j].virtual_ip == virtual_ip);
                assert(j == k as int);
                assert(prev_g == c[k as int]);
                assert(net.clients@ =~= c.update(k as int, entry));
            }
        },
        None => {
            let entry = ClientInfo {
                device_id: entry_dev,
                name: entry_name,
                client_secret: request.client_secret,
                address: addr,
                online: true,
                virtual_ip,
                tcp_sender,
                client_status: None,
            };
            net.clients.push(entry);
        },
    }
    net.epoch = net.epoch + 1;
    proof {
        let n = net.clients@;
        assert forall|i: int, j: int|
            0 <= i < n.len() && 0 <= j < n.len() && i != j implies #[trigger] n[i].virtual_ip
            != #[trigger] n[j].virtual_ip by {
            if i < c.len() && j < c.len() {
                if n[i] != c[i] {
                } else if n[j] != c[j] {
                } else {
                }
            }
        }
        assert forall|i: int| 0 <= i < n.len() implies #[trigger] in_range(
            net.gateway_ip,
            net.mask_ip,
            n[i].virtual_ip,
        ) && n[i].virtual_ip != net.gateway_ip by {
            if i < c.len() && n[i] == c[i] {
                assert(in_range(net.gateway_ip, net.mask_ip, c[i].virtual_ip));
            }
        }
    }
}

/// Gives the requester a virtual IP in `net` and records it there.
///
/// A requested address (non-zero `virtual_ip`) must be in the usable range and
/// be neither the gateway nor `broadcast`. If another device holds it, the
/// request fails unless `allow_ip_change`, in which case a new address is
/// chosen. With no usable request, the device's existing address is reused;
/// failing that, the lowest free address of the range is taken. On success the
/// entry is rewritten and the epoch goes up by one; on failure nothing changes.
pub fn allocate(
    net: &mut NetworkInfo,
    broadcast: u32,
    request: &RegistrationRequest,
    addr: PeerAddr,
    tcp_sender: Option<tokio::sync::mpsc::Sender<Vec<u8>>>,
) -> (r: Result<u32, Error>)
    requires
        old(net).wf(),
        old(net).epoch < u64::MAX,
    ensures
        r == net_allocation(
            old(net),
            broadcast,
            request.virtual_ip,
            request.device_id@,
            request.allow_ip_change,
        ),
        final(net).wf(),
        final(net).gateway_ip == old(net).gateway_ip,
        final(net).mask_ip == old(net).mask_ip,
        final(net).network_ip == old(net).network_ip,
        r is Err ==> *final(net) == *old(net),
        r matches Ok(v) ==> final(net).epoch == old(net).epoch + 1 && final(net).clients@
            == clients_after(
            old(net).clients@,
            v,
            request.device_id,
            request.name,
            request.client_secret,
            addr,
            tcp_sender,
        ),
{
    match choose_vip(net, broadcast, request) {
        Ok(v) => {
            record(net, v, request, addr, tcp_sender);
            Ok(v)
        },
        Err(e) => Err(e),
    }
}

} // verus!
