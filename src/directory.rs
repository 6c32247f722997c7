use vstd::prelude::*;
use crate::entity::{ClientInfo, NetworkInfo};

verus! {

/// One entry of the device roster handed to clients.
pub struct DeviceInfo {
    pub virtual_ip: u32,
    pub name: String,
    /// 0 for online, 1 for offline.
    pub device_status: u32,
    pub client_secret: bool,
}

pub open spec fn device_info_of(c: ClientInfo) -> DeviceInfo {
    DeviceInfo {
        virtual_ip: c.virtual_ip,
        name: c.name,
        device_status: if c.online {
            0
        } else {
            1
        },
        client_secret: c.client_secret,
    }
}

/// The roster of `c` seen by the client at `current_ip`: every other client, in order.
pub open spec fn device_infos(c: Seq<ClientInfo>, current_ip: u32) -> Seq<DeviceInfo>
    decreases c.len(),
{
    if c.len() == 0 {
        Seq::empty()
    } else {
        let rest = device_infos(c.drop_last(), current_ip);
        if c.last().virtual_ip != current_ip {
            rest.push(device_info_of(c.last()))
        } else {
            rest
        }
    }
}

/// Whether `ip` is one of `exclude`.
pub open spec fn excluded(exclude: Seq<u32>, ip: u32) -> bool {
    exists|i: int| 0 <= i < exclude.len() && exclude[i] == ip
}

/// Whether a broadcast frame (encrypted or not) goes to client `c`.
pub open spec fn receives(c: ClientInfo, exclude: Seq<u32>, encrypted: bool) -> bool {
    c.online && !excluded(exclude, c.virtual_ip) && c.client_secret == encrypted
}

/// The positions of the clients of `c` that a broadcast reaches, in order.
pub open spec fn broadcast_set(c: Seq<ClientInfo>, exclude: Seq<u32>, encrypted: bool) -> Seq<usize>
    decreases c.len(),
{
    if c.len() == 0 {
        Seq::empty()
    } else {
        let rest = broadcast_set(c.drop_last(), exclude, encrypted);
        if receives(c.last(), exclude, encrypted) {
            rest.push((c.len() - 1) as usize)
        } else {
            rest
        }
    }
}

/// The roster of `net` for the client at `current_ip` (that client left out).
pub fn clients_info(net: &NetworkInfo, current_ip: u32) -> (r: Vec<DeviceInfo>)
    ensures
        r@ == device_infos(net.clients@, current_ip),
{
    let mut r: Vec<DeviceInfo> = Vec::new();
    let mut i: usize = 0;
    while i < net.clients.len()
        invariant
            0 <= i <= net.clients@.len(),
            r@ == device_infos(net.clients@.subrange(0, i as int), current_ip),
        decreases net.clients@.len() - i,
    {
        let c = &net.clients[i];
        proof {
            let s = net.clients@.subrange(0, i as int + 1);
            assert(s.drop_last() =~= net.clients@.subrange(0, i as int));
            assert(s.last() == net.clients@[i as int]);
        }
        if c.virtual_ip != current_ip {
            let status: u32 = if c.online {
                0
            } else {
                1
            };
            r.push(
                DeviceInfo {
                    virtual_ip: c.virtual_ip,
                    name: c.name.clone(),
                    device_status: status,
                    client_secret: c.client_secret,
                },
            );
        }
        i = i + 1;
    }
    assert(net.clients@.subrange(0, i as int) =~= net.clients@);
    r
}

fn is_excluded(exclude: &Vec<u32>, ip: u32) -> (r: bool)
    ensures
        r == excluded(exclude@, ip),
{
    let mut i: usize = 0;
    while i < exclude.len()
        invariant
            0 <= i <= exclude@.len(),
            forall|j: int| 0 <= j < i ==> exclude@[j] != ip,
        decreases exclude@.len() - i,
    {
        if exclude[i] == ip {
            return true;
        }
        i = i + 1;
    }
    false
}

/// The clients of `net` that a broadcast frame goes to: online, not in
/// `exclude`, and in the cohort (`client_secret`) that matches whether the
/// frame is encrypted. Sending is left to the caller.
pub fn broadcast_targets(net: &NetworkInfo, exclude: &Vec<u32>, encrypted: bool) -> (r: Vec<usize>)
    ensures
        r@ == broadcast_set(net.clients@, exclude@, encrypted),
{
    let mut r: Vec<usize> = Vec::new();
    let mut i: usize = 0;
    while i < net.clients.len()
        invariant
            0 <= i <= net.clients@.len(),
            r@ == broadcast_set(net.clients@.subrange(0, i as int), exclude@, encrypted),
        decreases net.clients@.len() - i,
    {
        let c = &net.clients[i];
        proof {
            let s = net.clients@.subrange(0, i as int + 1);
            assert(s.drop_last() =~= net.clients@.subrange(0, i as int));
            assert(s.last() == net.clients@[i as int]);
        }
        if c.online && !is_excluded(exclude, c.virtual_ip) && c.client_secret == encrypted {
            r.push(i);
        }
        i = i + 1;
    }
    assert(net.clients@.subrange(0, i as int) =~= net.clients@);
    r
}

} // verus!
