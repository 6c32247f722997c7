use vstd::prelude::*;

verus! {

/// Declares tokio::sync::mpsc::Sender, the sending half of a peer's TCP
/// channel, so that a client entry can hold one; it is only carried, never read.
#[verifier::external_type_specification]
#[verifier::external_body]
#[verifier::reject_recursive_types(T)]
pub struct ExSender<T>(tokio::sync::mpsc::Sender<T>);

/// A public transport address's IP part.
#[derive(Debug, PartialEq, Eq, Structural, Clone, Copy)]
pub enum IpAddress {
    V4(u32),
    V6(u128),
}

/// A peer's public transport address, as the listener observed it.
#[derive(Debug, PartialEq, Eq, Structural, Clone, Copy)]
pub struct PeerAddr {
    pub ip: IpAddress,
    pub port: u16,
}

/// The latest self-report of a client.
pub struct ClientStatusInfo {
    /// Peers (virtual IPv4s) that the client reaches directly.
    pub p2p_list: Vec<u32>,
    pub up_stream: u64,
    pub down_stream: u64,
    pub is_cone: bool,
    /// When the report arrived, in milliseconds since the Unix epoch.
    pub update_time: i64,
}

/// The current time in milliseconds since the Unix epoch.
/// Relies on chrono::Utc::now and DateTime::timestamp_millis; nothing is
/// promised of the value.
#[verifier::external_body]
pub(crate) fn now_millis() -> (r: i64) {
    chrono::Utc::now().timestamp_millis()
}

impl Default for ClientStatusInfo {
    /// An empty report stamped with the current time.
    fn default() -> (r: ClientStatusInfo)
        ensures
            r.p2p_list@.len() == 0,
            r.up_stream == 0,
            r.down_stream == 0,
            !r.is_cone,
    {
        ClientStatusInfo {
            p2p_list: Vec::new(),
            up_stream: 0,
            down_stream: 0,
            is_cone: false,
            update_time: now_millis(),
        }
    }
}

/// One client of a group.
pub struct ClientInfo {
    pub device_id: String,
    pub name: String,
    /// Whether this peer encrypts traffic between peers.
    pub client_secret: bool,
    pub address: PeerAddr,
    pub online: bool,
    pub virtual_ip: u32,
    pub tcp_sender: Option<tokio::sync::mpsc::Sender<Vec<u8>>>,
    pub client_status: Option<ClientStatusInfo>,
}

impl Default for ClientInfo {
    /// An offline client with empty names at 0.0.0.0:0 and no virtual IP.
    fn default() -> (r: ClientInfo)
        ensures
            r.device_id@.len() == 0,
            r.name@.len() == 0,
            !r.client_secret,
            r.address == (PeerAddr { ip: IpAddress::V4(0), port: 0 }),
            !r.online,
            r.virtual_ip == 0,
            r.tcp_sender is None,
            r.client_status is None,
    {
        ClientInfo {
            device_id: String::new(),
            name: String::new(),
            client_secret: false,
            address: PeerAddr { ip: IpAddress::V4(0), port: 0 },
            online: false,
            virtual_ip: 0,
            tcp_sender: None,
            client_status: None,
        }
    }
}

/// First address of the usable range of a subnet.
pub open spec fn range_lo(gateway: u32, mask: u32) -> int {
    (gateway & mask) as int + 1
}

/// End (exclusive) of the usable range of a subnet: its broadcast address.
pub open spec fn range_hi(gateway: u32, mask: u32) -> int {
    (gateway | !mask) as int
}

pub open spec fn in_range(gateway: u32, mask: u32, ip: u32) -> bool {
    range_lo(gateway, mask) <= ip as int && (ip as int) < range_hi(gateway, mask)
}

/// Whether some client of `c` holds `ip`.
pub open spec fn holds(c: Seq<ClientInfo>, ip: u32) -> bool {
    exists|i: int| 0 <= i < c.len() && c[i].virtual_ip == ip
}

/// The directory of one group. The clients are kept in a vector, in the order
/// they first registered, so that rosters and broadcasts walk them in a fixed
/// order; a client's key is its `virtual_ip`, which no two clients share.
pub struct NetworkInfo {
    pub network_ip: u32,
    pub mask_ip: u32,
    pub gateway_ip: u32,
    /// Generation counter of the directory.
    pub epoch: u64,
    pub clients: Vec<ClientInfo>,
}

impl NetworkInfo {
    /// Every key lies in the usable range and is not the gateway; no key is used twice.
    pub open spec fn wf(&self) -> bool {
        &&& forall|i: int|
            0 <= i < self.clients@.len() ==> #[trigger] in_range(
                self.gateway_ip,
                self.mask_ip,
                self.clients@[i].virtual_ip,
            ) && self.clients@[i].virtual_ip != self.gateway_ip
        &&& forall|i: int, j: int|
            0 <= i < self.clients@.len() && 0 <= j < self.clients@.len() && i != j
                ==> #[trigger] self.clients@[i].virtual_ip != #[trigger] self.clients@[j].virtual_ip
    }

    pub fn new(network_ip: u32, mask_ip: u32, gateway_ip: u32) -> (r: NetworkInfo)
        ensures
            r.wf(),
            r.network_ip == network_ip,
            r.mask_ip == mask_ip,
            r.gateway_ip == gateway_ip,
            r.epoch == 0,
            r.clients@.len() == 0,
    {
        NetworkInfo { network_ip, mask_ip, gateway_ip, epoch: 0, clients: Vec::new() }
    }

    /// Position of the client that holds `ip`.
    pub fn find_index(&self, ip: u32) -> (r: Option<usize>)
        ensures
            r matches Some(k) ==> k < self.clients@.len() && self.clients@[k as int].virtual_ip
                == ip,
            r is None ==> !holds(self.clients@, ip),
    {
        let mut i: usize = 0;
        while i < self.clients.len()
            invariant
                0 <= i <= self.clients@.len(),
                forall|j: int| 0 <= j < i ==> self.clients@[j].virtual_ip != ip,
            decreases self.clients@.len() - i,
        {
            if self.clients[i].virtual_ip == ip {
                return Some(i);
            }
            i = i + 1;
        }
        None
    }

    /// Position of the first client registered under `device_id`.
    pub fn find_device(&self, device_id: &String) -> (r: Option<usize>)
        ensures
            r matches Some(k) ==> k < self.clients@.len() && self.clients@[k as int].device_id@
                == device_id@ && forall|j: int|
                0 <= j < k ==> self.clients@[j].device_id@ != device_id@,
            r is None ==> forall|j: int|
                0 <= j < self.clients@.len() ==> self.clients@[j].device_id@ != device_id@,
    {
        let mut i: usize = 0;
        while i < self.clients.len()
            invariant
                0 <= i <= self.clients@.len(),
                forall|j: int| 0 <= j < i ==> self.clients@[j].device_id@ != device_id@,
            decreases self.clients@.len() - i,
        {
            if self.clients[i].device_id == *device_id {
                return Some(i);
            }
            i = i + 1;
        }
        None
    }
}

} // verus!
