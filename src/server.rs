use vstd::prelude::*;
use crate::allocator::{
    allocate, allocation, check_reg, check_reg_spec, clients_after, Error, RegistrationRequest,
};
use crate::directory::{clients_info, device_infos, DeviceInfo};
use crate::entity::{ClientInfo, IpAddress, NetworkInfo, PeerAddr};
use crate::sessions::{
    cipher_unique, CipherSession, addr_lookup, addr_unique, find_addr, insert_addr_session, insert_ip_session, key_lookup,
    key_unique, Session,
};

verus! {

/// Server settings, fixed at start.
pub struct ConfigInfo {
    pub gateway: u32,
    pub netmask: u32,
    pub broadcast: u32,
    /// When present, only these tokens may register.
    pub white_token: Option<Vec<String>>,
}

/// A group: its token and its directory.
pub struct Group {
    pub token: String,
    pub network: NetworkInfo,
}

/// What a peer's session gives a request: its group (a position in the
/// handler's group list) and its virtual IP.
#[derive(Debug, PartialEq, Eq, Structural, Clone, Copy)]
pub struct Context {
    pub group: usize,
    pub virtual_ip: u32,
}

/// The fields of a registration reply.
pub struct RegistrationReply {
    pub public_ip: u32,
    pub public_port: u32,
    /// The public address when it is IPv6 and not IPv4-mapped.
    pub public_ipv6: Option<u128>,
    pub virtual_ip: u32,
    pub virtual_netmask: u32,
    pub virtual_gateway: u32,
    pub epoch: u32,
    pub device_info_list: Vec<DeviceInfo>,
}

/// The IPv4 address inside an IPv4-mapped IPv6 address (`::ffff:a.b.c.d`).
pub open spec fn mapped_v4(v: u128) -> Option<u32> {
    if v / 0x1_0000_0000 == 0xffff {
        Some((v % 0x1_0000_0000) as u32)
    } else {
        None
    }
}

/// The IPv4 address that reflecting `a` reports, if it has one.
pub open spec fn reflect_v4(a: PeerAddr) -> Option<u32> {
    match a.ip {
        IpAddress::V4(x) => Some(x),
        IpAddress::V6(v) => mapped_v4(v),
    }
}

pub fn reflect_ipv4(a: PeerAddr) -> (r: Option<u32>)
    ensures
        r == reflect_v4(a),
{
    match a.ip {
        IpAddress::V4(x) => Some(x),
        IpAddress::V6(v) => {
            if v / 0x1_0000_0000 == 0xffff {
                Some((v % 0x1_0000_0000) as u32)
            } else {
                None
            }
        },
    }
}

pub open spec fn in_list(w: Seq<String>, token: Seq<char>) -> bool {
    exists|i: int| 0 <= i < w.len() && (#[trigger] w[i])@ == token
}

pub open spec fn token_allowed(config: &ConfigInfo, token: Seq<char>) -> bool {
    match config.white_token {
        None => true,
        Some(w) => in_list(w@, token),
    }
}

pub open spec fn has_group(groups: Seq<Group>, token: Seq<char>) -> bool {
    exists|i: int| 0 <= i < groups.len() && groups[i].token@ == token
}

pub open spec fn group_index(groups: Seq<Group>, token: Seq<char>) -> int {
    choose|i: int| 0 <= i < groups.len() && groups[i].token@ == token
}

/// The clients of the group `token` (none if it does not exist yet).
pub open spec fn clients_of(groups: Seq<Group>, token: Seq<char>) -> Seq<ClientInfo> {
    if has_group(groups, token) {
        groups[group_index(groups, token)].network.clients@
    } else {
        Seq::empty()
    }
}

/// The epoch of the group `token` (0 if it does not exist yet).
pub open spec fn epoch_of(groups: Seq<Group>, token: Seq<char>) -> u64 {
    if has_group(groups, token) {
        groups[group_index(groups, token)].network.epoch
    } else {
        0
    }
}

/// In a group list without repeated tokens, the group at `i` is the one named by its token.
pub proof fn lemma_group_at(groups: Seq<Group>, i: int)
    requires
        0 <= i < groups.len(),
        forall|a: int, b: int|
            0 <= a < groups.len() && 0 <= b < groups.len() && a != b ==> #[trigger] groups[a].token@
                != #[trigger] groups[b].token@,
    ensures
        has_group(groups, groups[i].token@),
        group_index(groups, groups[i].token@) == i,
{
    let j = group_index(groups, groups[i].token@);
    assert(groups[j].token@ == groups[i].token@);
}

/// Handles the frames of all peers; holds the groups and the session tables.
pub struct ServerPacketHandler {
    pub config: ConfigInfo,
    pub groups: Vec<Group>,
    /// address -> (group, virtual IP)
    pub addr_sessions: Vec<Session>,
    /// (group, virtual IP) -> address
    pub ip_sessions: Vec<Session>,
    /// address -> cipher session
    pub cipher_sessions: Vec<CipherSession>,
}

impl ServerPacketHandler {
    /// Each group's directory is well formed and uses the configured subnet;
    /// no token names two groups; the session tables are maps.
    pub open spec fn wf(&self) -> bool {
        &&& forall|i: int|
            0 <= i < self.groups@.len() ==> (#[trigger] self.groups@[i]).network.wf()
                && self.groups@[i].network.gateway_ip == self.config.gateway
                && self.groups@[i].network.mask_ip == self.config.netmask
        &&& forall|i: int, j: int|
            0 <= i < self.groups@.len() && 0 <= j < self.groups@.len() && i != j
                ==> #[trigger] self.groups@[i].token@ != #[trigger] self.groups@[j].token@
        &&& addr_unique(self.addr_sessions@)
        &&& key_unique(self.ip_sessions@)
        &&& cipher_unique(self.cipher_sessions@)
    }

    pub fn new(config: ConfigInfo) -> (r: ServerPacketHandler)
        ensures
            r.wf(),
            r.config == config,
            r.groups@.len() == 0,
            r.addr_sessions@.len() == 0,
            r.ip_sessions@.len() == 0,
            r.cipher_sessions@.len() == 0,
    {
        ServerPacketHandler {
            config,
            groups: Vec::new(),
            addr_sessions: Vec::new(),
            ip_sessions: Vec::new(),
            cipher_sessions: Vec::new(),
        }
    }

    /// Position of the group named `token`.
    pub fn find_group(&self, token: &String) -> (r: Option<usize>)
        ensures
            r matches Some(k) ==> k < self.groups@.len() && self.groups@[k as int].token@ == token@,
            r is None ==> !has_group(self.groups@, token@),
    {
        let mut i: usize = 0;
        while i < self.groups.len()
            invariant
                0 <= i <= self.groups@.len(),
                forall|j: int| 0 <= j < i ==> self.groups@[j].token@ != token@,
            decreases self.groups@.len() - i,
        {
            if self.groups[i].token == *token {
                return Some(i);
            }
            i = i + 1;
        }
        None
    }

    /// Whether `token` may register.
    pub fn is_token_allowed(&self, token: &String) -> (r: bool)
        ensures
            r == token_allowed(&self.config, token@),
    {
        match &self.config.white_token {
            None => true,
            Some(w) => {
                let mut i: usize = 0;
                while i < w.len()
                    invariant
                        self.config.white_token == Some(*w),
                        0 <= i <= w@.len(),
                        forall|j: int| 0 <= j < i ==> w@[j]@ != token@,
                    decreases w@.len() - i,
                {
                    if w[i] == *token {
                        let ghost ii = i as int;
                        assert(0 <= ii < w@.len() && w@[ii]@ == token@);
                        assert(in_list(w@, token@));
                        return true;
                    }
                    i = i + 1;
                }
                false
            },
        }
    }

    /// The session context of `addr`: its group and virtual IP, when the
    /// address has a session and its group exists.
    pub fn get_context(&self, addr: PeerAddr) -> (r: Option<Context>)
        requires
            self.wf(),
        ensures
            r matches Some(ctx) ==> ctx.group < self.groups@.len() && addr_lookup(
                self.addr_sessions@,
                addr,
            ) == Some((self.groups@[ctx.group as int].token@, ctx.virtual_ip)),
            r is None ==> match addr_lookup(self.addr_sessions@, addr) {
                None => true,
                Some((g, _)) => !has_group(self.groups@, g),
            },
    {
        match find_addr(&self.addr_sessions, addr) {
            None => {
                assert(!exists|i: int|
                    0 <= i < self.addr_sessions@.len() && self.addr_sessions@[i].addr == addr);
                None
            },
            Some(k) => {
                let s = &self.addr_sessions[k];
                proof {
                    let j = choose|j: int|
                        0 <= j < self.addr_sessions@.len() && self.addr_sessions@[j].addr == addr;
                    assert(j == k as int);
                }
                match self.find_group(&s.group) {
                    Some(g) => Some(Context { group: g, virtual_ip: s.virtual_ip }),
                    None => None,
                }
            },
        }
    }

    /// Registers a peer: checks the request, finds or creates its group,
    /// allocates a virtual IP there, binds the address to `(token, vip)` both
    /// ways (stamped `now`) and returns the reply. On any error nothing changes.
    #[verifier::rlimit(40)]
    pub fn register(
        &mut self,
        request: &RegistrationRequest,
        addr: PeerAddr,
        tcp_sender: Option<tokio::sync::mpsc::Sender<Vec<u8>>>,
        now: i64,
    ) -> (r: Result<RegistrationReply, Error>)
        requires
            old(self).wf(),
        ensures
            final(self).wf(),
            final(self).config == old(self).config,
            final(self).cipher_sessions@ == old(self).cipher_sessions@,
            check_reg_spec(request.token@, request.device_id@, request.name@) matches Err(m) ==> (
            r matches Err(Error::Other(s)) && s@ == m),
            check_reg_spec(request.token@, request.device_id@, request.name@) is Ok
                && !token_allowed(&old(self).config, request.token@) ==> r == Err::<
                RegistrationReply,
                Error,
            >(Error::TokenError),
            check_reg_spec(request.token@, request.device_id@, request.name@) is Ok
                && token_allowed(&old(self).config, request.token@) && epoch_of(
                old(self).groups@,
                request.token@,
            ) == u64::MAX ==> (r matches Err(Error::Other(m)) && m@ == "epoch overflow"@),
            check_reg_spec(request.token@, request.device_id@, request.name@) is Ok
                && token_allowed(&old(self).config, request.token@) && epoch_of(
                old(self).groups@,
                request.token@,
            ) < u64::MAX ==> match allocation(
                old(self).config.gateway,
                old(self).config.netmask,
                clients_of(old(self).groups@, request.token@),
                old(self).config.broadcast,
                request.virtual_ip,
                request.device_id@,
                request.allow_ip_change,
            ) {
                Err(e) => r == Err::<RegistrationReply, Error>(e),
                Ok(v) => r matches Ok(reply) && reply.virtual_ip == v,
            },
            r is Err ==> final(self).groups@ == old(self).groups@ && final(self).addr_sessions@
                == old(self).addr_sessions@ && final(self).ip_sessions@ == old(self).ip_sessions@,
            r matches Ok(reply) ==> {
                &&& has_group(final(self).groups@, request.token@)
                &&& clients_of(final(self).groups@, request.token@) == clients_after(
                    clients_of(old(self).groups@, request.token@),
                    reply.virtual_ip,
                    request.device_id,
                    request.name,
                    request.client_secret,
                    addr,
                    tcp_sender,
                )
                &&& epoch_of(old(self).groups@, request.token@) < u64::MAX
                &&& epoch_of(final(self).groups@, request.token@) == epoch_of(
                    old(self).groups@,
                    request.token@,
                ) + 1
                &&& forall|t: Seq<char>|
                    t != request.token@ ==> has_group(final(self).groups@, t) == has_group(
                        old(self).groups@,
                        t,
                    ) && clients_of(final(self).groups@, t) == clients_of(old(self).groups@, t)
                        && epoch_of(final(self).groups@, t) == epoch_of(old(self).groups@, t)
                &&& addr_lookup(final(self).addr_sessions@, addr) == Some(
                    (request.token@, reply.virtual_ip),
                )
                &&& forall|b: PeerAddr|
                    b != addr ==> addr_lookup(final(self).addr_sessions@, b) == addr_lookup(
                        old(self).addr_sessions@,
                        b,
                    )
                &&& key_lookup(final(self).ip_sessions@, request.token@, reply.virtual_ip) == Some(
                    addr,
                )
                &&& reply.public_port == addr.port as u32
                &&& match reflect_v4(addr) {
                    Some(x) => reply.public_ip == x && reply.public_ipv6 is None,
                    None => reply.public_ip == 0 && addr.ip == IpAddress::V6(
                        reply.public_ipv6->Some_0,
                    ),
                }
                &&& reply.virtual_gateway == old(self).config.gateway
                &&& reply.virtual_netmask == old(self).config.netmask
                &&& reply.epoch == (epoch_of(final(self).groups@, request.token@) as int
                    % 0x1_0000_0000) as u32
                &&& reply.device_info_list@ == device_infos(
                    clients_of(final(self).groups@, request.token@),
                    reply.virtual_ip,
                )
            },
    {
        match check_reg(request) {
            Err(e) => {
                return Err(e);
            },
            Ok(_) => {},
        }
        if !self.is_token_allowed(&request.token) {
            return Err(Error::TokenError);
        }
        let ghost og = self.groups@;
        let ghost tok = request.token@;
        let gateway = self.config.gateway;
        let netmask = self.config.netmask;
        let found = self.find_group(&request.token);
        let mut group = match found {
            Some(k) => {
                proof {
                    lemma_group_at(og, k as int);
                }
                self.groups.remove(k)
            },
            None => Group {
                token: request.token.clone(),
                network: NetworkInfo::new(gateway & netmask, netmask, gateway),
            },
        };
        assert(group.network.wf() && group.network.gateway_ip == gateway
            && group.network.mask_ip == netmask);
        assert(group.network.clients@ == clients_of(og, tok));
        assert(group.network.epoch == epoch_of(og, tok));
        assert(group.token@ == tok);
        if group.network.epoch == u64::MAX {
            match found {
                Some(k) => {
                    self.groups.insert(k, group);
                    assert(self.groups@ =~= og);
                },
                None => {},
            }
            let m = String::from_str("epoch overflow");
            proof {
                reveal_strlit("epoch overflow");
            }
            return Err(Error::Other(m));
        }
        let alloc = allocate(
            &mut group.network,
            self.config.broadcast,
            request,
            addr,
            tcp_sender,
        );
        let virtual_ip = match alloc {
            Err(e) => {
                match found {
                    Some(k) => {
                        self.groups.insert(k, group);
                        assert(self.groups@ =~= og);
                    },
                    None => {},
                }
                return Err(e);
            },
            Ok(v) => v,
        };
        let epoch = group.network.epoch;
        let device_info_list = clients_info(&group.network, virtual_ip);
        let ghost ng = group;
        let ghost mut at: int = 0;
        match found {
            Some(k) => {
                self.groups.insert(k, group);
                proof {
                    at = k as int;
                    assert(self.groups@ =~= og.update(k as int, ng));
                }
            },
            None => {
                self.groups.push(group);
                proof {
                    at = og.len() as int;
                }
            },
        }
        proof {
            let gs = self.groups@;
            assert forall|a: int, b: int|
                0 <= a < gs.len() && 0 <= b < gs.len() && a != b implies #[trigger] gs[a].token@
                != #[trigger] gs[b].token@ by {
                if a != at && b != at {
                    assert(gs[a] == og[a] && gs[b] == og[b]);
                } else if a == at {
                    assert(gs[b] == og[b]);
                    if found is None {
                        assert(!has_group(og, tok));
                    }
                } else {
                    assert(gs[a] == og[a]);
                    if found is None {
                        assert(!has_group(og, tok));
                    }
                }
            }
            assert forall|i: int| 0 <= i < gs.len() implies (#[trigger] gs[i]).network.wf()
                && gs[i].network.gateway_ip == self.config.gateway && gs[i].network.mask_ip
                == self.config.netmask by {
                if i != at {
                    assert(gs[i] == og[i]);
                }
            }
            lemma_group_at(gs, at);
            assert forall|t: Seq<char>| t != tok implies has_group(gs, t) == has_group(og, t)
                && clients_of(gs, t) == clients_of(og, t) && epoch_of(gs, t) == epoch_of(og, t) by {
                if has_group(og, t) {
                    let i = group_index(og, t);
                    lemma_group_at(og, i);
                    assert(i != at);
                    assert(gs[i] == og[i]);
                    lemma_group_at(gs, i);
                }
                if has_group(gs, t) {
                    let i = group_index(gs, t);
                    lemma_group_at(gs, i);
                    assert(i != at);
                    assert(gs[i] == og[i]);
                    lemma_group_at(og, i);
                }
            }
        }
        let group_name = request.token.clone();
        let group_name2 = request.token.clone();
        insert_ip_session(&mut self.ip_sessions, group_name, virtual_ip, addr, now);
        insert_addr_session(&mut self.addr_sessions, addr, group_name2, virtual_ip, now);
        let (public_ip, public_ipv6) = match reflect_ipv4(addr) {
            Some(x) => (x, None),
            None => {
                match addr.ip {
                    IpAddress::V6(v) => (0u32, Some(v)),
                    IpAddress::V4(x) => (x, None),
                }
            },
        };
        Ok(
            RegistrationReply {
                public_ip,
                public_port: addr.port as u32,
                public_ipv6,
                virtual_ip,
                virtual_netmask: netmask,
                virtual_gateway: gateway,
                epoch: (epoch % 0x1_0000_0000) as u32,
                device_info_list,
            },
        )
    }
}

} // verus!
