use vstd::prelude::*;
use crate::directory::{clients_info, device_infos, DeviceInfo};
use crate::entity::{holds, now_millis, ClientInfo, ClientStatusInfo, NetworkInfo, PeerAddr};
use crate::envelope::{
    be16_at, be32_at, build_reply, zeroed, FrameError, NetPacket, ADDR_RESPONSE, CONTROL, HEAD_LEN,
    PONG,
};
use crate::allocator::Error;
use crate::envelope::{SECRET_HANDSHAKE_RESPONSE, SERVICE};
use crate::server::{reflect_ipv4, reflect_v4, Context, ServerPacketHandler};
use crate::sessions::{
    addr_unique, cipher_lookup, cipher_unique, find_key, fresh, key_lookup, insert_cipher_session, kept, key_unique,
    lemma_kept_unique, retain_fresh, retain_fresh_ciphers, CipherSession, Session,
};

verus! {

/// A client's self-report, as parsed from the wire.
pub struct ClientStatusReport {
    /// The virtual IP the client reports as its own.
    pub source: u32,
    pub p2p_list: Vec<u32>,
    pub up_stream: u64,
    pub down_stream: u64,
    pub is_cone: bool,
}

/// What the pong to `ping` is, given the group's epoch: the ping's payload
/// (at most four bytes) copied into a four-byte payload whose last two bytes
/// then carry `epoch` modulo 2^16, big-endian.
pub open spec fn pong_spec(ping: &NetPacket, epoch: u64, r: Result<NetPacket, FrameError>) -> bool {
    &&& ping.payload_spec().len() > 4 ==> r == Err::<NetPacket, FrameError>(FrameError::TooLong)
    &&& ping.payload_spec().len() <= 4 ==> (r matches Ok(p) && {
            &&& p.wf()
            &&& p.protocol_spec() == CONTROL
            &&& p.transport_spec() == PONG
            &&& !p.encrypted_spec()
            &&& p.payload_spec().len() == 4
            &&& forall|j: int|
                0 <= j < 2 ==> p.payload_spec()[j] == if j < ping.payload_spec().len() {
                    ping.payload_spec()[j]
                } else {
                    0
                }
            &&& be16_at(p.payload_spec(), 2) == epoch as int % 65536
        })
}

/// The pong for a ping, given the group's epoch.
pub fn pong(ping: &NetPacket, epoch: u64) -> (r: Result<NetPacket, FrameError>)
    requires
        ping.wf(),
    ensures
        pong_spec(ping, epoch, r),
{
    let body = zeroed(4);
    let mut p = build_reply(CONTROL, PONG, body.as_slice());
    let payload = ping.payload();
    let ghost b0 = p.buffer@;
    assert(forall|j: int| 12 <= j < 16 ==> b0[j] == p.payload_spec()[j - 12]);
    match p.set_payload(payload.as_slice()) {
        Err(e) => {
            return Err(e);
        },
        Ok(_) => {},
    }
    let e: u64 = epoch % 65536;
    let hi: u8 = (e / 256) as u8;
    let lo: u8 = (e % 256) as u8;
    let ghost b1 = p.buffer@;
    p.set_byte(HEAD_LEN + 2, hi);
    p.set_byte(HEAD_LEN + 3, lo);
    assert(1u8 & 0x80u8 == 0) by (bit_vector);
    proof {
        let ps = p.payload_spec();
        let pl = ping.payload_spec();
        assert forall|j: int| 0 <= j < 2 implies ps[j] == if j < pl.len() {
            pl[j]
        } else {
            0
        } by {
            assert(ps[j] == b1[12 + j]);
            if j < pl.len() {
                assert(b1[12 + j] == pl[j]);
            } else {
                assert(b1[12 + j] == b0[12 + j]);
            }
        }
        assert(ps[2] == hi && ps[3] == lo);
    }
    Ok(p)
}

/// What the reply to an address request from `addr` is.
pub open spec fn addr_reply_spec(addr: PeerAddr, r: Option<NetPacket>) -> bool {
    &&& reflect_v4(addr) is None <==> r is None
    &&& reflect_v4(addr) matches Some(x) ==> (r matches Some(p) && {
        &&& p.wf()
        &&& p.protocol_spec() == CONTROL
        &&& p.transport_spec() == ADDR_RESPONSE
        &&& !p.encrypted_spec()
        &&& p.payload_spec().len() == 6
        &&& be32_at(p.payload_spec(), 0) == x
        &&& be16_at(p.payload_spec(), 4) == addr.port as int
    })
}

/// The reply to an address request: the peer's IPv4 address and port, six
/// bytes big-endian. A pure IPv6 peer gets no reply.
pub fn control_addr_request(addr: PeerAddr) -> (r: Option<NetPacket>)
    ensures
        addr_reply_spec(addr, r),
{
    let ipv4 = match reflect_ipv4(addr) {
        Some(x) => x,
        None => {
            return None;
        },
    };
    let body = zeroed(6);
    let mut p = build_reply(CONTROL, ADDR_RESPONSE, body.as_slice());
    crate::envelope::write_be32(&mut p.buffer, HEAD_LEN, ipv4);
    p.set_byte(HEAD_LEN + 4, (addr.port / 256) as u8);
    p.set_byte(HEAD_LEN + 5, (addr.port % 256) as u8);
    assert(p.payload_spec()[0] == p.buffer@[12]);
    assert(1u8 & 0x80u8 == 0) by (bit_vector);
    Some(p)
}

/// The fields of a handshake reply.
pub struct HandshakeReply {
    pub version: String,
    pub public_key: Vec<u8>,
    pub secret: bool,
    pub key_finger: String,
}

/// The handshake reply of a server of `version`: with a key pair (its public
/// key and fingerprint), the key is advertised and `secret` is set.
pub fn handshake_reply(version: &String, rsa: Option<(Vec<u8>, String)>) -> (r: HandshakeReply)
    ensures
        r.version@ == version@,
        match rsa {
            Some((key, finger)) => r.public_key@ == key@ && r.key_finger@ == finger@ && r.secret,
            None => r.public_key@.len() == 0 && r.key_finger@.len() == 0 && !r.secret,
        },
{
    match rsa {
        Some((key, finger)) => HandshakeReply {
            version: version.clone(),
            public_key: key,
            secret: true,
            key_finger: finger,
        },
        None => HandshakeReply {
            version: version.clone(),
            public_key: Vec::new(),
            secret: false,
            key_finger: String::new(),
        },
    }
}

/// A client after expiry: offline once its (group, virtual IP) session is gone.
pub open spec fn after_expiry(c: ClientInfo, token: Seq<char>, s: Seq<Session>) -> ClientInfo {
    if key_lookup(s, token, c.virtual_ip) is None {
        ClientInfo { online: false, ..c }
    } else {
        c
    }
}

/// Marks offline every client of `net` whose (`token`, virtual IP) has no session in `s`.
fn mark_offline(net: &mut NetworkInfo, token: &String, s: &Vec<Session>)
    requires
        old(net).wf(),
    ensures
        final(net).wf(),
        final(net).epoch == old(net).epoch,
        final(net).gateway_ip == old(net).gateway_ip,
        final(net).mask_ip == old(net).mask_ip,
        final(net).network_ip == old(net).network_ip,
        final(net).clients@.len() == old(net).clients@.len(),
        forall|i: int|
            0 <= i < old(net).clients@.len() ==> final(net).clients@[i] == after_expiry(
                old(net).clients@[i],
                token@,
                s@,
            ),
{
    let ghost oc = net.clients@;
    let mut i: usize = 0;
    while i < net.clients.len()
        invariant
            net.wf(),
            net.epoch == old(net).epoch,
            net.gateway_ip == old(net).gateway_ip,
            net.mask_ip == old(net).mask_ip,
            net.network_ip == old(net).network_ip,
            net.clients@.len() == oc.len(),
            0 <= i <= oc.len(),
            forall|j: int| 0 <= j < i ==> net.clients@[j] == after_expiry(oc[j], token@, s@),
            forall|j: int| i <= j < oc.len() ==> net.clients@[j] == oc[j],
        decreases oc.len() - i,
    {
        let vip = net.clients[i].virtual_ip;
        let gone = find_key(s, token, vip).is_none();
        proof {
            if !gone {
                assert(exists|j: int|
                    0 <= j < s@.len() && s@[j].group@ == token@ && s@[j].virtual_ip == vip);
            }
        }
        if gone {
            let ghost pre = net.clients@;
            let c = net.clients.remove(i);
            let ClientInfo {
                device_id,
                name,
                client_secret,
                address,
                online: _,
                virtual_ip,
                tcp_sender,
                client_status,
            } = c;
            let entry = ClientInfo {
                device_id,
                name,
                client_secret,
                address,
                online: false,
                virtual_ip,
                tcp_sender,
                client_status,
            };
            let ghost before = net.clients@;
            net.clients.insert(i, entry);
            proof {
                let n = net.clients@;
                assert(n =~= pre.update(i as int, entry));
                assert forall|a: int, b: int|
                    0 <= a < n.len() && 0 <= b < n.len() && a != b implies #[trigger] n[a].virtual_ip
                    != #[trigger] n[b].virtual_ip by {
                    assert(n[a].virtual_ip == pre[a].virtual_ip);
                    assert(n[b].virtual_ip == pre[b].virtual_ip);
                }
                assert forall|a: int| 0 <= a < n.len() implies #[trigger] crate::entity::in_range(
                    net.gateway_ip,
                    net.mask_ip,
                    n[a].virtual_ip,
                ) && n[a].virtual_ip != net.gateway_ip by {
                    assert(n[a].virtual_ip == pre[a].virtual_ip);
                    assert(crate::entity::in_range(net.gateway_ip, net.mask_ip, pre[a].virtual_ip));
                }
            }
        }
        i = i + 1;
    }
}

impl ServerPacketHandler {
    /// Drops every address, key and cipher session not written within `ttl`
    /// milliseconds before `now` (the rest keep their order and bindings), and
    /// marks offline every client whose key session is gone. Epochs stay.
    pub fn expire(&mut self, now: i64, ttl: i64)
        requires
            old(self).wf(),
        ensures
            final(self).wf(),
            final(self).config == old(self).config,
            final(self).groups@.len() == old(self).groups@.len(),
            forall|g: int|
                0 <= g < old(self).groups@.len() ==> {
                    let o = #[trigger] old(self).groups@[g];
                    let n = final(self).groups@[g];
                    &&& n.token == o.token
                    &&& n.network.epoch == o.network.epoch
                    &&& n.network.gateway_ip == o.network.gateway_ip
                    &&& n.network.mask_ip == o.network.mask_ip
                    &&& n.network.network_ip == o.network.network_ip
                    &&& n.network.clients@.len() == o.network.clients@.len()
                    &&& forall|i: int|
                        0 <= i < o.network.clients@.len() ==> n.network.clients@[i] == after_expiry(
                            o.network.clients@[i],
                            o.token@,
                            final(self).ip_sessions@,
                        )
                },
            final(self).addr_sessions@ == kept(
                old(self).addr_sessions@,
                |x: Session| fresh(x.updated, now, ttl),
            ),
            final(self).ip_sessions@ == kept(
                old(self).ip_sessions@,
                |x: Session| fresh(x.updated, now, ttl),
            ),
            final(self).cipher_sessions@ == kept(
                old(self).cipher_sessions@,
                |x: CipherSession| fresh(x.updated, now, ttl),
            ),
    {
        let mut a: Vec<Session> = Vec::new();
        core::mem::swap(&mut a, &mut self.addr_sessions);
        self.addr_sessions = retain_fresh(a, now, ttl);
        let mut b: Vec<Session> = Vec::new();
        core::mem::swap(&mut b, &mut self.ip_sessions);
        self.ip_sessions = retain_fresh(b, now, ttl);
        let mut c: Vec<CipherSession> = Vec::new();
        core::mem::swap(&mut c, &mut self.cipher_sessions);
        self.cipher_sessions = retain_fresh_ciphers(c, now, ttl);
        let ghost og = self.groups@;
        let mut g: usize = 0;
        while g < self.groups.len()
            invariant
                self.config == old(self).config,
                self.addr_sessions@ == kept(
                    old(self).addr_sessions@,
                    |x: Session| fresh(x.updated, now, ttl),
                ),
                self.cipher_sessions@ == kept(
                    old(self).cipher_sessions@,
                    |x: CipherSession| fresh(x.updated, now, ttl),
                ),
                self.ip_sessions@ == kept(
                    old(self).ip_sessions@,
                    |x: Session| fresh(x.updated, now, ttl),
                ),
                og == old(self).groups@,
                self.groups@.len() == og.len(),
                0 <= g <= og.len(),
                forall|j: int|
                    0 <= j < og.len() ==> (#[trigger] self.groups@[j]).network.wf()
                        && self.groups@[j].network.gateway_ip == self.config.gateway
                        && self.groups@[j].network.mask_ip == self.config.netmask,
                forall|j: int| 0 <= j < og.len() ==> (#[trigger] self.groups@[j]).token == og[j].token,
                forall|j: int| g <= j < og.len() ==> #[trigger] self.groups@[j] == og[j],
                forall|j: int|
                    0 <= j < g ==> {
                        let o = #[trigger] og[j];
                        let n = self.groups@[j];
                        &&& n.network.epoch == o.network.epoch
                        &&& n.network.gateway_ip == o.network.gateway_ip
                        &&& n.network.mask_ip == o.network.mask_ip
                        &&& n.network.network_ip == o.network.network_ip
                        &&& n.network.clients@.len() == o.network.clients@.len()
                        &&& forall|i: int|
                            0 <= i < o.network.clients@.len() ==> n.network.clients@[i]
                                == after_expiry(o.network.clients@[i], o.token@, self.ip_sessions@)
                    },
            decreases og.len() - g,
        {
            let ghost before = self.groups@;
            let mut group = self.groups.remove(g);
            mark_offline(&mut group.network, &group.token, &self.ip_sessions);
            let ghost ng = group;
            self.groups.insert(g, group);
            proof {
                assert(self.groups@ =~= before.update(g as int, ng));
            }
            g = g + 1;
        }
        proof {
            let gs = self.groups@;
            assert forall|a: int, b: int|
                0 <= a < gs.len() && 0 <= b < gs.len() && a != b implies #[trigger] gs[a].token@
                != #[trigger] gs[b].token@ by {
                assert(gs[a].token == og[a].token && gs[b].token == og[b].token);
            }
        }
        proof {
            lemma_kept_unique(
                old(self).addr_sessions@,
                |x: Session| fresh(x.updated, now, ttl),
                |x: Session| x.addr,
            );
            lemma_kept_unique(
                old(self).ip_sessions@,
                |x: Session| fresh(x.updated, now, ttl),
                |x: Session| (x.group@, x.virtual_ip),
            );
            lemma_kept_unique(
                old(self).cipher_sessions@,
                |x: CipherSession| fresh(x.updated, now, ttl),
                |x: CipherSession| x.addr,
            );
        }
    }

    /// Completes a secret handshake from `addr` with the key and token that
    /// the peer sent: a key of 32 bytes is bound to the address (replacing any
    /// earlier session, stamped `now`) before the empty reply is made; any other length is
    /// refused and nothing changes.
    pub fn install_cipher_session(
        &mut self,
        addr: PeerAddr,
        key: Vec<u8>,
        token: String,
        now: i64,
    ) -> (r:
        Result<NetPacket, Error>)
        requires
            old(self).wf(),
        ensures
            final(self).wf(),
            final(self).config == old(self).config,
            final(self).groups@ == old(self).groups@,
            final(self).addr_sessions@ == old(self).addr_sessions@,
            final(self).ip_sessions@ == old(self).ip_sessions@,
            key@.len() != 32 ==> (r matches Err(Error::Other(m)) && m@ == "key err"@)
                && final(self).cipher_sessions@ == old(self).cipher_sessions@,
            key@.len() == 32 ==> {
                &&& r matches Ok(p) && {
                    &&& p.wf()
                    &&& p.protocol_spec() == SERVICE
                    &&& p.transport_spec() == SECRET_HANDSHAKE_RESPONSE
                    &&& !p.encrypted_spec()
                    &&& p.payload_spec().len() == 0
                }
                &&& cipher_lookup(final(self).cipher_sessions@, addr) == Some((key@, token@))
                &&& forall|b: PeerAddr|
                    b != addr ==> cipher_lookup(final(self).cipher_sessions@, b) == cipher_lookup(
                        old(self).cipher_sessions@,
                        b,
                    )
            },
    {
        if key.len() != 32 {
            let m = String::from_str("key err");
            proof {
                reveal_strlit("key err");
            }
            return Err(Error::Other(m));
        }
        insert_cipher_session(&mut self.cipher_sessions, addr, key, token, now);
        let empty: Vec<u8> = Vec::new();
        Ok(build_reply(SERVICE, SECRET_HANDSHAKE_RESPONSE, empty.as_slice()))
    }

    /// The pong for a ping from the peer of `ctx`, carrying its group's epoch.
    pub fn control_ping(&self, ctx: Context, ping: &NetPacket) -> (r: Result<NetPacket, FrameError>)
        requires
            ctx.group < self.groups@.len(),
            ping.wf(),
        ensures
            pong_spec(ping, self.groups@[ctx.group as int].network.epoch, r),
    {
        let epoch = self.groups[ctx.group].network.epoch;
        pong(ping, epoch)
    }

    /// The directory snapshot for the peer of `ctx`: its group's epoch (modulo
    /// 2^32) and every other client of the group.
    pub fn poll_device_list(&self, ctx: Context) -> (r: (u32, Vec<DeviceInfo>))
        requires
            ctx.group < self.groups@.len(),
        ensures
            r.0 == (self.groups@[ctx.group as int].network.epoch as int % 0x1_0000_0000) as u32,
            r.1@ == device_infos(
                self.groups@[ctx.group as int].network.clients@,
                ctx.virtual_ip,
            ),
    {
        let net = &self.groups[ctx.group].network;
        let list = clients_info(net, ctx.virtual_ip);
        ((net.epoch % 0x1_0000_0000) as u32, list)
    }

    /// Stamps `report` (received at `now`) on the client of the reporting
    /// peer's group whose virtual IP is `report.source`; if there is none,
    /// nothing changes. Nothing else changes either.
    pub fn up_client_status_info(&mut self, ctx: Context, report: ClientStatusReport, now: i64)
        requires
            old(self).wf(),
            ctx.group < old(self).groups@.len(),
        ensures
            final(self).wf(),
            final(self).config == old(self).config,
            final(self).addr_sessions@ == old(self).addr_sessions@,
            final(self).ip_sessions@ == old(self).ip_sessions@,
            final(self).cipher_sessions@ == old(self).cipher_sessions@,
            status_updated(old(self), final(self), ctx.group as int, report, now),
    {
        let ghost og = self.groups@;
        let mut group = self.groups.remove(ctx.group);
        let ghost oc = group.network.clients@;
        match group.network.find_index(report.source) {
            None => {},
            Some(k) => {
                let c = group.network.clients.remove(k);
                let status = ClientStatusInfo {
                    p2p_list: report.p2p_list,
                    up_stream: report.up_stream,
                    down_stream: report.down_stream,
                    is_cone: report.is_cone,
                    update_time: now,
                };
                let ClientInfo {
                    device_id,
                    name,
                    client_secret,
                    address,
                    online,
                    virtual_ip,
                    tcp_sender,
                    client_status: _,
                } = c;
                let entry = ClientInfo {
                    device_id,
                    name,
                    client_secret,
                    address,
                    online,
                    virtual_ip,
                    tcp_sender,
                    client_status: Some(status),
                };
                group.network.clients.insert(k, entry);
                proof {
                    let j = choose|j: int| 0 <= j < oc.len() && oc[j].virtual_ip == report.source;
                    assert(j == k as int);
                    assert(group.network.clients@ =~= oc.update(k as int, entry));
                    let n = group.network.clients@;
                    assert forall|a: int, b: int|
                        0 <= a < n.len() && 0 <= b < n.len() && a != b implies #[trigger] n[a].virtual_ip
                        != #[trigger] n[b].virtual_ip by {
                        assert(n[a].virtual_ip == oc[a].virtual_ip);
                        assert(n[b].virtual_ip == oc[b].virtual_ip);
                    }
                    assert forall|a: int| 0 <= a < n.len() implies #[trigger] crate::entity::in_range(
                        group.network.gateway_ip,
                        group.network.mask_ip,
                        n[a].virtual_ip,
                    ) && n[a].virtual_ip != group.network.gateway_ip by {
                        assert(n[a].virtual_ip == oc[a].virtual_ip);
                    }
                }
            },
        }
        let ghost ng = group;
        self.groups.insert(ctx.group, group);
        proof {
            assert(self.groups@ =~= og.update(ctx.group as int, ng));
            let gs = self.groups@;
            assert forall|a: int, b: int|
                0 <= a < gs.len() && 0 <= b < gs.len() && a != b implies #[trigger] gs[a].token@
                != #[trigger] gs[b].token@ by {
                assert(gs[a].token == og[a].token);
                assert(gs[b].token == og[b].token);
            }
            assert forall|i: int| 0 <= i < gs.len() implies (#[trigger] gs[i]).network.wf()
                && gs[i].network.gateway_ip == self.config.gateway && gs[i].network.mask_ip
                == self.config.netmask by {
                if i != ctx.group {
                    assert(gs[i] == og[i]);
                }
            }
        }
    }

    /// `up_client_status_info` stamped with the current time, which it returns.
    pub fn up_client_status_info_now(&mut self, ctx: Context, report: ClientStatusReport) -> (t: i64)
        requires
            old(self).wf(),
            ctx.group < old(self).groups@.len(),
        ensures
            final(self).wf(),
            final(self).config == old(self).config,
            final(self).addr_sessions@ == old(self).addr_sessions@,
            final(self).ip_sessions@ == old(self).ip_sessions@,
            final(self).cipher_sessions@ == old(self).cipher_sessions@,
            status_updated(old(self), final(self), ctx.group as int, report, t),
    {
        let now = now_millis();
        self.up_client_status_info(ctx, report, now);
        now
    }
}

/// `after` is `before` with `report` (stamped `now`) recorded on the client of
/// group `g` that holds `report.source`, if any.
pub open spec fn status_updated(
    before: &ServerPacketHandler,
    after: &ServerPacketHandler,
    g: int,
    report: ClientStatusReport,
    now: i64,
) -> bool {
    let oc = before.groups@[g].network.clients@;
    let nc = after.groups@[g].network.clients@;
    &&& after.groups@.len() == before.groups@.len()
    &&& forall|i: int| 0 <= i < before.groups@.len() && i != g ==> after.groups@[i] == before.groups@[i]
    &&& after.groups@[g].token == before.groups@[g].token
    &&& after.groups@[g].network.epoch == before.groups@[g].network.epoch
    &&& after.groups@[g].network.gateway_ip == before.groups@[g].network.gateway_ip
    &&& after.groups@[g].network.mask_ip == before.groups@[g].network.mask_ip
    &&& after.groups@[g].network.network_ip == before.groups@[g].network.network_ip
    &&& !holds(oc, report.source) ==> nc == oc
    &&& holds(oc, report.source) ==> {
        let k = crate::allocator::index_of(oc, report.source);
        nc == oc.update(
            k,
            ClientInfo {
                client_status: Some(
                    ClientStatusInfo {
                        p2p_list: report.p2p_list,
                        up_stream: report.up_stream,
                        down_stream: report.down_stream,
                        is_cone: report.is_cone,
                        update_time: now,
                    },
                ),
                ..oc[k]
            },
        )
    }
}

} // verus!
