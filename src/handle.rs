use vstd::prelude::*;
use crate::allocator::Error;
use crate::directory::{broadcast_set, broadcast_targets};
use crate::dispatch::{route_spec, Dispatch, Route};
use crate::entity::PeerAddr;
use crate::envelope::{be32_at, parse_broadcast, NetPacket, ENCRYPTED_BIT, HEAD_LEN};
use crate::handlers::{addr_reply_spec, control_addr_request, pong_spec};
use crate::icmp::{gateway_icmp_reply, icmp_reply_spec};
use crate::server::{reflect_v4, ServerPacketHandler};

verus! {

/// What the caller is to do after a frame was handled.
pub enum Action {
    /// Send this frame back to the peer.
    Reply(NetPacket),
    /// Send nothing.
    Drop,
    /// Send `frame` to the clients at positions `targets` of group `group`.
    Broadcast { group: usize, targets: Vec<usize>, frame: Vec<u8> },
    /// The body has to be decrypted or decoded first; the caller then hands it
    /// to the handler of the route.
    Forward(Dispatch),
}

/// The addresses that a broadcast payload excludes.
pub open spec fn exclude_list(pl: Seq<u8>) -> Seq<u32> {
    Seq::new(pl[0] as nat, |i: int| be32_at(pl, 1 + 4 * i))
}

/// The frame that a broadcast payload carries.
pub open spec fn broadcast_frame(pl: Seq<u8>) -> Seq<u8> {
    pl.subrange(1 + 4 * pl[0], pl.len() as int)
}

pub open spec fn broadcast_ok(pl: Seq<u8>) -> bool {
    pl.len() > 0 && 1 + 4 * pl[0] <= pl.len() && broadcast_frame(pl).len() >= HEAD_LEN
}

/// What handling `packet` gives once routing decided `d`.
pub open spec fn handle_spec(
    h: &ServerPacketHandler,
    packet: &NetPacket,
    addr: PeerAddr,
    d: Result<Dispatch, Error>,
    r: Result<Action, Error>,
) -> bool {
    match d {
        Err(e) => r == Err::<Action, Error>(e),
        Ok(dd) => if dd.decrypt {
            r == Ok::<Action, Error>(Action::Forward(dd))
        } else {
            match dd.route {
                Route::AddrRequest => r matches Ok(a) && match a {
                    Action::Reply(p) => addr_reply_spec(addr, Some(p)),
                    Action::Drop => reflect_v4(addr) is None,
                    _ => false,
                },
                Route::Ping(ctx) => if packet.payload_spec().len() > 4 {
                    r is Err
                } else {
                    r matches Ok(Action::Reply(p)) && pong_spec(
                        packet,
                        h.groups@[ctx.group as int].network.epoch,
                        Ok(p),
                    )
                },
                Route::Ipv4(_) => r matches Ok(a) && match a {
                    Action::Reply(p) => icmp_reply_spec(packet, h.config.gateway, Some(p)),
                    Action::Drop => icmp_reply_spec(packet, h.config.gateway, None),
                    _ => false,
                },
                Route::Broadcast(ctx) => {
                    let pl = packet.payload_spec();
                    if !broadcast_ok(pl) {
                        r is Err
                    } else {
                        r matches Ok(Action::Broadcast { group, targets, frame }) && group
                            == ctx.group && frame@ == broadcast_frame(pl) && targets@
                            == broadcast_set(
                            h.groups@[ctx.group as int].network.clients@,
                            exclude_list(pl),
                            broadcast_frame(pl)[0] & ENCRYPTED_BIT != 0,
                        )
                    }
                },
                _ => r == Ok::<Action, Error>(Action::Forward(dd)),
            }
        },
    }
}

impl ServerPacketHandler {
    /// Handles a frame from `addr` as far as no body decoding or decryption is
    /// needed: address reflection, ping, the gateway's ICMP echo and selective
    /// broadcast are served here; everything else is routed back to the caller.
    pub fn handle(&self, packet: &NetPacket, addr: PeerAddr) -> (r: Result<
        Action,
        Error,
    >)
        requires
            self.wf(),
            packet.wf(),
        ensures
            exists|d: Result<Dispatch, Error>|
                #[trigger] route_spec(self, packet, addr, d) && handle_spec(
                    self,
                    packet,
                    addr,
                    d,
                    r,
                ),
    {
        let d = self.route(packet, addr);
        let r = self.act(packet, addr, d);
        assert(route_spec(self, packet, addr, d));
        r
    }

    fn act(&self, packet: &NetPacket, addr: PeerAddr, d: Result<Dispatch, Error>) -> (r: Result<
        Action,
        Error,
    >)
        requires
            self.wf(),
            packet.wf(),
            d matches Ok(dd) ==> match dd.route {
                Route::Ping(c) => c.group < self.groups@.len(),
                Route::Broadcast(c) => c.group < self.groups@.len(),
                _ => true,
            },
        ensures
            handle_spec(self, packet, addr, d, r),
    {
        let dd = match d {
            Err(e) => {
                return Err(e);
            },
            Ok(dd) => dd,
        };
        if dd.decrypt {
            return Ok(Action::Forward(dd));
        }
        match dd.route {
            Route::AddrRequest => match control_addr_request(addr) {
                Some(p) => Ok(Action::Reply(p)),
                None => Ok(Action::Drop),
            },
            Route::Ping(ctx) => match self.control_ping(ctx, packet) {
                Ok(p) => Ok(Action::Reply(p)),
                Err(_) => Err(Error::Other(String::from_str("ping too long"))),
            },
            Route::Ipv4(_) => match gateway_icmp_reply(packet, self.config.gateway) {
                Some(p) => Ok(Action::Reply(p)),
                None => Ok(Action::Drop),
            },
            Route::Broadcast(ctx) => {
                let payload = packet.payload();
                let ghost pl = payload@;
                let (exclude, frame) = match parse_broadcast(payload.as_slice()) {
                    Ok(x) => x,
                    Err(_) => {
                        return Err(Error::Other(String::from_str("bad broadcast")));
                    },
                };
                if frame.len() < HEAD_LEN {
                    return Err(Error::Other(String::from_str("bad broadcast")));
                }
                let encrypted = frame[0] & ENCRYPTED_BIT != 0;
                assert(exclude@ =~= exclude_list(pl));
                let targets = broadcast_targets(&self.groups[ctx.group].network, &exclude, encrypted);
                Ok(Action::Broadcast { group: ctx.group, targets, frame })
            },
            _ => Ok(Action::Forward(dd)),
        }
    }
}

} // verus!
