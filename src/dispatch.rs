use vstd::prelude::*;
use crate::allocator::Error;
use crate::entity::PeerAddr;
use crate::envelope::{
    NetPacket, ADDR_REQUEST, CLIENT_STATUS_INFO, CONTROL, HANDSHAKE_REQUEST, IPV4, IPV4_BROADCAST,
    IP_TURN, PING, POLL_DEVICE_LIST, REGISTRATION_REQUEST, SECRET_HANDSHAKE_REQUEST, SERVICE,
};
use crate::server::{has_group, Context, ServerPacketHandler};
use crate::sessions::{addr_lookup, find_cipher, has_cipher};

verus! {

/// Which handler a frame goes to.
#[derive(Debug, PartialEq, Eq, Structural, Clone, Copy)]
pub enum Route {
    Handshake,
    SecretHandshake,
    Registration,
    AddrRequest,
    PollDeviceList(Context),
    ClientStatus(Context),
    Ping(Context),
    Broadcast(Context),
    Ipv4(Context),
}

/// A routing decision: whether the frame is to be decrypted first, and where it goes.
#[derive(Debug, PartialEq, Eq, Structural, Clone, Copy)]
pub struct Dispatch {
    pub decrypt: bool,
    pub route: Route,
}

pub open spec fn is_handshake(protocol: u8, transport: u8) -> bool {
    protocol == SERVICE && (transport == HANDSHAKE_REQUEST || transport
        == SECRET_HANDSHAKE_REQUEST)
}

/// Requests served without a session.
pub open spec fn is_no_context(protocol: u8, transport: u8) -> bool {
    (protocol == SERVICE && transport == REGISTRATION_REQUEST) || (protocol == CONTROL
        && transport == ADDR_REQUEST)
}

/// Requests served within a session.
pub open spec fn is_context_route(protocol: u8, transport: u8) -> bool {
    (protocol == SERVICE && (transport == POLL_DEVICE_LIST || transport == CLIENT_STATUS_INFO)) || (
    protocol == CONTROL && transport == PING) || (protocol == IP_TURN && (transport
        == IPV4_BROADCAST || transport == IPV4))
}

/// The route of a session request, given the peer's context.
pub open spec fn context_route(protocol: u8, transport: u8, ctx: Context) -> Route {
    if protocol == SERVICE && transport == POLL_DEVICE_LIST {
        Route::PollDeviceList(ctx)
    } else if protocol == SERVICE {
        Route::ClientStatus(ctx)
    } else if protocol == CONTROL {
        Route::Ping(ctx)
    } else if transport == IPV4_BROADCAST {
        Route::Broadcast(ctx)
    } else {
        Route::Ipv4(ctx)
    }
}

/// Whether `addr` has a session whose group exists.
pub open spec fn has_context(h: &ServerPacketHandler, addr: PeerAddr) -> bool {
    match addr_lookup(h.addr_sessions@, addr) {
        None => false,
        Some((g, _)) => has_group(h.groups@, g),
    }
}

/// What routing `packet` from `addr` decides.
pub open spec fn route_spec(
    h: &ServerPacketHandler,
    packet: &NetPacket,
    addr: PeerAddr,
    r: Result<Dispatch, Error>,
) -> bool {
    let p = packet.protocol_spec();
    let t = packet.transport_spec();
    let enc = packet.encrypted_spec();
    if is_handshake(p, t) {
        r == Ok::<Dispatch, Error>(
            Dispatch {
                decrypt: false,
                route: if t == HANDSHAKE_REQUEST {
                    Route::Handshake
                } else {
                    Route::SecretHandshake
                },
            },
        )
    } else if enc && !has_cipher(h.cipher_sessions@, addr) {
        r == Err::<Dispatch, Error>(Error::NoKey)
    } else if is_no_context(p, t) {
        r == Ok::<Dispatch, Error>(
            Dispatch {
                decrypt: enc,
                route: if p == SERVICE {
                    Route::Registration
                } else {
                    Route::AddrRequest
                },
            },
        )
    } else if !has_context(h, addr) {
        r == Err::<Dispatch, Error>(Error::Disconnect)
    } else if is_context_route(p, t) {
        r matches Ok(d) && d.decrypt == enc && {
            let ctx = match d.route {
                Route::PollDeviceList(c) => c,
                Route::ClientStatus(c) => c,
                Route::Ping(c) => c,
                Route::Broadcast(c) => c,
                Route::Ipv4(c) => c,
                _ => Context { group: 0, virtual_ip: 0 },
            };
            &&& d.route == context_route(p, t, ctx)
            &&& ctx.group < h.groups@.len()
            &&& addr_lookup(h.addr_sessions@, addr) == Some(
                (h.groups@[ctx.group as int].token@, ctx.virtual_ip),
            )
        }
    } else {
        r matches Err(Error::Other(_))
    }
}

impl ServerPacketHandler {
    /// Decides what to do with a frame from `addr`. Handshakes go through as
    /// they are.
    /// Otherwise an encrypted frame without a cipher session is refused
    /// (`NoKey`); registration and address requests need no session; the
    /// other known requests need one (`Disconnect`); the rest is unknown.
    pub fn route(&self, packet: &NetPacket, addr: PeerAddr) -> (r: Result<
        Dispatch,
        Error,
    >)
        requires
            self.wf(),
            packet.wf(),
        ensures
            route_spec(self, packet, addr, r),
    {
        let p = packet.protocol();
        let t = packet.transport_protocol();
        let enc = packet.is_encrypt();
        if p == SERVICE && t == HANDSHAKE_REQUEST {
            return Ok(Dispatch { decrypt: false, route: Route::Handshake });
        }
        if p == SERVICE && t == SECRET_HANDSHAKE_REQUEST {
            return Ok(Dispatch { decrypt: false, route: Route::SecretHandshake });
        }
        if enc && find_cipher(&self.cipher_sessions, addr).is_none() {
            return Err(Error::NoKey);
        }
        if p == SERVICE && t == REGISTRATION_REQUEST {
            return Ok(Dispatch { decrypt: enc, route: Route::Registration });
        }
        if p == CONTROL && t == ADDR_REQUEST {
            return Ok(Dispatch { decrypt: enc, route: Route::AddrRequest });
        }
        let ctx = match self.get_context(addr) {
            Some(c) => c,
            None => {
                return Err(Error::Disconnect);
            },
        };
        proof {
            crate::server::lemma_group_at(self.groups@, ctx.group as int);
        }
        let route = if p == SERVICE && t == POLL_DEVICE_LIST {
            Route::PollDeviceList(ctx)
        } else if p == SERVICE && t == CLIENT_STATUS_INFO {
            Route::ClientStatus(ctx)
        } else if p == CONTROL && t == PING {
            Route::Ping(ctx)
        } else if p == IP_TURN && t == IPV4_BROADCAST {
            Route::Broadcast(ctx)
        } else if p == IP_TURN && t == IPV4 {
            Route::Ipv4(ctx)
        } else {
            return Err(Error::Other(String::from_str("Unknown")));
        };
        Ok(Dispatch { decrypt: enc, route })
    }
}

} // verus!
