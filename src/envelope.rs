use vstd::prelude::*;

verus! {

/// Length of the fixed frame header.
pub const HEAD_LEN: usize = 12;

/// Bytes kept free at the tail of an encryptable frame (GCM tag and nonce material).
pub const ENCRYPTION_RESERVED: usize = 28;

/// Version number written in the low nibble of the flags byte.
pub const VERSION: u8 = 1;

/// Protocol classes (byte 1 of the header).
pub const SERVICE: u8 = 1;
pub const ERROR: u8 = 2;
pub const CONTROL: u8 = 3;
pub const IP_TURN: u8 = 4;

/// Service sub-protocols.
pub const HANDSHAKE_REQUEST: u8 = 1;
pub const HANDSHAKE_RESPONSE: u8 = 2;
pub const SECRET_HANDSHAKE_REQUEST: u8 = 3;
pub const SECRET_HANDSHAKE_RESPONSE: u8 = 4;
pub const REGISTRATION_REQUEST: u8 = 5;
pub const REGISTRATION_RESPONSE: u8 = 6;
pub const POLL_DEVICE_LIST: u8 = 7;
pub const PUSH_DEVICE_LIST: u8 = 8;
pub const CLIENT_STATUS_INFO: u8 = 9;

/// Control sub-protocols.
pub const PING: u8 = 1;
pub const PONG: u8 = 2;
pub const ADDR_REQUEST: u8 = 5;
pub const ADDR_RESPONSE: u8 = 6;

/// IP-turn sub-protocols.
pub const IPV4: u8 = 4;
pub const IPV4_BROADCAST: u8 = 201;

pub const ENCRYPTED_BIT: u8 = 0x80;
pub const GATEWAY_BIT: u8 = 0x40;

/// Big-endian reading of four bytes.
pub open spec fn be32(a: u8, b: u8, c: u8, d: u8) -> u32 {
    ((a as u32) << 24u32) | ((b as u32) << 16u32) | ((c as u32) << 8u32) | (d as u32)
}

/// Big-endian reading of four bytes of `s` at `i`.
pub open spec fn be32_at(s: Seq<u8>, i: int) -> u32 {
    be32(s[i], s[i + 1], s[i + 2], s[i + 3])
}

/// Big-endian reading of two bytes of `s` at `i`.
pub open spec fn be16_at(s: Seq<u8>, i: int) -> int {
    s[i] as int * 256 + s[i + 1] as int
}

pub proof fn lemma_be32_bytes(v: u32)
    ensures
        be32((v >> 24u32) as u8, (v >> 16u32) as u8, (v >> 8u32) as u8, v as u8) == v,
{
    assert(((((v >> 24u32) as u8) as u32) << 24u32) | ((((v >> 16u32) as u8) as u32) << 16u32)
        | ((((v >> 8u32) as u8) as u32) << 8u32) | ((v as u8) as u32) == v) by (bit_vector);
}

/// Reads a big-endian u32 out of `s` at `i`.
pub fn read_be32(s: &[u8], i: usize) -> (r: u32)
    requires
        i + 4 <= s@.len(),
    ensures
        r == be32_at(s@, i as int),
{
    ((s[i] as u32) << 24u32) | ((s[i + 1] as u32) << 16u32) | ((s[i + 2] as u32) << 8u32) | (
    s[i + 3] as u32)
}

/// Writes `v` big-endian into `s` at `i`, leaving the other bytes alone.
pub fn write_be32(s: &mut Vec<u8>, i: usize, v: u32)
    requires
        i + 4 <= old(s)@.len(),
    ensures
        final(s)@.len() == old(s)@.len(),
        be32_at(final(s)@, i as int) == v,
        forall|j: int| 0 <= j < old(s)@.len() && !(i <= j < i + 4) ==> final(s)@[j] == old(s)@[j],
{
    let b0: u8 = #[verifier::truncate] ((v >> 24u32) as u8);
    let b1: u8 = #[verifier::truncate] ((v >> 16u32) as u8);
    let b2: u8 = #[verifier::truncate] ((v >> 8u32) as u8);
    let b3: u8 = #[verifier::truncate] (v as u8);
    let n: usize = s.len();
    let i1: usize = i + 1;
    let i2: usize = i + 2;
    let i3: usize = i + 3;
    s.set(i, b0);
    s.set(i1, b1);
    s.set(i2, b2);
    s.set(i3, b3);
    proof {
        lemma_be32_bytes(v);
    }
}

/// A buffer of `n` zero bytes.
pub fn zeroed(n: usize) -> (r: Vec<u8>)
    ensures
        r@.len() == n,
        forall|j: int| 0 <= j < n ==> r@[j] == 0,
{
    let mut r: Vec<u8> = Vec::new();
    let mut i: usize = 0;
    while i < n
        invariant
            0 <= i <= n,
            r@.len() == i,
            forall|j: int| 0 <= j < i ==> r@[j] == 0,
        decreases n - i,
    {
        r.push(0);
        i = i + 1;
    }
    r
}

/// Makes a clear-text frame of the given class and sub-protocol carrying `body`.
pub fn build_reply(protocol: u8, transport: u8, body: &[u8]) -> (r: NetPacket)
    requires
        body@.len() + HEAD_LEN + ENCRYPTION_RESERVED <= usize::MAX,
    ensures
        r.wf(),
        r.protocol_spec() == protocol,
        r.transport_spec() == transport,
        !r.encrypted_spec(),
        !r.gateway_spec(),
        r.payload_spec() == body@,
        r.data_len == HEAD_LEN + body@.len(),
{
    let buf = zeroed(HEAD_LEN + body.len() + ENCRYPTION_RESERVED);
    let mut p = NetPacket::new_encrypt(buf).unwrap();
    p.set_protocol(protocol);
    p.set_transport_protocol(transport);
    let _ = p.set_payload(body);
    assert(1u8 & 0x80u8 == 0 && 1u8 & 0x40u8 == 0) by (bit_vector);
    assert(p.payload_spec() =~= body@);
    p
}

#[derive(Debug, PartialEq, Eq, Structural, Clone, Copy)]
pub enum FrameError {
    /// The buffer cannot hold the header (and the reserved tail, where one is asked for).
    TooShort,
    /// A payload does not fit the room the frame has for it.
    TooLong,
}

/// A frame: a header of `HEAD_LEN` bytes, the payload, and (for an encryptable
/// frame) a reserved tail. Only `buffer[..data_len]` is sent.
pub struct NetPacket {
    pub buffer: Vec<u8>,
    pub data_len: usize,
}

impl NetPacket {
    pub open spec fn wf(&self) -> bool {
        HEAD_LEN <= self.data_len <= self.buffer@.len()
    }

    /// The bytes that go on the wire.
    pub open spec fn frame(&self) -> Seq<u8> {
        self.buffer@.subrange(0, self.data_len as int)
    }

    pub open spec fn payload_spec(&self) -> Seq<u8> {
        self.buffer@.subrange(HEAD_LEN as int, self.data_len as int)
    }

    pub open spec fn protocol_spec(&self) -> u8 {
        self.buffer@[1]
    }

    pub open spec fn transport_spec(&self) -> u8 {
        self.buffer@[2]
    }

    pub open spec fn encrypted_spec(&self) -> bool {
        self.buffer@[0] & ENCRYPTED_BIT != 0
    }

    pub open spec fn gateway_spec(&self) -> bool {
        self.buffer@[0] & GATEWAY_BIT != 0
    }

    pub open spec fn source_spec(&self) -> u32 {
        be32_at(self.buffer@, 4)
    }

    pub open spec fn destination_spec(&self) -> u32 {
        be32_at(self.buffer@, 8)
    }

    /// Takes a received frame; the whole buffer is the frame.
    pub fn new(buffer: Vec<u8>) -> (r: Result<NetPacket, FrameError>)
        ensures
            buffer@.len() < HEAD_LEN ==> r == Err::<NetPacket, FrameError>(FrameError::TooShort),
            buffer@.len() >= HEAD_LEN ==> (r matches Ok(p) && p.wf() && p.buffer@ == buffer@
                && p.data_len == buffer@.len()),
    {
        if buffer.len() < HEAD_LEN {
            return Err(FrameError::TooShort);
        }
        let data_len = buffer.len();
        Ok(NetPacket { buffer, data_len })
    }

    /// Makes an encryptable frame over `buffer`: the last `ENCRYPTION_RESERVED`
    /// bytes are kept out of the frame; the flags byte gets the version.
    pub fn new_encrypt(buffer: Vec<u8>) -> (r: Result<NetPacket, FrameError>)
        ensures
            buffer@.len() < HEAD_LEN + ENCRYPTION_RESERVED ==> r == Err::<NetPacket, FrameError>(
                FrameError::TooShort,
            ),
            buffer@.len() >= HEAD_LEN + ENCRYPTION_RESERVED ==> (r matches Ok(p) && p.wf()
                && p.buffer@ == buffer@.update(0, VERSION) && p.data_len == buffer@.len()
                - ENCRYPTION_RESERVED),
    {
        if buffer.len() < HEAD_LEN + ENCRYPTION_RESERVED {
            return Err(FrameError::TooShort);
        }
        let data_len = buffer.len() - ENCRYPTION_RESERVED;
        let mut buffer = buffer;
        buffer.set(0, VERSION);
        Ok(NetPacket { buffer, data_len })
    }

    pub fn protocol(&self) -> (r: u8)
        requires
            self.wf(),
        ensures
            r == self.protocol_spec(),
    {
        self.buffer[1]
    }

    pub fn transport_protocol(&self) -> (r: u8)
        requires
            self.wf(),
        ensures
            r == self.transport_spec(),
    {
        self.buffer[2]
    }

    pub fn is_encrypt(&self) -> (r: bool)
        requires
            self.wf(),
        ensures
            r == self.encrypted_spec(),
    {
        self.buffer[0] & ENCRYPTED_BIT != 0
    }

    pub fn is_gateway(&self) -> (r: bool)
        requires
            self.wf(),
        ensures
            r == self.gateway_spec(),
    {
        self.buffer[0] & GATEWAY_BIT != 0
    }

    pub fn source(&self) -> (r: u32)
        requires
            self.wf(),
        ensures
            r == self.source_spec(),
    {
        read_be32(self.buffer.as_slice(), 4)
    }

    pub fn destination(&self) -> (r: u32)
        requires
            self.wf(),
        ensures
            r == self.destination_spec(),
    {
        read_be32(self.buffer.as_slice(), 8)
    }

    pub fn set_protocol(&mut self, v: u8)
        requires
            old(self).wf(),
        ensures
            final(self).wf(),
            final(self).data_len == old(self).data_len,
            final(self).buffer@ == old(self).buffer@.update(1, v),
    {
        self.buffer.set(1, v);
    }

    pub fn set_transport_protocol(&mut self, v: u8)
        requires
            old(self).wf(),
        ensures
            final(self).wf(),
            final(self).data_len == old(self).data_len,
            final(self).buffer@ == old(self).buffer@.update(2, v),
    {
        self.buffer.set(2, v);
    }

    /// Marks (or unmarks) a frame as made by the server itself.
    pub fn set_gateway_flag(&mut self, on: bool)
        requires
            old(self).wf(),
        ensures
            final(self).wf(),
            final(self).data_len == old(self).data_len,
            final(self).gateway_spec() == on,
            final(self).encrypted_spec() == old(self).encrypted_spec(),
            final(self).buffer@ == old(self).buffer@.update(0, final(self).buffer@[0]),
    {
        let b = self.buffer[0];
        let nb: u8 = if on { b | GATEWAY_BIT } else { b & !GATEWAY_BIT };
        assert(on ==> (b | 0x40u8) & 0x40u8 != 0 && ((b | 0x40u8) & 0x80u8 != 0) == (b & 0x80u8
            != 0)) by (bit_vector);
        assert(!on ==> (b & !0x40u8) & 0x40u8 == 0 && ((b & !0x40u8) & 0x80u8 != 0) == (b & 0x80u8
            != 0)) by (bit_vector);
        self.buffer.set(0, nb);
    }

    pub fn set_source(&mut self, v: u32)
        requires
            old(self).wf(),
        ensures
            final(self).wf(),
            final(self).data_len == old(self).data_len,
            final(self).source_spec() == v,
            forall|j: int|
                0 <= j < old(self).buffer@.len() && !(4 <= j < 8) ==> final(self).buffer@[j]
                    == old(self).buffer@[j],
            final(self).buffer@.len() == old(self).buffer@.len(),
    {
        write_be32(&mut self.buffer, 4, v);
    }

    pub fn set_destination(&mut self, v: u32)
        requires
            old(self).wf(),
        ensures
            final(self).wf(),
            final(self).data_len == old(self).data_len,
            final(self).destination_spec() == v,
            forall|j: int|
                0 <= j < old(self).buffer@.len() && !(8 <= j < 12) ==> final(self).buffer@[j]
                    == old(self).buffer@[j],
            final(self).buffer@.len() == old(self).buffer@.len(),
    {
        write_be32(&mut self.buffer, 8, v);
    }

    /// Writes byte `v` at `i` of the buffer.
    pub fn set_byte(&mut self, i: usize, v: u8)
        requires
            old(self).wf(),
            i < old(self).buffer@.len(),
        ensures
            final(self).wf(),
            final(self).data_len == old(self).data_len,
            final(self).buffer@ == old(self).buffer@.update(i as int, v),
    {
        self.buffer.set(i, v);
    }

    /// A copy of the payload.
    pub fn payload(&self) -> (r: Vec<u8>)
        requires
            self.wf(),
        ensures
            r@ == self.payload_spec(),
    {
        let mut r: Vec<u8> = Vec::new();
        let mut i: usize = HEAD_LEN;
        while i < self.data_len
            invariant
                self.wf(),
                HEAD_LEN <= i <= self.data_len,
                r@ == self.buffer@.subrange(HEAD_LEN as int, i as int),
            decreases self.data_len - i,
        {
            r.push(self.buffer[i]);
            i = i + 1;
            assert(r@ =~= self.buffer@.subrange(HEAD_LEN as int, i as int));
        }
        r
    }

    /// A copy of the frame as it goes on the wire.
    pub fn to_bytes(&self) -> (r: Vec<u8>)
        requires
            self.wf(),
        ensures
            r@ == self.frame(),
    {
        let mut r: Vec<u8> = Vec::new();
        let mut i: usize = 0;
        while i < self.data_len
            invariant
                self.wf(),
                0 <= i <= self.data_len,
                r@ == self.buffer@.subrange(0, i as int),
            decreases self.data_len - i,
        {
            r.push(self.buffer[i]);
            i = i + 1;
            assert(r@ =~= self.buffer@.subrange(0, i as int));
        }
        r
    }

    /// Copies `payload` to the start of the payload area; the rest of the frame
    /// is left as it was.
    pub fn set_payload(&mut self, payload: &[u8]) -> (r: Result<(), FrameError>)
        requires
            old(self).wf(),
        ensures
            final(self).wf(),
            final(self).data_len == old(self).data_len,
            final(self).buffer@.len() == old(self).buffer@.len(),
            HEAD_LEN + payload@.len() > old(self).data_len ==> r == Err::<(), FrameError>(
                FrameError::TooLong,
            ) && final(self).buffer@ == old(self).buffer@,
            HEAD_LEN + payload@.len() <= old(self).data_len ==> r == Ok::<(), FrameError>(())
                && final(self).buffer@ == old(self).buffer@.subrange(0, HEAD_LEN as int) + payload@
                + old(self).buffer@.subrange(
                HEAD_LEN + payload@.len(),
                old(self).buffer@.len() as int,
            ),
    {
        if payload.len() > self.data_len - HEAD_LEN {
            return Err(FrameError::TooLong);
        }
        let mut i: usize = 0;
        while i < payload.len()
            invariant
                self.wf(),
                self.data_len == old(self).data_len,
                HEAD_LEN + payload@.len() <= self.data_len,
                self.buffer@.len() == old(self).buffer@.len(),
                0 <= i <= payload@.len(),
                self.buffer@ == old(self).buffer@.subrange(0, HEAD_LEN as int) + payload@.subrange(
                    0,
                    i as int,
                ) + old(self).buffer@.subrange(HEAD_LEN + i, old(self).buffer@.len() as int),
            decreases payload@.len() - i,
        {
            self.buffer.set(HEAD_LEN + i, payload[i]);
            i = i + 1;
            assert(self.buffer@ =~= old(self).buffer@.subrange(0, HEAD_LEN as int)
                + payload@.subrange(0, i as int) + old(self).buffer@.subrange(
                HEAD_LEN + i,
                old(self).buffer@.len() as int,
            ));
        }
        assert(payload@.subrange(0, i as int) =~= payload@);
        Ok(())
    }
}

/// Splits a broadcast payload: a count byte, that many big-endian IPv4
/// addresses to leave out, then the frame to broadcast.
pub fn parse_broadcast(payload: &[u8]) -> (r: Result<(Vec<u32>, Vec<u8>), FrameError>)
    ensures
        (payload@.len() == 0 || 1 + 4 * payload@[0] > payload@.len()) ==> r == Err::<
            (Vec<u32>, Vec<u8>),
            FrameError,
        >(FrameError::TooShort),
        !(payload@.len() == 0 || 1 + 4 * payload@[0] > payload@.len()) ==> (r matches Ok(
            (ex, data),
        ) && ex@.len() == payload@[0] && (forall|i: int|
            0 <= i < ex@.len() ==> ex@[i] == be32_at(payload@, 1 + 4 * i)) && data@
            == payload@.subrange(1 + 4 * payload@[0], payload@.len() as int)),
{
    if payload.len() == 0 {
        return Err(FrameError::TooShort);
    }
    let n: usize = payload[0] as usize;
    if 1 + 4 * n > payload.len() {
        return Err(FrameError::TooShort);
    }
    let mut ex: Vec<u32> = Vec::new();
    let mut i: usize = 0;
    while i < n
        invariant
            n == payload@[0],
            1 + 4 * n <= payload@.len(),
            0 <= i <= n,
            ex@.len() == i,
            forall|j: int| 0 <= j < i ==> ex@[j] == be32_at(payload@, 1 + 4 * j),
        decreases n - i,
    {
        ex.push(read_be32(payload, 1 + 4 * i));
        i = i + 1;
    }
    let mut data: Vec<u8> = Vec::new();
    let start: usize = 1 + 4 * n;
    let mut k: usize = start;
    while k < payload.len()
        invariant
            start <= k <= payload@.len(),
            data@ == payload@.subrange(start as int, k as int),
        decreases payload@.len() - k,
    {
        data.push(payload[k]);
        k = k + 1;
        assert(data@ =~= payload@.subrange(start as int, k as int));
    }
    Ok((ex, data))
}

} // verus!
