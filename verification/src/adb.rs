//! Packets of the Mi Assistant dialect and their 24-byte header.

use byteorder::{ByteOrder, LittleEndian};
use crate::text::{chars_of, lossy_text, string_of, utf8_lossy};
use vstd::prelude::*;
use vstd::string::StringSliceAdditionalSpecFns;

verus! {

/// Largest payload a packet may carry: 1 MiB.
pub const MAX_PAYLOAD: usize = 1048576;

/// Length of the fixed header in bytes.
pub const HEADER_LEN: usize = 24;

/// The command word `CNXN`: the two sides greet each other.
pub const A_CNXN: u32 = 0x4e58_4e43;

/// The command word `OPEN`: the host asks for a service.
pub const A_OPEN: u32 = 0x4e45_504f;

/// The command word `OKAY`: a packet is acknowledged.
pub const A_OKAY: u32 = 0x5941_4b4f;

/// The command word `CLSE`: a stream is closed.
pub const A_CLSE: u32 = 0x4553_4c43;

/// The command word `WRTE`: data on a stream.
pub const A_WRTE: u32 = 0x4554_5257;

/// The four bytes of `x`, least significant first.
pub open spec fn le_bytes(x: u32) -> Seq<u8> {
    seq![
        (x & 0xff) as u8,
        ((x >> 8) & 0xff) as u8,
        ((x >> 16) & 0xff) as u8,
        ((x >> 24) & 0xff) as u8,
    ]
}

/// The number whose little-endian bytes are the first four of `b`.
pub open spec fn le_value(b: Seq<u8>) -> u32
    recommends
        b.len() >= 4,
{
    (b[0] as u32) | (b[1] as u32) << 8 | (b[2] as u32) << 16 | (b[3] as u32) << 24
}

/// Reading back the bytes of a number gives the number.
pub proof fn lemma_le_value_of_bytes(x: u32)
    ensures
        le_bytes(x).len() == 4,
        le_value(le_bytes(x)) == x,
{
    assert(x == ((x & 0xff) as u8 as u32) | (((x >> 8) & 0xff) as u8 as u32) << 8 | (((x >> 16)
        & 0xff) as u8 as u32) << 16 | (((x >> 24) & 0xff) as u8 as u32) << 24) by (bit_vector);
}

/// Packs a four-character tag into the command word that carries it.
pub fn adb_cmd(b: [u8; 4]) -> (cmd: u32)
    ensures
        cmd == le_value(b@),
{
    (b[0] as u32) | ((b[1] as u32) << 8) | ((b[2] as u32) << 16) | ((b[3] as u32) << 24)
}

/// Each command word is its four ASCII letters, the first in the lowest
/// byte.
pub proof fn lemma_command_words()
    ensures
        A_CNXN == le_value(seq![0x43u8, 0x4e, 0x58, 0x4e]),
        A_OPEN == le_value(seq![0x4fu8, 0x50, 0x45, 0x4e]),
        A_OKAY == le_value(seq![0x4fu8, 0x4b, 0x41, 0x59]),
        A_CLSE == le_value(seq![0x43u8, 0x4c, 0x53, 0x45]),
        A_WRTE == le_value(seq![0x57u8, 0x52, 0x54, 0x45]),
{
    assert(0x4e58_4e43u32 == 0x43u32 | 0x4eu32 << 8 | 0x58u32 << 16 | 0x4eu32 << 24)
        by (bit_vector);
    assert(0x4e45_504fu32 == 0x4fu32 | 0x50u32 << 8 | 0x45u32 << 16 | 0x4eu32 << 24)
        by (bit_vector);
    assert(0x5941_4b4fu32 == 0x4fu32 | 0x4bu32 << 8 | 0x41u32 << 16 | 0x59u32 << 24)
        by (bit_vector);
    assert(0x4553_4c43u32 == 0x43u32 | 0x4cu32 << 8 | 0x53u32 << 16 | 0x45u32 << 24)
        by (bit_vector);
    assert(0x4554_5257u32 == 0x57u32 | 0x52u32 << 8 | 0x54u32 << 16 | 0x45u32 << 24)
        by (bit_vector);
}

/// One packet: a command word, two arguments and a payload.
#[derive(Debug, PartialEq, Eq)]
pub struct AdbPacket {
    pub cmd: u32,
    pub arg0: u32,
    pub arg1: u32,
    pub payload: Vec<u8>,
}

/// A packet as a mathematical value.
pub struct PacketView {
    pub cmd: u32,
    pub arg0: u32,
    pub arg1: u32,
    pub payload: Seq<u8>,
}

impl View for AdbPacket {
    type V = PacketView;

    open spec fn view(&self) -> PacketView {
        PacketView { cmd: self.cmd, arg0: self.arg0, arg1: self.arg1, payload: self.payload@ }
    }
}

/// The fields of a header that passed the checks on receipt.
#[derive(Debug, Clone, Copy, PartialEq, Eq, Structural)]
pub struct PacketHeader {
    pub cmd: u32,
    pub arg0: u32,
    pub arg1: u32,
    /// Number of payload bytes that follow the header.
    pub len: u32,
}

/// Why received bytes are not a packet.
#[derive(Debug, Clone, Copy, PartialEq, Eq, Structural)]
pub enum AdbError {
    /// The magic word is not the complement of the command word.
    BadMagic { magic: u32, expected: u32 },
    /// The header announces more than `MAX_PAYLOAD` bytes.
    OversizedPayload { len: u32 },
    /// The frame is shorter or longer than its header says.
    Truncated,
}

/// The magic word that belongs to `cmd`.
pub open spec fn magic_of(cmd: u32) -> u32 {
    cmd ^ 0xffff_ffff
}

/// The 24 header bytes for the given fields; the checksum word is always 0.
pub open spec fn header_bytes(cmd: u32, arg0: u32, arg1: u32, len: u32) -> Seq<u8> {
    le_bytes(cmd) + le_bytes(arg0) + le_bytes(arg1) + le_bytes(len) + le_bytes(0) + le_bytes(
        magic_of(cmd),
    )
}

/// The `i`-th 32-bit word of a header.
pub open spec fn header_word(h: Seq<u8>, i: int) -> u32 {
    le_value(h.subrange(4 * i, 4 * i + 4))
}

/// What the 24 bytes `h` decode to. The magic is checked first, then the
/// announced length; the checksum word is not looked at.
pub open spec fn parse_header(h: Seq<u8>) -> Result<PacketHeader, AdbError> {
    let cmd = header_word(h, 0);
    let len = header_word(h, 3);
    let magic = header_word(h, 5);
    if magic != magic_of(cmd) {
        Err(AdbError::BadMagic { magic, expected: magic_of(cmd) })
    } else if len > MAX_PAYLOAD {
        Err(AdbError::OversizedPayload { len })
    } else {
        Ok(PacketHeader { cmd, arg0: header_word(h, 1), arg1: header_word(h, 2), len })
    }
}

/// `byteorder::LittleEndian::write_u32` on a buffer of four bytes: the
/// buffer then holds the number's bytes, least significant first.
#[verifier::external_body]
fn write_le_u32(n: u32) -> (out: [u8; 4])
    ensures
        out@ == le_bytes(n),
{
    let mut out = [0u8; 4];
    LittleEndian::write_u32(&mut out, n);
    out
}

/// `byteorder::LittleEndian::read_u32`: the number whose little-endian
/// bytes are the first four of `buf`. It panics on a shorter buffer.
#[verifier::external_body]
fn read_le_u32(buf: &[u8]) -> (n: u32)
    requires
        buf@.len() >= 4,
    ensures
        n == le_value(buf@),
{
    LittleEndian::read_u32(buf)
}

fn push_word(out: &mut Vec<u8>, n: u32)
    ensures
        final(out)@ == old(out)@ + le_bytes(n),
{
    let word = write_le_u32(n);
    out.extend_from_slice(word.as_slice());
}

fn word_at(h: &[u8], i: usize) -> (n: u32)
    requires
        i < 6,
        h@.len() >= HEADER_LEN,
    ensures
        n == header_word(h@, i as int),
{
    read_le_u32(&h[4 * i..4 * i + 4])
}

fn header_of(h: &[u8]) -> (r: Result<PacketHeader, AdbError>)
    requires
        h@.len() >= HEADER_LEN,
    ensures
        r == parse_header(h@),
{
    let cmd = word_at(h, 0);
    let arg0 = word_at(h, 1);
    let arg1 = word_at(h, 2);
    let len = word_at(h, 3);
    let magic = word_at(h, 5);
    let expected = cmd ^ 0xffff_ffff;
    if magic != expected {
        Err(AdbError::BadMagic { magic, expected })
    } else if len as usize > MAX_PAYLOAD {
        Err(AdbError::OversizedPayload { len })
    } else {
        Ok(PacketHeader { cmd, arg0, arg1, len })
    }
}

impl Clone for AdbPacket {
    fn clone(&self) -> (pkt: Self)
        ensures
            pkt@ == self@,
    {
        AdbPacket {
            cmd: self.cmd,
            arg0: self.arg0,
            arg1: self.arg1,
            payload: self.payload.clone(),
        }
    }
}

impl AdbPacket {
    pub fn new(cmd: u32, arg0: u32, arg1: u32, payload: Vec<u8>) -> (pkt: Self)
        ensures
            pkt.cmd == cmd,
            pkt.arg0 == arg0,
            pkt.arg1 == arg1,
            pkt.payload == payload,
    {
        Self { cmd, arg0, arg1, payload }
    }

    /// The header to send ahead of the payload.
    pub fn header(&self) -> (h: Vec<u8>)
        requires
            self.payload@.len() <= u32::MAX,
        ensures
            h@ == header_bytes(self.cmd, self.arg0, self.arg1, self.payload@.len() as u32),
            h@.len() == HEADER_LEN,
    {
        let mut h: Vec<u8> = Vec::new();
        push_word(&mut h, self.cmd);
        push_word(&mut h, self.arg0);
        push_word(&mut h, self.arg1);
        push_word(&mut h, self.payload.len() as u32);
        push_word(&mut h, 0);
        push_word(&mut h, self.cmd ^ 0xffff_ffff);
        h
    }
}

/// Decodes a received header.
pub fn decode_header(h: &[u8; 24]) -> (r: Result<PacketHeader, AdbError>)
    ensures
        r == parse_header(h@),
{
    header_of(h.as_slice())
}

/// A whole packet on the wire: its header, then its payload.
pub open spec fn frame_bytes(p: PacketView) -> Seq<u8> {
    header_bytes(p.cmd, p.arg0, p.arg1, p.payload.len() as u32) + p.payload
}

/// What the bytes `f` decode to as one whole packet: the header must pass
/// `parse_header`, and exactly the announced number of bytes must follow it.
pub open spec fn parse_frame(f: Seq<u8>) -> Result<PacketView, AdbError> {
    if f.len() < HEADER_LEN {
        Err(AdbError::Truncated)
    } else {
        match parse_header(f) {
            Err(e) => Err(e),
            Ok(h) => if f.len() - HEADER_LEN != h.len {
                Err(AdbError::Truncated)
            } else {
                Ok(
                    PacketView {
                        cmd: h.cmd,
                        arg0: h.arg0,
                        arg1: h.arg1,
                        payload: f.subrange(HEADER_LEN as int, f.len() as int),
                    },
                )
            },
        }
    }
}

impl AdbPacket {
    /// The packet as it goes over the wire.
    pub fn encode(&self) -> (f: Vec<u8>)
        requires
            self.payload@.len() <= u32::MAX,
        ensures
            f@ == frame_bytes(self@),
    {
        let mut f = self.header();
        f.extend_from_slice(self.payload.as_slice());
        f
    }

    /// Decodes one whole packet.
    pub fn decode(frame: &[u8]) -> (r: Result<AdbPacket, AdbError>)
        ensures
            match parse_frame(frame@) {
                Ok(p) => r is Ok && r->Ok_0@ == p,
                Err(e) => r == Err::<AdbPacket, AdbError>(e),
            },
    {
        if frame.len() < HEADER_LEN {
            return Err(AdbError::Truncated);
        }
        match header_of(frame) {
            Err(e) => Err(e),
            Ok(h) => {
                if frame.len() - HEADER_LEN != h.len as usize {
                    Err(AdbError::Truncated)
                } else {
                    let mut payload: Vec<u8> = Vec::new();
                    payload.extend_from_slice(&frame[HEADER_LEN..frame.len()]);
                    assert(payload@ =~= frame@.subrange(HEADER_LEN as int, frame@.len() as int));
                    Ok(AdbPacket { cmd: h.cmd, arg0: h.arg0, arg1: h.arg1, payload })
                }
            },
        }
    }
}

/// The `i`-th word of an encoded header is the `i`-th field.
proof fn lemma_header_words(cmd: u32, arg0: u32, arg1: u32, len: u32, rest: Seq<u8>)
    ensures
        header_bytes(cmd, arg0, arg1, len).len() == HEADER_LEN,
        header_word(header_bytes(cmd, arg0, arg1, len) + rest, 0) == cmd,
        header_word(header_bytes(cmd, arg0, arg1, len) + rest, 1) == arg0,
        header_word(header_bytes(cmd, arg0, arg1, len) + rest, 2) == arg1,
        header_word(header_bytes(cmd, arg0, arg1, len) + rest, 3) == len,
        header_word(header_bytes(cmd, arg0, arg1, len) + rest, 4) == 0,
        header_word(header_bytes(cmd, arg0, arg1, len) + rest, 5) == magic_of(cmd),
{
    let h = header_bytes(cmd, arg0, arg1, len) + rest;
    lemma_le_value_of_bytes(cmd);
    lemma_le_value_of_bytes(arg0);
    lemma_le_value_of_bytes(arg1);
    lemma_le_value_of_bytes(len);
    lemma_le_value_of_bytes(0);
    lemma_le_value_of_bytes(magic_of(cmd));
    assert(h.subrange(0, 4) =~= le_bytes(cmd));
    assert(h.subrange(4, 8) =~= le_bytes(arg0));
    assert(h.subrange(8, 12) =~= le_bytes(arg1));
    assert(h.subrange(12, 16) =~= le_bytes(len));
    assert(h.subrange(16, 20) =~= le_bytes(0));
    assert(h.subrange(20, 24) =~= le_bytes(magic_of(cmd)));
}

/// Decoding an encoded packet gives the packet back, for every command
/// word, arguments and payload of at most `MAX_PAYLOAD` bytes.
pub proof fn lemma_packet_round_trip(p: PacketView)
    requires
        p.payload.len() <= MAX_PAYLOAD,
    ensures
        parse_header(header_bytes(p.cmd, p.arg0, p.arg1, p.payload.len() as u32)) == Ok::<
            PacketHeader,
            AdbError,
        >(PacketHeader { cmd: p.cmd, arg0: p.arg0, arg1: p.arg1, len: p.payload.len() as u32 }),
        parse_frame(frame_bytes(p)) == Ok::<PacketView, AdbError>(p),
{
    let len = p.payload.len() as u32;
    lemma_header_words(p.cmd, p.arg0, p.arg1, len, Seq::empty());
    lemma_header_words(p.cmd, p.arg0, p.arg1, len, p.payload);
    let h = header_bytes(p.cmd, p.arg0, p.arg1, len);
    assert(h + Seq::<u8>::empty() =~= h);
    let f = frame_bytes(p);
    assert(f.subrange(HEADER_LEN as int, f.len() as int) =~= p.payload);
}

/// A header whose magic word is not the complement of its command word is
/// rejected, whatever else it holds.
pub proof fn lemma_bad_magic_rejected(h: Seq<u8>)
    requires
        header_word(h, 5) != magic_of(header_word(h, 0)),
    ensures
        parse_header(h) == Err::<PacketHeader, AdbError>(
            AdbError::BadMagic {
                magic: header_word(h, 5),
                expected: magic_of(header_word(h, 0)),
            },
        ),
        parse_frame(h) is Err,
{
}


/// An OKAY packet with the given arguments.
pub open spec fn okay(arg0: u32, arg1: u32) -> PacketView {
    PacketView { cmd: A_OKAY, arg0, arg1, payload: Seq::empty() }
}

/// A WRTE packet with the given arguments and payload.
pub open spec fn wrte(arg0: u32, arg1: u32, payload: Seq<u8>) -> PacketView {
    PacketView { cmd: A_WRTE, arg0, arg1, payload }
}

/// A CLSE packet with the given arguments.
pub open spec fn clse(arg0: u32, arg1: u32) -> PacketView {
    PacketView { cmd: A_CLSE, arg0, arg1, payload: Seq::empty() }
}

/// One logical stream: the id the host chose and the id the device gave.
#[derive(Debug, Clone, Copy, PartialEq, Eq, Structural)]
pub struct AdbStream {
    pub local_id: u32,
    pub remote_id: u32,
}

impl AdbStream {
    /// The OKAY that answers a packet with arguments `pkt_arg0` and
    /// `pkt_arg1` during sideload: the same two ids, swapped.
    pub fn okay_mirror(&self, pkt_arg0: u32, pkt_arg1: u32) -> (out: AdbPacket)
        ensures
            out@ == okay(pkt_arg1, pkt_arg0),
    {
        AdbPacket::new(A_OKAY, pkt_arg1, pkt_arg0, Vec::new())
    }

    /// The WRTE that carries `payload` in answer to a packet with arguments
    /// `pkt_arg0` and `pkt_arg1` during sideload: the same two ids, swapped.
    pub fn wrte_mirror(&self, pkt_arg0: u32, pkt_arg1: u32, payload: Vec<u8>) -> (out: AdbPacket)
        ensures
            out@ == wrte(pkt_arg1, pkt_arg0, payload@),
    {
        AdbPacket::new(A_WRTE, pkt_arg1, pkt_arg0, payload)
    }

    /// The OKAY that acknowledges a WRTE of the device on an ordinary
    /// stream: the host's id, then the id the packet came with.
    pub fn ack(&self, pkt: &AdbPacket) -> (out: AdbPacket)
        ensures
            out@ == okay(self.local_id, pkt.arg0),
    {
        AdbPacket::new(A_OKAY, self.local_id, pkt.arg0, Vec::new())
    }

    /// The CLSE that ends the stream from the host's side.
    pub fn close(self) -> (out: AdbPacket)
        ensures
            out@ == clse(self.local_id, self.remote_id),
    {
        AdbPacket::new(A_CLSE, self.local_id, self.remote_id, Vec::new())
    }
}

/// Protocol version that the host announces.
pub const CONNECT_VERSION: u32 = 0x0100_0001;

/// Largest payload that the host announces: 1 MiB.
pub const CONNECT_MAX_DATA: u32 = 0x0010_0000;

/// The host's banner: `host::` and a NUL.
pub const HOST_BANNER: [u8; 7] = [0x68, 0x6f, 0x73, 0x74, 0x3a, 0x3a, 0x00];

/// How a greeting of a device in sideload mode begins: `sideload::`.
pub const SIDELOAD_BANNER: [u8; 10] = [0x73, 0x69, 0x64, 0x65, 0x6c, 0x6f, 0x61, 0x64, 0x3a, 0x3a];

/// Packets that the host reads after its CNXN before it gives up.
pub const HANDSHAKE_PACKETS: u8 = 10;

/// Milliseconds to let the interface settle before the handshake.
pub const SETTLE_DELAY_MS: u64 = 200;

/// Milliseconds a transfer may take, outside a sideload.
pub const DEFAULT_TIMEOUT_MS: u64 = 5000;

/// The id that the host gives every stream.
pub const LOCAL_ID: u32 = 1;

/// The CNXN that opens the handshake.
pub open spec fn connect_packet() -> PacketView {
    PacketView {
        cmd: A_CNXN,
        arg0: CONNECT_VERSION,
        arg1: CONNECT_MAX_DATA,
        payload: HOST_BANNER@,
    }
}

/// Whether a payload begins with `sideload::`.
pub open spec fn greets_sideload(payload: Seq<u8>) -> bool {
    payload.len() >= 10 && payload.take(10) == SIDELOAD_BANNER@
}

fn is_sideload_greeting(payload: &[u8]) -> (r: bool)
    ensures
        r == greets_sideload(payload@),
{
    if payload.len() < 10 {
        return false;
    }
    let mut i: usize = 0;
    while i < 10
        invariant
            i <= 10,
            payload@.len() >= 10,
            forall|k: int| 0 <= k < i ==> payload@[k] == SIDELOAD_BANNER@[k],
        decreases 10 - i,
    {
        if payload[i] != SIDELOAD_BANNER[i] {
            assert(payload@.take(10)[i as int] != SIDELOAD_BANNER@[i as int]);
            return false;
        }
        i += 1;
    }
    assert(payload@.take(10) =~= SIDELOAD_BANNER@);
    true
}

/// A connection that has passed the handshake.
#[derive(Debug)]
pub struct AdbConnection {
    local_id_counter: u32,
}

/// Where a handshake stands.
#[derive(Debug, Clone, Copy, PartialEq, Eq, Structural)]
pub enum Handshake {
    /// The host may read `left` more packets.
    Waiting { left: u8 },
    /// The device has answered as expected.
    Connected,
    /// No expected answer came within `HANDSHAKE_PACKETS` packets.
    Rejected,
}

/// The handshake after the packet `p` has come in, and the packet to send
/// in answer. A CNXN connects; so does a WRTE that greets with
/// `sideload::`, which is acknowledged by `OKAY(1, p.arg0)`. Any other
/// packet is dropped, and with the last of them the handshake has failed.
pub open spec fn handshake_step(h: Handshake, p: PacketView) -> (Handshake, Option<PacketView>) {
    match h {
        Handshake::Waiting { left } => if p.cmd == A_CNXN {
            (Handshake::Connected, None)
        } else if p.cmd == A_WRTE && greets_sideload(p.payload) {
            (Handshake::Connected, Some(okay(LOCAL_ID, p.arg0)))
        } else if left <= 1 {
            (Handshake::Rejected, None)
        } else {
            (Handshake::Waiting { left: (left - 1) as u8 }, None)
        },
        _ => (h, None),
    }
}

/// The handshake after all of `ps` have come in, in order.
pub open spec fn handshake_after(h: Handshake, ps: Seq<PacketView>) -> Handshake
    decreases ps.len(),
{
    if ps.len() == 0 {
        h
    } else {
        handshake_step(handshake_after(h, ps.drop_last()), ps.last()).0
    }
}

/// The view of a packet that may be there.
pub open spec fn packet_view(p: Option<AdbPacket>) -> Option<PacketView> {
    match p {
        Some(q) => Some(q@),
        None => None,
    }
}

impl Handshake {
    /// The CNXN to send first, and the handshake that waits for its answer.
    pub fn begin() -> (r: (Handshake, AdbPacket))
        ensures
            r.0 == (Handshake::Waiting { left: HANDSHAKE_PACKETS }),
            r.1@ == connect_packet(),
    {
        let mut banner: Vec<u8> = Vec::new();
        banner.extend_from_slice(HOST_BANNER.as_slice());
        assert(banner@ =~= HOST_BANNER@);
        (
            Handshake::Waiting { left: HANDSHAKE_PACKETS },
            AdbPacket::new(A_CNXN, CONNECT_VERSION, CONNECT_MAX_DATA, banner),
        )
    }

    /// Takes up the next packet of the device.
    pub fn on_packet(self, reply: &AdbPacket) -> (r: (Handshake, Option<AdbPacket>))
        ensures
            (r.0, packet_view(r.1)) == handshake_step(self, reply@),
    {
        match self {
            Handshake::Waiting { left } => {
                if reply.cmd == A_CNXN {
                    (Handshake::Connected, None)
                } else if reply.cmd == A_WRTE && is_sideload_greeting(reply.payload.as_slice()) {
                    (
                        Handshake::Connected,
                        Some(AdbPacket::new(A_OKAY, LOCAL_ID, reply.arg0, Vec::new())),
                    )
                } else if left <= 1 {
                    (Handshake::Rejected, None)
                } else {
                    (Handshake::Waiting { left: left - 1 }, None)
                }
            },
            _ => (self, None),
        }
    }

    /// The connection that a passed handshake leaves.
    pub fn connection(self) -> (r: Option<AdbConnection>)
        ensures
            r is Some <==> self == Handshake::Connected,
    {
        match self {
            Handshake::Connected => Some(AdbConnection { local_id_counter: LOCAL_ID }),
            _ => None,
        }
    }
}

/// A handshake never reads more than `HANDSHAKE_PACKETS` packets: after
/// that many it has connected or failed, whatever the packets were.
pub proof fn lemma_handshake_ends(ps: Seq<PacketView>)
    requires
        ps.len() >= HANDSHAKE_PACKETS,
    ensures
        !(handshake_after(Handshake::Waiting { left: HANDSHAKE_PACKETS }, ps) is Waiting),
{
    lemma_handshake_left(ps, ps.len() as int);
    assert(ps.take(ps.len() as int) =~= ps);
}

proof fn lemma_handshake_left(ps: Seq<PacketView>, n: int)
    requires
        0 <= n <= ps.len(),
    ensures
        match handshake_after(Handshake::Waiting { left: HANDSHAKE_PACKETS }, ps.take(n)) {
            Handshake::Waiting { left } => left == HANDSHAKE_PACKETS - n && n < HANDSHAKE_PACKETS,
            _ => true,
        },
    decreases n,
{
    if n > 0 {
        lemma_handshake_left(ps, n - 1);
        assert(ps.take(n).drop_last() =~= ps.take(n - 1));
    }
}

/// The payload of an OPEN for a service: the bytes of its name, closed by
/// a NUL unless the name ends with one.
pub open spec fn service_payload(name: Seq<u8>) -> Seq<u8> {
    if name.len() > 0 && name.last() == 0 {
        name
    } else {
        name.push(0)
    }
}

/// The OPEN that asks for a service.
pub open spec fn open_packet(local_id: u32, name: Seq<u8>) -> PacketView {
    PacketView { cmd: A_OPEN, arg0: local_id, arg1: 0, payload: service_payload(name) }
}

fn open_for(local_id: u32, name: &str) -> (pkt: AdbPacket)
    ensures
        pkt@ == open_packet(local_id, name.spec_bytes()),
{
    let bytes = name.as_bytes();
    let mut payload: Vec<u8> = Vec::new();
    payload.extend_from_slice(bytes);
    assert(payload@ =~= bytes@);
    if !(bytes.len() > 0 && bytes[bytes.len() - 1] == 0) {
        payload.push(0);
    }
    AdbPacket::new(A_OPEN, local_id, 0, payload)
}

/// What the host does about a packet while a service is being opened.
#[derive(Debug)]
pub enum OpenStep {
    /// The device has accepted: the stream is open.
    Opened(AdbStream),
    /// The device has closed the stream: the opening has failed.
    Closed,
    /// The device has sent data ahead: send this OKAY, and read on.
    Ack(AdbPacket),
    /// The packet is dropped: read on.
    Skip,
}

/// An `OpenStep` as a mathematical value.
pub enum OpenStepView {
    Opened(AdbStream),
    Closed,
    Ack(PacketView),
    Skip,
}

impl View for OpenStep {
    type V = OpenStepView;

    open spec fn view(&self) -> OpenStepView {
        match *self {
            OpenStep::Opened(s) => OpenStepView::Opened(s),
            OpenStep::Closed => OpenStepView::Closed,
            OpenStep::Ack(p) => OpenStepView::Ack(p@),
            OpenStep::Skip => OpenStepView::Skip,
        }
    }
}

/// The opening of an ordinary service, after its OPEN has gone out.
#[derive(Debug, Clone, Copy, PartialEq, Eq, Structural)]
pub struct ServiceOpen {
    pub local_id: u32,
}

/// What the host does about the packet `p` while it opens a service under
/// `local_id`: an OKAY opens the stream, with the device's id in its first
/// argument; a CLSE fails the opening; a WRTE is acknowledged; anything
/// else is dropped.
pub open spec fn open_step(local_id: u32, p: PacketView) -> OpenStepView {
    if p.cmd == A_OKAY {
        OpenStepView::Opened(AdbStream { local_id, remote_id: p.arg0 })
    } else if p.cmd == A_CLSE {
        OpenStepView::Closed
    } else if p.cmd == A_WRTE {
        OpenStepView::Ack(okay(local_id, p.arg0))
    } else {
        OpenStepView::Skip
    }
}

impl ServiceOpen {
    /// Takes up the next packet of the device.
    pub fn on_packet(&self, pkt: &AdbPacket) -> (step: OpenStep)
        ensures
            step@ == open_step(self.local_id, pkt@),
    {
        if pkt.cmd == A_OKAY {
            OpenStep::Opened(AdbStream { local_id: self.local_id, remote_id: pkt.arg0 })
        } else if pkt.cmd == A_CLSE {
            OpenStep::Closed
        } else if pkt.cmd == A_WRTE {
            OpenStep::Ack(AdbPacket::new(A_OKAY, self.local_id, pkt.arg0, Vec::new()))
        } else {
            OpenStep::Skip
        }
    }
}

/// The opening of the sideload service, after its OPEN has gone out.
#[derive(Debug, Clone, Copy, PartialEq, Eq, Structural)]
pub struct SideloadOpen {
    pub local_id: u32,
    /// The device's id, once an OKAY has brought it.
    pub remote_id: Option<u32>,
}

/// What the host does about a packet while the sideload service is being
/// opened.
#[derive(Debug)]
pub enum SideloadOpenStep {
    /// The device has sent its first request: the stream is open, and the
    /// request is handed on unanswered.
    Opened { stream: AdbStream, first: AdbPacket },
    /// The device has closed the stream: the opening has failed.
    Closed,
    /// Nothing to send: read on.
    Wait,
}

/// A `SideloadOpenStep` as a mathematical value.
pub enum SideloadOpenStepView {
    Opened { stream: AdbStream, first: PacketView },
    Closed,
    Wait,
}

impl View for SideloadOpenStep {
    type V = SideloadOpenStepView;

    open spec fn view(&self) -> SideloadOpenStepView {
        match *self {
            SideloadOpenStep::Opened { stream, first } => SideloadOpenStepView::Opened {
                stream,
                first: first@,
            },
            SideloadOpenStep::Closed => SideloadOpenStepView::Closed,
            SideloadOpenStep::Wait => SideloadOpenStepView::Wait,
        }
    }
}

/// The opening after the packet `p` has come in: an OKAY brings the
/// device's id; everything else leaves the opening as it is.
pub open spec fn sideload_open_next(o: SideloadOpen, p: PacketView) -> SideloadOpen {
    if p.cmd == A_OKAY {
        SideloadOpen { remote_id: Some(p.arg0), ..o }
    } else {
        o
    }
}

/// What the host does about the packet `p` while it opens the sideload
/// service. It sends nothing. A WRTE opens the stream and is handed on;
/// the device's id is the one an OKAY brought before, else the first
/// argument of the WRTE. A CLSE fails the opening.
pub open spec fn sideload_open_step(o: SideloadOpen, p: PacketView) -> SideloadOpenStepView {
    if p.cmd == A_WRTE {
        SideloadOpenStepView::Opened {
            stream: AdbStream {
                local_id: o.local_id,
                remote_id: match o.remote_id {
                    Some(id) => id,
                    None => p.arg0,
                },
            },
            first: p,
        }
    } else if p.cmd == A_CLSE {
        SideloadOpenStepView::Closed
    } else {
        SideloadOpenStepView::Wait
    }
}

impl SideloadOpen {
    /// Takes up the next packet of the device.
    pub fn on_packet(&mut self, pkt: AdbPacket) -> (step: SideloadOpenStep)
        ensures
            *final(self) == sideload_open_next(*old(self), pkt@),
            step@ == sideload_open_step(*old(self), pkt@),
    {
        if pkt.cmd == A_OKAY {
            self.remote_id = Some(pkt.arg0);
            SideloadOpenStep::Wait
        } else if pkt.cmd == A_WRTE {
            let remote_id = match self.remote_id {
                Some(id) => id,
                None => pkt.arg0,
            };
            SideloadOpenStep::Opened {
                stream: AdbStream { local_id: self.local_id, remote_id },
                first: pkt,
            }
        } else if pkt.cmd == A_CLSE {
            SideloadOpenStep::Closed
        } else {
            SideloadOpenStep::Wait
        }
    }
}

/// How far a text query has come.
#[derive(Debug, Clone, Copy, PartialEq, Eq, Structural)]
pub enum QueryStage {
    /// No packet has come yet.
    First,
    /// The first packet held no answer: the second will.
    Second,
    /// The answer is there; one more packet is read and dropped.
    Last,
    /// The exchange is over.
    Done,
}

/// A text query, after its OPEN has gone out. The host sends nothing
/// while it runs.
#[derive(Debug)]
pub struct TextQuery {
    stage: QueryStage,
    answer: Vec<u8>,
}

/// A `TextQuery` as a mathematical value.
pub struct TextQueryView {
    pub stage: QueryStage,
    pub answer: Seq<u8>,
}

impl View for TextQuery {
    type V = TextQueryView;

    closed spec fn view(&self) -> TextQueryView {
        TextQueryView { stage: self.stage, answer: self.answer@ }
    }
}

/// The query after the packet `p` has come in. The answer is the payload
/// of the first packet where that is a WRTE, else the payload of the
/// second; the packet after the answer is dropped.
pub open spec fn query_step(q: TextQueryView, p: PacketView) -> TextQueryView {
    match q.stage {
        QueryStage::First => if p.cmd == A_WRTE {
            TextQueryView { stage: QueryStage::Last, answer: p.payload }
        } else {
            TextQueryView { stage: QueryStage::Second, answer: q.answer }
        },
        QueryStage::Second => TextQueryView { stage: QueryStage::Last, answer: p.payload },
        QueryStage::Last => TextQueryView { stage: QueryStage::Done, answer: q.answer },
        QueryStage::Done => q,
    }
}

/// `s` without the line feeds and carriage returns at its end.
pub open spec fn strip_line_end(s: Seq<char>) -> Seq<char>
    decreases s.len(),
{
    if s.len() > 0 && (s.last() == '\n' || s.last() == '\r') {
        strip_line_end(s.drop_last())
    } else {
        s
    }
}

/// The text of an answer: its bytes read as text, without the line feeds
/// and carriage returns at the end.
pub open spec fn answer_text(answer: Seq<u8>) -> Seq<char> {
    strip_line_end(utf8_lossy(answer))
}

/// Cuts the line feeds and carriage returns off the end of a text.
pub fn strip_line(text: &str) -> (line: String)
    ensures
        line@ == strip_line_end(text@),
{
    let chars = chars_of(text);
    let mut end: usize = chars.len();
    assert(chars@.take(end as int) =~= chars@);
    while end > 0 && (chars[end - 1] == '\n' || chars[end - 1] == '\r')
        invariant
            end <= chars@.len(),
            strip_line_end(chars@) == strip_line_end(chars@.take(end as int)),
        decreases end,
    {
        assert(chars@.take(end as int).drop_last() =~= chars@.take(end as int - 1));
        end -= 1;
    }
    string_of(&chars.as_slice()[0..end])
}

/// Reads a payload as a line of text.
pub fn line_of(payload: &[u8]) -> (line: String)
    ensures
        line@ == answer_text(payload@),
{
    let text = lossy_text(payload);
    strip_line(text.as_str())
}

impl TextQuery {
    /// Takes up the next packet of the device.
    pub fn on_packet(&mut self, pkt: &AdbPacket)
        ensures
            final(self)@ == query_step(old(self)@, pkt@),
    {
        match self.stage {
            QueryStage::First => {
                if pkt.cmd == A_WRTE {
                    self.answer = pkt.payload.clone();
                    self.stage = QueryStage::Last;
                } else {
                    self.stage = QueryStage::Second;
                }
            },
            QueryStage::Second => {
                self.answer = pkt.payload.clone();
                self.stage = QueryStage::Last;
            },
            QueryStage::Last => {
                self.stage = QueryStage::Done;
            },
            QueryStage::Done => {},
        }
    }

    /// How far the query has come.
    pub fn stage(&self) -> (r: QueryStage)
        ensures
            r == self@.stage,
    {
        self.stage
    }

    /// The answer as a line of text, once it is there.
    pub fn answer(&self) -> (r: Option<String>)
        ensures
            match self@.stage {
                QueryStage::Last | QueryStage::Done => r is Some && r->Some_0@ == answer_text(
                    self@.answer,
                ),
                _ => r is None,
            },
    {
        match self.stage {
            QueryStage::Last | QueryStage::Done => Some(line_of(self.answer.as_slice())),
            _ => None,
        }
    }
}

impl AdbConnection {
    /// The id for the next stream: always `LOCAL_ID`; the counter stays.
    pub fn alloc_local_id(&mut self) -> (id: u32)
        ensures
            id == LOCAL_ID,
            *final(self) == *old(self),
    {
        LOCAL_ID
    }

    /// Begins to open the service `name`: the OPEN to send, and the
    /// opening to hand the device's packets to.
    pub fn open_service(&mut self, name: &str) -> (r: (ServiceOpen, AdbPacket))
        ensures
            r.0.local_id == LOCAL_ID,
            r.1@ == open_packet(LOCAL_ID, name.spec_bytes()),
    {
        let local_id = self.alloc_local_id();
        (ServiceOpen { local_id }, open_for(local_id, name))
    }

    /// Begins to open the sideload service `name`: the OPEN to send, and
    /// the opening to hand the device's packets to.
    pub fn open_sideload(&mut self, name: &str) -> (r: (SideloadOpen, AdbPacket))
        ensures
            r.0 == (SideloadOpen { local_id: LOCAL_ID, remote_id: None }),
            r.1@ == open_packet(LOCAL_ID, name.spec_bytes()),
    {
        let local_id = self.alloc_local_id();
        (SideloadOpen { local_id, remote_id: None }, open_for(local_id, name))
    }

    /// Begins the text query `name`: the OPEN to send, and the query to
    /// hand the device's packets to.
    pub fn query_text(&mut self, name: &str) -> (r: (TextQuery, AdbPacket))
        ensures
            r.0@ == (TextQueryView { stage: QueryStage::First, answer: Seq::empty() }),
            r.1@ == open_packet(LOCAL_ID, name.spec_bytes()),
    {
        (TextQuery { stage: QueryStage::First, answer: Vec::new() }, open_for(LOCAL_ID, name))
    }
}

/// Most bytes that one WRTE of an ordinary stream carries: 64 KiB.
pub const WRITE_CHUNK: usize = 65536;

/// Where the chunk that starts at `off` ends in data of `len` bytes.
pub open spec fn chunk_end(len: nat, off: nat) -> nat {
    if len - off < WRITE_CHUNK {
        len
    } else {
        (off + WRITE_CHUNK) as nat
    }
}

/// All bytes that the chunks from `off` on carry, in order.
pub open spec fn chunks_from(data: Seq<u8>, off: nat) -> Seq<u8>
    decreases data.len() - off,
{
    if off >= data.len() {
        Seq::empty()
    } else {
        data.subrange(off as int, chunk_end(data.len(), off) as int) + chunks_from(
            data,
            chunk_end(data.len(), off),
        )
    }
}

/// The chunks carry the data, whole and in order.
pub proof fn lemma_chunks_cover(data: Seq<u8>, off: nat)
    requires
        off <= data.len(),
    ensures
        chunks_from(data, off) == data.skip(off as int),
    decreases data.len() - off,
{
    if off < data.len() {
        lemma_chunks_cover(data, chunk_end(data.len(), off));
        assert(data.subrange(off as int, chunk_end(data.len(), off) as int) + data.skip(
            chunk_end(data.len(), off) as int,
        ) =~= data.skip(off as int));
    } else {
        assert(data.skip(off as int) =~= Seq::<u8>::empty());
    }
}

/// What the host does about a packet while it waits for the OKAY that
/// answers a chunk.
#[derive(Debug)]
pub enum WriteStep {
    /// The device has taken the chunk: go on with the next.
    Acked,
    /// The device has sent data of its own: send this OKAY, and wait on.
    Ack(AdbPacket),
    /// The device has closed the stream: the write has failed.
    Closed,
    /// The packet is dropped: wait on.
    Skip,
}

/// A `WriteStep` as a mathematical value.
pub enum WriteStepView {
    Acked,
    Ack(PacketView),
    Closed,
    Skip,
}

impl View for WriteStep {
    type V = WriteStepView;

    open spec fn view(&self) -> WriteStepView {
        match *self {
            WriteStep::Acked => WriteStepView::Acked,
            WriteStep::Ack(p) => WriteStepView::Ack(p@),
            WriteStep::Closed => WriteStepView::Closed,
            WriteStep::Skip => WriteStepView::Skip,
        }
    }
}

/// What the host does about the packet `p` while it waits for the OKAY
/// that answers a chunk.
pub open spec fn write_step(stream: AdbStream, p: PacketView) -> WriteStepView {
    if p.cmd == A_OKAY {
        WriteStepView::Acked
    } else if p.cmd == A_WRTE {
        WriteStepView::Ack(okay(stream.local_id, p.arg0))
    } else if p.cmd == A_CLSE {
        WriteStepView::Closed
    } else {
        WriteStepView::Skip
    }
}

/// What the host does about a packet while it waits for data.
#[derive(Debug)]
pub enum ReadStep {
    /// The packet carries data: send this OKAY, the payload is the data.
    Chunk(AdbPacket),
    /// The device has closed the stream: no more data.
    Closed,
    /// The packet is dropped: wait on.
    Skip,
}

/// A `ReadStep` as a mathematical value.
pub enum ReadStepView {
    Chunk(PacketView),
    Closed,
    Skip,
}

impl View for ReadStep {
    type V = ReadStepView;

    open spec fn view(&self) -> ReadStepView {
        match *self {
            ReadStep::Chunk(p) => ReadStepView::Chunk(p@),
            ReadStep::Closed => ReadStepView::Closed,
            ReadStep::Skip => ReadStepView::Skip,
        }
    }
}

/// What the host does about the packet `p` while it waits for data.
pub open spec fn read_step(stream: AdbStream, p: PacketView) -> ReadStepView {
    if p.cmd == A_WRTE {
        ReadStepView::Chunk(okay(stream.local_id, p.arg0))
    } else if p.cmd == A_CLSE {
        ReadStepView::Closed
    } else {
        ReadStepView::Skip
    }
}

/// The reading of a stream to its end.
#[derive(Debug)]
pub struct StreamRead {
    stream: AdbStream,
    out: Vec<u8>,
    done: bool,
}

/// A `StreamRead` as a mathematical value.
pub struct StreamReadView {
    pub stream: AdbStream,
    /// The bytes read so far.
    pub out: Seq<u8>,
    /// Whether the device has closed the stream.
    pub done: bool,
}

impl View for StreamRead {
    type V = StreamReadView;

    closed spec fn view(&self) -> StreamReadView {
        StreamReadView { stream: self.stream, out: self.out@, done: self.done }
    }
}

/// The reading after the packet `p` has come in: the payload of a WRTE is
/// added to the bytes read, a CLSE ends the reading. After the end
/// nothing changes.
pub open spec fn read_next(r: StreamReadView, p: PacketView) -> StreamReadView {
    if r.done {
        r
    } else if p.cmd == A_WRTE {
        StreamReadView { out: r.out + p.payload, ..r }
    } else if p.cmd == A_CLSE {
        StreamReadView { done: true, ..r }
    } else {
        r
    }
}

/// The packet that the host sends about the packet `p` while it reads a
/// stream to its end: an OKAY for a WRTE, a CLSE for the CLSE, each with
/// the host's id and the first argument of `p`.
pub open spec fn read_reply(r: StreamReadView, p: PacketView) -> Option<PacketView> {
    if r.done {
        None
    } else if p.cmd == A_WRTE {
        Some(okay(r.stream.local_id, p.arg0))
    } else if p.cmd == A_CLSE {
        Some(clse(r.stream.local_id, p.arg0))
    } else {
        None
    }
}

/// The reading after all of `ps` have come in, in order.
pub open spec fn read_after(r: StreamReadView, ps: Seq<PacketView>) -> StreamReadView
    decreases ps.len(),
{
    if ps.len() == 0 {
        r
    } else {
        read_after(read_next(r, ps.first()), ps.drop_first())
    }
}

/// The payloads of the WRTE packets that come before the first CLSE, one
/// after the other.
pub open spec fn payloads_until_close(ps: Seq<PacketView>) -> Seq<u8>
    decreases ps.len(),
{
    if ps.len() == 0 || ps.first().cmd == A_CLSE {
        Seq::empty()
    } else if ps.first().cmd == A_WRTE {
        ps.first().payload + payloads_until_close(ps.drop_first())
    } else {
        payloads_until_close(ps.drop_first())
    }
}

/// Reading a stream to its end gives what the device wrote before it
/// closed the stream, in order, and nothing else.
pub proof fn lemma_read_collects(r: StreamReadView, ps: Seq<PacketView>)
    ensures
        read_after(r, ps).out == if r.done {
            r.out
        } else {
            r.out + payloads_until_close(ps)
        },
    decreases ps.len(),
{
    if ps.len() > 0 {
        lemma_read_collects(read_next(r, ps.first()), ps.drop_first());
    }
    if !r.done {
        assert(read_after(r, ps).out =~= r.out + payloads_until_close(ps));
    }
}

impl StreamRead {
    /// Takes up the next packet of the device; gives the packet to send.
    pub fn on_packet(&mut self, pkt: &AdbPacket) -> (reply: Option<AdbPacket>)
        ensures
            final(self)@ == read_next(old(self)@, pkt@),
            packet_view(reply) == read_reply(old(self)@, pkt@),
    {
        if self.done {
            None
        } else if pkt.cmd == A_WRTE {
            self.out.extend_from_slice(pkt.payload.as_slice());
            assert(self@.out == old(self)@.out + pkt@.payload);
            Some(AdbPacket::new(A_OKAY, self.stream.local_id, pkt.arg0, Vec::new()))
        } else if pkt.cmd == A_CLSE {
            self.done = true;
            Some(AdbPacket::new(A_CLSE, self.stream.local_id, pkt.arg0, Vec::new()))
        } else {
            None
        }
    }

    /// Whether the device has closed the stream.
    pub fn is_done(&self) -> (r: bool)
        ensures
            r == self@.done,
    {
        self.done
    }

    /// The bytes read.
    pub fn into_bytes(self) -> (out: Vec<u8>)
        ensures
            out@ == self@.out,
    {
        self.out
    }
}

impl AdbStream {
    /// The WRTE that carries the chunk of `data` that starts at `off`,
    /// and where the next chunk starts; `None` when no data is left.
    pub fn write(&self, data: &[u8], off: usize) -> (r: Option<(AdbPacket, usize)>)
        ensures
            off >= data@.len() ==> r is None,
            off < data@.len() ==> r is Some && r->Some_0.0@ == wrte(
                self.local_id,
                self.remote_id,
                data@.subrange(off as int, chunk_end(data@.len(), off as nat) as int),
            ) && r->Some_0.1 == chunk_end(data@.len(), off as nat),
    {
        if off >= data.len() {
            return None;
        }
        let end: usize = if data.len() - off < WRITE_CHUNK {
            data.len()
        } else {
            off + WRITE_CHUNK
        };
        let mut payload: Vec<u8> = Vec::new();
        payload.extend_from_slice(&data[off..end]);
        assert(payload@ =~= data@.subrange(off as int, end as int));
        Some((AdbPacket::new(A_WRTE, self.local_id, self.remote_id, payload), end))
    }

    /// Takes up a packet while the host waits for the OKAY that answers a
    /// chunk.
    pub fn write_step(&self, pkt: &AdbPacket) -> (step: WriteStep)
        ensures
            step@ == write_step(*self, pkt@),
    {
        if pkt.cmd == A_OKAY {
            WriteStep::Acked
        } else if pkt.cmd == A_WRTE {
            WriteStep::Ack(self.ack(pkt))
        } else if pkt.cmd == A_CLSE {
            WriteStep::Closed
        } else {
            WriteStep::Skip
        }
    }

    /// Takes up a packet while the host waits for data.
    pub fn read_write_or_close(&self, pkt: &AdbPacket) -> (step: ReadStep)
        ensures
            step@ == read_step(*self, pkt@),
    {
        if pkt.cmd == A_WRTE {
            ReadStep::Chunk(self.ack(pkt))
        } else if pkt.cmd == A_CLSE {
            ReadStep::Closed
        } else {
            ReadStep::Skip
        }
    }

    /// Begins to read the stream to its end.
    pub fn read_to_end(&self) -> (r: StreamRead)
        ensures
            r@ == (StreamReadView { stream: *self, out: Seq::empty(), done: false }),
    {
        StreamRead { stream: *self, out: Vec::new(), done: false }
    }
}

} // verus!
