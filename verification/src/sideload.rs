//! The sideload session: the device pulls the image block by block, the
//! host answers each request before it reads the next packet.

use crate::adb::{clse, okay, wrte, AdbPacket, AdbStream, PacketView, A_CLSE, A_OKAY, A_WRTE};
use crate::text::{
    chars_of, contains_ignore_case, contains_lowered, decimal, decimal_chars, lossy_text,
    parse_decimal, parse_decimal_u64, string_of, trim, trim_bytes, utf8_lossy,
};
use vstd::prelude::*;

verus! {

/// Largest block the device may be served at once: 1 MiB.
pub const MAX_CHUNK: usize = 1048576;

/// Milliseconds the transport waits for the device during a session; some
/// recoveries pause for more than five seconds between two requests.
pub const SIDELOAD_TIMEOUT_MS: u64 = 30000;

/// Milliseconds to wait after the session before the interface is released.
pub const CLOSE_GRACE_MS: u64 = 100;

/// Why a sideload did not succeed.
#[derive(Debug, PartialEq, Eq)]
pub enum SideloadError {
    /// The block size is 0 or above `MAX_CHUNK`.
    BadChunkSize { chunk_size: usize },
    /// The device's last status names a failure.
    StatusFailure { status: String },
}

/// What is to be sent: how many bytes, in blocks of what size, under which
/// validation token, and whether the device may wipe its data.
#[derive(Debug)]
pub struct SideloadRequest {
    total: u64,
    chunk_size: usize,
    token: String,
    allow_wipe: bool,
}

/// The name of the service that the host opens for a sideload.
pub open spec fn service_name_text(
    total: nat,
    chunk_size: nat,
    token: Seq<char>,
    allow_wipe: bool,
) -> Seq<char> {
    "sideload-host:"@ + decimal(total) + seq![':'] + decimal(chunk_size) + seq![':'] + token
        + seq![':', if allow_wipe { '1' } else { '0' }]
}

impl SideloadRequest {
    #[verifier::type_invariant]
    spec fn inv(self) -> bool {
        0 < self.chunk_size <= MAX_CHUNK
    }

    pub closed spec fn total(self) -> nat {
        self.total as nat
    }

    pub closed spec fn chunk_size(self) -> nat {
        self.chunk_size as nat
    }

    pub closed spec fn token(self) -> Seq<char> {
        self.token@
    }

    pub closed spec fn allow_wipe(self) -> bool {
        self.allow_wipe
    }

    /// A request for `total` bytes in blocks of `chunk_size`. The block size
    /// must be above 0 and at most `MAX_CHUNK`.
    pub fn new(total: u64, chunk_size: usize, token: &str, allow_wipe: bool) -> (r: Result<
        Self,
        SideloadError,
    >)
        ensures
            0 < chunk_size <= MAX_CHUNK ==> r is Ok && r->Ok_0.total() == total
                && r->Ok_0.chunk_size() == chunk_size && r->Ok_0.token() == token@
                && r->Ok_0.allow_wipe() == allow_wipe,
            !(0 < chunk_size <= MAX_CHUNK) ==> r == Err::<Self, SideloadError>(
                SideloadError::BadChunkSize { chunk_size },
            ),
    {
        if chunk_size == 0 || chunk_size > MAX_CHUNK {
            return Err(SideloadError::BadChunkSize { chunk_size });
        }
        Ok(SideloadRequest { total, chunk_size, token: token.to_owned(), allow_wipe })
    }

    /// The service name to open: `sideload-host:`, the total, the block
    /// size, the token and the wipe flag, with colons between them.
    pub fn service_name(&self) -> (name: String)
        ensures
            name@ == service_name_text(
                self.total(),
                self.chunk_size(),
                self.token(),
                self.allow_wipe(),
            ),
    {
        let mut name = chars_of("sideload-host:");
        let total = decimal_chars(self.total);
        name.extend_from_slice(total.as_slice());
        name.push(':');
        let chunk = decimal_chars(self.chunk_size as u64);
        name.extend_from_slice(chunk.as_slice());
        name.push(':');
        let token = chars_of(self.token.as_str());
        name.extend_from_slice(token.as_slice());
        name.push(':');
        name.push(if self.allow_wipe { '1' } else { '0' });
        assert(name@ =~= service_name_text(
            self.total(),
            self.chunk_size(),
            self.token(),
            self.allow_wipe(),
        ));
        string_of(name.as_slice())
    }
}


/// The word "aborted".
pub const ABORTED: [u8; 7] = [0x61, 0x62, 0x6f, 0x72, 0x74, 0x65, 0x64];

/// The word "failed".
pub const FAILED: [u8; 6] = [0x66, 0x61, 0x69, 0x6c, 0x65, 0x64];

/// The word "failure".
pub const FAILURE: [u8; 7] = [0x66, 0x61, 0x69, 0x6c, 0x75, 0x72, 0x65];

/// The word "error".
pub const ERROR: [u8; 5] = [0x65, 0x72, 0x72, 0x6f, 0x72];

/// Whether a status names a failure: it holds one of the words "aborted",
/// "failed", "failure" and "error", in upper or lower case.
pub open spec fn names_failure(status: Seq<u8>) -> bool {
    ||| contains_lowered(status, ABORTED@)
    ||| contains_lowered(status, FAILED@)
    ||| contains_lowered(status, FAILURE@)
    ||| contains_lowered(status, ERROR@)
}

/// Whether a status names a failure.
pub fn status_names_failure(status: &[u8]) -> (r: bool)
    ensures
        r == names_failure(status@),
{
    contains_ignore_case(status, ABORTED.as_slice()) || contains_ignore_case(
        status,
        FAILED.as_slice(),
    ) || contains_ignore_case(status, FAILURE.as_slice()) || contains_ignore_case(
        status,
        ERROR.as_slice(),
    )
}

/// How a session ended that the device did not report as failed.
#[derive(Debug, Clone, Copy, PartialEq, Eq, Structural)]
pub struct SideloadReport {
    /// How far the image was sent.
    pub bytes_sent: u64,
    /// The length of the image.
    pub total: u64,
}

impl SideloadReport {
    /// Whether the whole image was sent. Where it was not, the session has
    /// succeeded all the same, and the user is to be warned.
    pub fn complete(&self) -> (r: bool)
        ensures
            r == (self.bytes_sent >= self.total),
    {
        self.bytes_sent >= self.total
    }
}

/// Where a session stands.
#[derive(Debug, Clone, Copy, PartialEq, Eq, Structural)]
pub enum Phase {
    /// The device asks for blocks.
    Serving,
    /// The device has reported a status and is expected to close.
    AwaitingClose,
    /// The device has closed the stream.
    Done,
}

/// A block that the device has asked for and the host has not sent yet.
#[derive(Debug, Clone, Copy, PartialEq, Eq, Structural)]
pub struct BlockRequest {
    /// The index the device sent.
    pub index: u64,
    /// Where the block starts in the image.
    pub offset: u64,
    /// How many bytes it holds.
    pub len: usize,
    /// First argument of the requesting packet.
    pub arg0: u32,
    /// Second argument of the requesting packet.
    pub arg1: u32,
}

/// A session as a mathematical value.
pub struct SessionView {
    pub total: nat,
    pub chunk_size: nat,
    pub stream: AdbStream,
    pub bytes_sent: nat,
    pub finished: bool,
    pub final_status: Option<Seq<u8>>,
    pub phase: Phase,
    pub pending: Option<BlockRequest>,
}

/// The block index that a payload asks for, if it is a number: white space
/// at either end is dropped, the rest must be an unsigned decimal number of
/// at most 64 bits.
pub open spec fn block_index(payload: Seq<u8>) -> Option<u64> {
    parse_decimal(trim(payload))
}

/// Where block `index` ends in the image.
pub open spec fn sent_through(s: SessionView, index: u64) -> nat {
    if (index + 1) * s.chunk_size <= s.total {
        ((index + 1) * s.chunk_size) as nat
    } else {
        s.total
    }
}

/// The request that block `index` makes, asked for by a packet with the
/// given arguments. Meant for an index whose block starts inside the image.
pub open spec fn request_for(s: SessionView, index: u64, arg0: u32, arg1: u32) -> BlockRequest {
    let offset = index * s.chunk_size;
    BlockRequest {
        index,
        offset: offset as u64,
        len: if s.total - offset < s.chunk_size {
            (s.total - offset) as usize
        } else {
            s.chunk_size as usize
        },
        arg0,
        arg1,
    }
}

/// The session after the device has asked for block `index`: a block that
/// starts at or after the end of the image ends the transfer; any other is
/// now owed to the device.
pub open spec fn ask(s: SessionView, index: u64, arg0: u32, arg1: u32) -> SessionView {
    if index * s.chunk_size >= s.total {
        SessionView { finished: true, bytes_sent: s.total, ..s }
    } else {
        SessionView { pending: Some(request_for(s, index, arg0, arg1)), ..s }
    }
}

/// The session after the packet `p` has come in. Meant for a session that
/// owes no block.
pub open spec fn receive(s: SessionView, p: PacketView) -> SessionView {
    if s.phase == Phase::Done {
        s
    } else if p.cmd == A_WRTE {
        match block_index(p.payload) {
            Some(index) => ask(s, index, p.arg0, p.arg1),
            None => SessionView {
                final_status: Some(trim(p.payload)),
                phase: Phase::AwaitingClose,
                ..s
            },
        }
    } else if p.cmd == A_CLSE {
        SessionView { phase: Phase::Done, ..s }
    } else {
        s
    }
}

/// The session after the owed block has gone out: the count of bytes sent
/// moves up to the end of that block, and never down.
pub open spec fn deliver(s: SessionView) -> SessionView {
    match s.pending {
        Some(req) => SessionView {
            pending: None,
            bytes_sent: if s.bytes_sent < sent_through(s, req.index) {
                sent_through(s, req.index)
            } else {
                s.bytes_sent
            },
            ..s
        },
        None => s,
    }
}

/// What the host does about a packet.
pub enum Reaction {
    /// It sends nothing.
    Nothing,
    /// It sends this packet.
    Reply(PacketView),
    /// The device reported a status: it shows the status to the user and
    /// sends this packet.
    Status(PacketView),
    /// It reads this block of the image, and sends it with `block_reply`.
    ReadBlock { offset: u64, len: usize },
}

/// What the host does about the packet `p` that has come in. Meant for a
/// session that owes no block.
pub open spec fn reaction(s: SessionView, p: PacketView) -> Reaction {
    if s.phase == Phase::Done {
        Reaction::Nothing
    } else if p.cmd == A_OKAY {
        Reaction::Reply(okay(p.arg1, p.arg0))
    } else if p.cmd == A_WRTE {
        match block_index(p.payload) {
            Some(index) => match ask(s, index, p.arg0, p.arg1).pending {
                Some(req) => Reaction::ReadBlock { offset: req.offset, len: req.len },
                None => Reaction::Nothing,
            },
            None => Reaction::Status(okay(p.arg1, p.arg0)),
        }
    } else if p.cmd == A_CLSE {
        Reaction::Reply(clse(p.arg1, p.arg0))
    } else {
        Reaction::Nothing
    }
}

/// A fresh session on `stream`, before the packet that came with the
/// opening is looked at.
pub open spec fn opened(total: nat, chunk_size: nat, stream: AdbStream) -> SessionView {
    SessionView {
        total,
        chunk_size,
        stream,
        bytes_sent: 0,
        finished: false,
        final_status: None,
        phase: Phase::Serving,
        pending: None,
    }
}

/// The session after the packet that came with the opening, if any: a
/// block request is taken up; anything else changes nothing.
pub open spec fn begin(s: SessionView, first: Option<PacketView>) -> SessionView {
    match first {
        Some(p) => if p.cmd == A_WRTE {
            match block_index(p.payload) {
                Some(index) => ask(s, index, p.arg0, p.arg1),
                None => s,
            }
        } else {
            s
        },
        None => s,
    }
}

/// What the host does about the packet that came with the opening.
pub open spec fn first_reaction(s: SessionView, first: Option<PacketView>) -> Reaction {
    match first {
        Some(p) => if p.cmd == A_WRTE {
            match begin(s, first).pending {
                Some(req) => Reaction::ReadBlock { offset: req.offset, len: req.len },
                None => Reaction::Nothing,
            }
        } else if p.cmd == A_OKAY {
            Reaction::Reply(okay(p.arg1, p.arg0))
        } else {
            Reaction::Nothing
        },
        None => Reaction::Nothing,
    }
}

/// What holds of every session: the block size is in range, no more than
/// the image has been sent, and an owed block lies inside the image and is
/// as long as the image allows, at most one block size.
pub open spec fn well_formed(s: SessionView) -> bool {
    &&& 0 < s.chunk_size <= MAX_CHUNK
    &&& s.total <= u64::MAX
    &&& s.bytes_sent <= s.total
    &&& match s.pending {
        Some(req) => {
            &&& s.phase != Phase::Done
            &&& req.index * s.chunk_size < s.total
            &&& req == request_for(s, req.index, req.arg0, req.arg1)
        },
        None => true,
    }
}

/// What the host does about a packet, with the packets to send.
#[derive(Debug)]
pub enum SideloadAction {
    /// Send nothing.
    Nothing,
    /// Send this packet.
    Reply(AdbPacket),
    /// The device reported a status: show it to the user, send this packet.
    Status(AdbPacket),
    /// Read `len` bytes of the image at `offset` and hand them to
    /// `block_reply`.
    ReadBlock { offset: u64, len: usize },
}

impl View for SideloadAction {
    type V = Reaction;

    open spec fn view(&self) -> Reaction {
        match *self {
            SideloadAction::Nothing => Reaction::Nothing,
            SideloadAction::Reply(p) => Reaction::Reply(p@),
            SideloadAction::Status(p) => Reaction::Status(p@),
            SideloadAction::ReadBlock { offset, len } => Reaction::ReadBlock { offset, len },
        }
    }
}

/// The two packets that answer a block request, in the order to send them.
#[derive(Debug)]
pub struct BlockReply {
    /// The WRTE that carries the block.
    pub data: AdbPacket,
    /// The OKAY that follows it.
    pub okay: AdbPacket,
}

/// A running sideload.
#[derive(Debug)]
pub struct SideloadSession {
    total: u64,
    chunk_size: usize,
    stream: AdbStream,
    bytes_sent: u64,
    finished: bool,
    final_status: Option<Vec<u8>>,
    phase: Phase,
    pending: Option<BlockRequest>,
}

impl View for SideloadSession {
    type V = SessionView;

    closed spec fn view(&self) -> SessionView {
        SessionView {
            total: self.total as nat,
            chunk_size: self.chunk_size as nat,
            stream: self.stream,
            bytes_sent: self.bytes_sent as nat,
            finished: self.finished,
            final_status: match self.final_status {
                Some(st) => Some(st@),
                None => None,
            },
            phase: self.phase,
            pending: self.pending,
        }
    }
}

impl SideloadSession {
    #[verifier::type_invariant]
    spec fn inv(self) -> bool {
        well_formed(self@)
    }

    /// Takes up block `index`, asked for by a packet with the given
    /// arguments.
    fn ask(&mut self, index: u64, arg0: u32, arg1: u32) -> (act: SideloadAction)
        requires
            old(self).inv(),
            old(self)@.pending is None,
            old(self)@.phase != Phase::Done,
        ensures
            final(self).inv(),
            final(self)@ == ask(old(self)@, index, arg0, arg1),
            act@ == match final(self)@.pending {
                Some(req) => Reaction::ReadBlock { offset: req.offset, len: req.len },
                None => Reaction::Nothing,
            },
    {
        let chunk = self.chunk_size as u64;
        let inside = match index.checked_mul(chunk) {
            Some(offset) => if offset < self.total {
                Some(offset)
            } else {
                None
            },
            None => None,
        };
        match inside {
            Some(offset) => {
                let rest = self.total - offset;
                let len: usize = if rest < chunk {
                    rest as usize
                } else {
                    self.chunk_size
                };
                self.pending = Some(BlockRequest { index, offset, len, arg0, arg1 });
                SideloadAction::ReadBlock { offset, len }
            },
            None => {
                self.finished = true;
                self.bytes_sent = self.total;
                SideloadAction::Nothing
            },
        }
    }

    /// Opens the session on `stream`, and takes up the packet that came
    /// with the opening. A block request in it is served, an OKAY is
    /// mirrored, anything else is passed over.
    pub fn start(request: &SideloadRequest, stream: AdbStream, first: Option<&AdbPacket>) -> (r:
        (Self, SideloadAction))
        ensures
            well_formed(r.0@),
            r.0@ == begin(
                opened(request.total(), request.chunk_size(), stream),
                match first {
                    Some(p) => Some(p@),
                    None => None,
                },
            ),
            r.1@ == first_reaction(
                opened(request.total(), request.chunk_size(), stream),
                match first {
                    Some(p) => Some(p@),
                    None => None,
                },
            ),
    {
        proof {
            use_type_invariant(request);
        }
        let mut session = SideloadSession {
            total: request.total,
            chunk_size: request.chunk_size,
            stream,
            bytes_sent: 0,
            finished: false,
            final_status: None,
            phase: Phase::Serving,
            pending: None,
        };
        let act = match first {
            Some(p) => {
                if p.cmd == A_WRTE {
                    let trimmed = trim_bytes(p.payload.as_slice());
                    match parse_decimal_u64(trimmed.as_slice()) {
                        Some(index) => session.ask(index, p.arg0, p.arg1),
                        None => SideloadAction::Nothing,
                    }
                } else if p.cmd == A_OKAY {
                    SideloadAction::Reply(stream.okay_mirror(p.arg0, p.arg1))
                } else {
                    SideloadAction::Nothing
                }
            },
            None => SideloadAction::Nothing,
        };
        (session, act)
    }

    /// Takes up the next packet of the device. A block request inside the
    /// image is answered by `ReadBlock`, and the block is owed until
    /// `block_reply` is called; one past the end of the image ends the
    /// transfer. Any other WRTE is a status: it is kept, and acknowledged.
    /// An OKAY is mirrored; a CLSE is mirrored by a CLSE and ends the
    /// session. After that, packets are passed over.
    pub fn on_packet(&mut self, pkt: &AdbPacket) -> (act: SideloadAction)
        requires
            old(self)@.pending is None,
        ensures
            well_formed(final(self)@),
            final(self)@ == receive(old(self)@, pkt@),
            act@ == reaction(old(self)@, pkt@),
    {
        proof {
            use_type_invariant(&*self);
        }
        if self.phase == Phase::Done {
            SideloadAction::Nothing
        } else if pkt.cmd == A_OKAY {
            SideloadAction::Reply(self.stream.okay_mirror(pkt.arg0, pkt.arg1))
        } else if pkt.cmd == A_WRTE {
            let trimmed = trim_bytes(pkt.payload.as_slice());
            match parse_decimal_u64(trimmed.as_slice()) {
                Some(index) => self.ask(index, pkt.arg0, pkt.arg1),
                None => {
                    self.final_status = Some(trimmed);
                    self.phase = Phase::AwaitingClose;
                    SideloadAction::Status(self.stream.okay_mirror(pkt.arg0, pkt.arg1))
                },
            }
        } else if pkt.cmd == A_CLSE {
            self.phase = Phase::Done;
            SideloadAction::Reply(AdbPacket::new(A_CLSE, pkt.arg1, pkt.arg0, Vec::new()))
        } else {
            SideloadAction::Nothing
        }
    }

    /// Answers the owed block with its bytes: a WRTE that carries them, then
    /// an OKAY, both with the ids of the request swapped.
    pub fn block_reply(&mut self, data: Vec<u8>) -> (reply: BlockReply)
        requires
            old(self)@.pending is Some,
            data@.len() == old(self)@.pending->Some_0.len,
        ensures
            well_formed(final(self)@),
            final(self)@ == deliver(old(self)@),
            reply.data@ == wrte(
                old(self)@.pending->Some_0.arg1,
                old(self)@.pending->Some_0.arg0,
                data@,
            ),
            reply.okay@ == okay(old(self)@.pending->Some_0.arg1, old(self)@.pending->Some_0.arg0),
    {
        proof {
            use_type_invariant(&*self);
        }
        let req = self.pending.unwrap();
        let sent = req.offset + req.len as u64;
        assert(sent == sent_through(self@, req.index)) by (nonlinear_arith)
            requires
                well_formed(self@),
                self@.pending == Some(req),
                sent == req.offset + req.len,
        ;
        self.pending = None;
        if self.bytes_sent < sent {
            self.bytes_sent = sent;
        }
        BlockReply {
            data: self.stream.wrte_mirror(req.arg0, req.arg1, data),
            okay: self.stream.okay_mirror(req.arg0, req.arg1),
        }
    }

    /// The block that is owed to the device, if any.
    pub fn pending(&self) -> (r: Option<BlockRequest>)
        ensures
            r == self@.pending,
    {
        self.pending
    }

    /// The furthest point of the image up to which a block has gone out;
    /// it never goes down.
    pub fn bytes_sent(&self) -> (r: u64)
        ensures
            r == self@.bytes_sent,
            r <= self@.total,
    {
        proof {
            use_type_invariant(self);
        }
        self.bytes_sent
    }

    /// The length of the image.
    pub fn total(&self) -> (r: u64)
        ensures
            r == self@.total,
    {
        self.total
    }

    /// Whether the device has asked for a block past the end of the image.
    pub fn finished(&self) -> (r: bool)
        ensures
            r == self@.finished,
    {
        self.finished
    }

    /// Where the session stands.
    pub fn phase(&self) -> (r: Phase)
        ensures
            r == self@.phase,
    {
        self.phase
    }

    /// The last status that the device reported, as text.
    pub fn status_text(&self) -> (r: Option<String>)
        ensures
            match self@.final_status {
                Some(st) => r is Some && r->Some_0@ == utf8_lossy(st),
                None => r is None,
            },
    {
        match &self.final_status {
            Some(st) => Some(lossy_text(st.as_slice())),
            None => None,
        }
    }

    /// How the session has ended: a failure where the last status names
    /// one, with the text of that status; else a success, whether or not
    /// the whole image was sent.
    pub fn outcome(&self) -> (r: Result<SideloadReport, SideloadError>)
        ensures
            match self@.final_status {
                Some(st) if names_failure(st) => r matches Err(
                    SideloadError::StatusFailure { status },
                ) && status@ == utf8_lossy(st),
                _ => r == Ok::<SideloadReport, SideloadError>(
                    SideloadReport {
                        bytes_sent: self@.bytes_sent as u64,
                        total: self@.total as u64,
                    },
                ),
            },
    {
        proof {
            use_type_invariant(self);
        }
        match &self.final_status {
            Some(st) => {
                if status_names_failure(st.as_slice()) {
                    return Err(
                        SideloadError::StatusFailure { status: lossy_text(st.as_slice()) },
                    );
                }
            },
            None => {},
        }
        Ok(SideloadReport { bytes_sent: self.bytes_sent, total: self.total })
    }
}


/// The packets that the host sends about the packet `p`, in order; `data`
/// stands for the bytes of the block, where `p` asks for one.
pub open spec fn replies(s: SessionView, p: PacketView, data: Seq<u8>) -> Seq<PacketView> {
    match reaction(s, p) {
        Reaction::Nothing => Seq::empty(),
        Reaction::Reply(q) => seq![q],
        Reaction::Status(q) => seq![q],
        Reaction::ReadBlock { .. } => {
            let req = receive(s, p).pending->Some_0;
            seq![wrte(req.arg1, req.arg0, data), okay(req.arg1, req.arg0)]
        },
    }
}

/// Every packet that the host sends about a packet of the device carries
/// the two ids of that packet, swapped, whatever the stream's own ids are.
/// A block request is answered by exactly one WRTE with the block and one
/// OKAY after it. The same holds of the packet that came with the opening:
/// its OKAY is mirrored, and a block it asks for is owed under its two ids.
pub proof fn lemma_replies_mirror_ids(s: SessionView, p: PacketView, data: Seq<u8>)
    requires
        s.pending is None,
    ensures
        forall|i: int|
            0 <= i < replies(s, p, data).len() ==> {
                let q = #[trigger] replies(s, p, data)[i];
                q.arg0 == p.arg1 && q.arg1 == p.arg0
            },
        reaction(s, p) is ReadBlock ==> replies(s, p, data) == seq![
            wrte(p.arg1, p.arg0, data),
            okay(p.arg1, p.arg0),
        ],
        first_reaction(s, Some(p)) matches Reaction::Reply(q) ==> q.arg0 == p.arg1 && q.arg1
            == p.arg0,
        first_reaction(s, Some(p)) is ReadBlock ==> begin(s, Some(p)).pending->Some_0.arg0
            == p.arg0 && begin(s, Some(p)).pending->Some_0.arg1 == p.arg1,
{
}

/// The blocks tile the image: every block that starts inside the image
/// holds at least one byte and at most one block size, and ends where the
/// next block starts, or at the end of the image if that comes first.
pub proof fn lemma_blocks_tile(s: SessionView, index: u64, arg0: u32, arg1: u32)
    requires
        well_formed(s),
        index * s.chunk_size < s.total,
    ensures
        ({
            let req = request_for(s, index, arg0, arg1);
            &&& req.offset == index * s.chunk_size
            &&& 0 < req.len <= s.chunk_size
            &&& req.offset + req.len == sent_through(s, index)
            &&& sent_through(s, index) == s.total || sent_through(s, index) == (index + 1)
                * s.chunk_size
        }),
{
    assert((index + 1) * s.chunk_size == index * s.chunk_size + s.chunk_size)
        by (nonlinear_arith);
}

/// One thing that happens in a session.
pub enum Event {
    /// A packet of the device has come in.
    Packet(PacketView),
    /// The owed block has gone out.
    BlockSent,
}

/// Whether `e` may happen in the state `s`: the host reads the next packet
/// only when it owes no block, and sends a block only when it owes one.
pub open spec fn in_turn(s: SessionView, e: Event) -> bool {
    match e {
        Event::Packet(_) => s.pending is None,
        Event::BlockSent => s.pending is Some,
    }
}

/// The session after `e` has happened.
pub open spec fn apply(s: SessionView, e: Event) -> SessionView {
    match e {
        Event::Packet(p) => receive(s, p),
        Event::BlockSent => deliver(s),
    }
}

/// The session after all of `es` have happened, in order.
pub open spec fn after(s: SessionView, es: Seq<Event>) -> SessionView
    decreases es.len(),
{
    if es.len() == 0 {
        s
    } else {
        apply(after(s, es.drop_last()), es.last())
    }
}

/// Whether each of `es` happens in turn, starting from `s`.
pub open spec fn orderly(s: SessionView, es: Seq<Event>) -> bool
    decreases es.len(),
{
    es.len() > 0 ==> orderly(s, es.drop_last()) && in_turn(after(s, es.drop_last()), es.last())
}

/// How many of `es` are packets that left a block owed.
pub open spec fn blocks_asked(s: SessionView, es: Seq<Event>) -> nat
    decreases es.len(),
{
    if es.len() == 0 {
        0
    } else {
        blocks_asked(s, es.drop_last()) + if es.last() is Packet && after(s, es).pending is Some {
            1nat
        } else {
            0nat
        }
    }
}

/// How many of `es` are blocks that went out.
pub open spec fn blocks_sent(es: Seq<Event>) -> nat
    decreases es.len(),
{
    if es.len() == 0 {
        0
    } else {
        blocks_sent(es.drop_last()) + if es.last() is BlockSent {
            1nat
        } else {
            0nat
        }
    }
}

/// One event in turn keeps a session well formed, keeps the length of the
/// image and the block size, and does not lower the count of bytes sent.
proof fn lemma_apply(s: SessionView, e: Event)
    requires
        well_formed(s),
        in_turn(s, e),
    ensures
        well_formed(apply(s, e)),
        apply(s, e).total == s.total,
        apply(s, e).chunk_size == s.chunk_size,
        apply(s, e).stream == s.stream,
        s.bytes_sent <= apply(s, e).bytes_sent,
{
    match e {
        Event::Packet(p) => {
            if s.phase != Phase::Done && p.cmd == A_WRTE {
                if let Some(index) = block_index(p.payload) {
                    if index * s.chunk_size < s.total {
                        let req = request_for(s, index, p.arg0, p.arg1);
                        let t = ask(s, index, p.arg0, p.arg1);
                        assert(req == request_for(t, req.index, req.arg0, req.arg1));
                    }
                }
            }
        },
        Event::BlockSent => {
            let req = s.pending->Some_0;
            assert(sent_through(s, req.index) <= s.total);
        },
    }
}

/// Whatever the device sends, and in whatever order, the session stays
/// well formed: no more than the image is ever counted as sent.
pub proof fn lemma_progress_bounded(s: SessionView, es: Seq<Event>)
    requires
        well_formed(s),
        orderly(s, es),
    ensures
        well_formed(after(s, es)),
        after(s, es).bytes_sent <= s.total,
        after(s, es).total == s.total,
        after(s, es).chunk_size == s.chunk_size,
        after(s, es).stream == s.stream,
    decreases es.len(),
{
    if es.len() > 0 {
        lemma_progress_bounded(s, es.drop_last());
        lemma_apply(after(s, es.drop_last()), es.last());
    }
}

/// At every point of a session the host owes the device no block or one:
/// the requests that left a block owed are as many as the blocks sent, or
/// one more.
pub proof fn lemma_one_request_in_flight(s: SessionView, es: Seq<Event>)
    requires
        well_formed(s),
        s.pending is None,
        orderly(s, es),
    ensures
        blocks_asked(s, es) - blocks_sent(es) == if after(s, es).pending is Some {
            1int
        } else {
            0int
        },
        0 <= blocks_asked(s, es) - blocks_sent(es) <= 1,
    decreases es.len(),
{
    if es.len() > 0 {
        lemma_one_request_in_flight(s, es.drop_last());
    }
}

/// The first `n` of an orderly run of events are orderly.
proof fn lemma_orderly_prefix(s: SessionView, es: Seq<Event>, n: int)
    requires
        orderly(s, es),
        0 <= n <= es.len(),
    ensures
        orderly(s, es.take(n)),
    decreases es.len(),
{
    if n < es.len() {
        assert(es.drop_last().take(n) =~= es.take(n));
        lemma_orderly_prefix(s, es.drop_last(), n);
    } else {
        assert(es.take(n) =~= es);
    }
}

/// The count of bytes sent never goes down, whatever the device sends and
/// in whatever order it asks for blocks: it is no smaller after more of the
/// events than after fewer.
pub proof fn lemma_progress_monotone(s: SessionView, es: Seq<Event>, i: int, j: int)
    requires
        well_formed(s),
        orderly(s, es),
        0 <= i <= j <= es.len(),
    ensures
        after(s, es.take(i)).bytes_sent <= after(s, es.take(j)).bytes_sent,
    decreases j - i,
{
    if i < j {
        lemma_progress_monotone(s, es, i, j - 1);
        lemma_orderly_prefix(s, es, j);
        lemma_orderly_prefix(s, es, j - 1);
        lemma_progress_bounded(s, es.take(j - 1));
        assert(es.take(j).drop_last() =~= es.take(j - 1));
        assert(es.take(j).last() == es[j - 1]);
        lemma_apply(after(s, es.take(j - 1)), es[j - 1]);
    }
}

} // verus!
